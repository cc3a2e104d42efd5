//! Finding the usable block range of a store: the latest block, and the
//! earliest block whose header can still be read.
//!
//! Detection takes the store to hold one unbroken run of blocks that ends at
//! the latest block. Of a store with gaps it still returns a range that does
//! not start after it ends, but the earliest block it names is only where
//! its search happened to end.

use vstd::arithmetic::power2::{lemma2_to64, lemma_pow2_unfold, pow2};
use vstd::prelude::*;

use crate::error::AppError;
use crate::store::{asked, drive, lemma_drive_more_fuel, Reply, Request, Step};

verus! {

/// The span of blocks a store can answer for, fixed when the store is opened.
#[derive(Clone, Copy, Debug, PartialEq, Eq, Structural)]
pub struct BlockRange {
    pub latest: u64,
    pub earliest: u64,
}

impl BlockRange {
    /// A range never starts after it ends.
    pub open spec fn wf(self) -> bool {
        self.earliest <= self.latest
    }

    /// Whether the range is well formed.
    pub fn is_wf(&self) -> (valid: bool)
        ensures
            valid == self.wf(),
    {
        self.earliest <= self.latest
    }
}

/// The block numbers whose headers are probed before the search, in order.
pub open spec fn candidates() -> Seq<u64> {
    seq![1u64, 100u64, 1000u64, 10000u64]
}

/// Whether `store` resolves the header of block `number`. A failed read
/// counts as a header that is not there.
pub open spec fn resolves(store: spec_fn(Request) -> Reply, number: u64) -> bool {
    store(Request::Header(number)) is Header
}

/// Where the probe of the candidates from `index` on leaves the upper bound
/// of the search: at the candidate before the first that does not resolve,
/// and at `latest` where the first candidate fails or none does. Candidates
/// above `latest` are not probed.
pub open spec fn coarse_bound(store: spec_fn(Request) -> Reply, latest: u64, index: int) -> u64
    decreases 4 - index,
{
    if index < 0 || index >= 4 || candidates()[index] > latest {
        latest
    } else if resolves(store, candidates()[index]) {
        coarse_bound(store, latest, index + 1)
    } else if index == 0 {
        latest
    } else {
        candidates()[index - 1]
    }
}

/// The block at which a binary search over `low..=high` ends: at each round
/// the midpoint is tested and the half that must hold the first resolvable
/// header is kept.
pub open spec fn bisect(store: spec_fn(Request) -> Reply, low: int, high: int) -> int
    decreases high - low,
{
    if low >= high {
        low
    } else {
        let mid = low + (high - low) / 2;
        if resolves(store, mid as u64) {
            bisect(store, low, mid)
        } else {
            bisect(store, mid + 1, high)
        }
    }
}

/// The earliest block found for a store whose best block is `latest`.
pub open spec fn earliest_of(store: spec_fn(Request) -> Reply, latest: u64) -> int {
    let upper = coarse_bound(store, latest, 0);
    if upper > 1 {
        bisect(store, 1, upper as int)
    } else {
        upper as int
    }
}

/// What detection yields for `store`: its range, or the failure of the one
/// read that detection cannot do without, that of the best block number.
pub open spec fn detect(store: spec_fn(Request) -> Reply) -> Result<BlockRange, AppError> {
    match store(Request::BestBlockNumber) {
        Reply::BlockNumber(latest) => Ok(
            BlockRange { latest, earliest: earliest_of(store, latest) as u64 },
        ),
        other => Err(other.failure(Request::BestBlockNumber)),
    }
}

/// The candidates from `index` on whose headers the probe reads: each one
/// that is not above `latest`, up to and with the first that does not
/// resolve.
pub open spec fn coarse_probes(store: spec_fn(Request) -> Reply, latest: u64, index: int) -> Seq<
    u64,
>
    decreases 4 - index,
{
    if index < 0 || index >= 4 || candidates()[index] > latest {
        Seq::empty()
    } else if resolves(store, candidates()[index]) {
        seq![candidates()[index]] + coarse_probes(store, latest, index + 1)
    } else {
        seq![candidates()[index]]
    }
}

/// The midpoints whose headers a binary search over `low..=high` reads.
pub open spec fn search_probes(store: spec_fn(Request) -> Reply, low: int, high: int) -> Seq<u64>
    decreases high - low,
{
    if low >= high {
        Seq::empty()
    } else {
        let mid = low + (high - low) / 2;
        if resolves(store, mid as u64) {
            seq![mid as u64] + search_probes(store, low, mid)
        } else {
            seq![mid as u64] + search_probes(store, mid + 1, high)
        }
    }
}

/// The search that follows the probe of the candidates from `index` on.
pub open spec fn search_after(store: spec_fn(Request) -> Reply, latest: u64, index: int) -> Seq<
    u64,
> {
    let upper = coarse_bound(store, latest, index);
    if upper > 1 {
        search_probes(store, 1, upper as int)
    } else {
        Seq::empty()
    }
}

/// All the blocks whose headers detection reads for a store whose best
/// block is `latest`, in the order in which it reads them.
pub open spec fn probes(store: spec_fn(Request) -> Reply, latest: u64) -> Seq<u64> {
    coarse_probes(store, latest, 0) + search_after(store, latest, 0)
}

/// The header requests for `numbers`.
pub open spec fn header_requests(numbers: Seq<u64>) -> Seq<Request> {
    Seq::new(numbers.len(), |i: int| Request::Header(numbers[i]))
}

/// Range detection at rest between two reads: what it waits for.
#[derive(Clone, Copy, Debug, PartialEq, Eq)]
pub enum RangeDetector {
    /// The best block number was asked for.
    Latest,
    /// The header of candidate `index` was asked for; the candidates before
    /// it resolved.
    Coarse { latest: u64, index: usize },
    /// The header of the midpoint of `low..=high` was asked for.
    Search { latest: u64, low: u64, high: u64 },
}

/// One move of range detection.
pub type DetectStep = Step<RangeDetector, Result<BlockRange, AppError>>;

/// The midpoint of `low..=high`, rounded down.
pub open spec fn midpoint(low: u64, high: u64) -> u64 {
    (low + (high - low) / 2) as u64
}

impl RangeDetector {
    /// Where a state may be fed: within the candidates, within a search
    /// interval that is not yet a single block.
    pub open spec fn wf(self) -> bool {
        match self {
            RangeDetector::Latest => true,
            RangeDetector::Coarse { latest, index } => index < 4 && candidates()[index as int]
                <= latest,
            RangeDetector::Search { latest, low, high } => 1 <= low < high <= latest,
        }
    }

    /// The probe of the candidates from `index` on.
    pub open spec fn coarse(latest: u64, index: int) -> DetectStep {
        if 0 <= index < 4 && candidates()[index] <= latest {
            Step::Ask(
                Request::Header(candidates()[index]),
                RangeDetector::Coarse { latest, index: index as usize },
            )
        } else {
            Self::search_from(latest, latest)
        }
    }

    /// The search over `1..=upper`, which is over at once where `upper` is
    /// not above 1.
    pub open spec fn search_from(latest: u64, upper: u64) -> DetectStep {
        if upper > 1 {
            Self::search(latest, 1, upper)
        } else {
            Step::Done(Ok(BlockRange { latest, earliest: upper }))
        }
    }

    /// The search over `low..=high`.
    pub open spec fn search(latest: u64, low: u64, high: u64) -> DetectStep {
        if low < high {
            Step::Ask(
                Request::Header(midpoint(low, high)),
                RangeDetector::Search { latest, low, high },
            )
        } else {
            Step::Done(Ok(BlockRange { latest, earliest: low }))
        }
    }

    /// The first move: ask for the best block number.
    pub open spec fn begin() -> DetectStep {
        Step::Ask(Request::BestBlockNumber, RangeDetector::Latest)
    }

    /// The move that follows `reply`.
    pub open spec fn fed(self, reply: Reply) -> DetectStep {
        match self {
            RangeDetector::Latest => match reply {
                Reply::BlockNumber(latest) => Self::coarse(latest, 0),
                _ => Step::Done(Err(reply.failure(Request::BestBlockNumber))),
            },
            RangeDetector::Coarse { latest, index } => if reply is Header {
                Self::coarse(latest, index + 1)
            } else {
                Self::search_from(
                    latest,
                    if 0 < index <= 4 {
                        candidates()[index - 1]
                    } else {
                        latest
                    },
                )
            },
            RangeDetector::Search { latest, low, high } => if low < high {
                if reply is Header {
                    Self::search(latest, low, midpoint(low, high))
                } else {
                    Self::search(latest, (midpoint(low, high) + 1) as u64, high)
                }
            } else {
                Step::Done(Ok(BlockRange { latest, earliest: low }))
            },
        }
    }

    /// `fed` as a function value, for [`drive`].
    pub open spec fn resume() -> spec_fn(RangeDetector, Reply) -> DetectStep {
        |state: RangeDetector, reply: Reply| state.fed(reply)
    }

    fn candidate(index: usize) -> (number: u64)
        requires
            index < 4,
        ensures
            number == candidates()[index as int],
    {
        if index == 0 {
            1
        } else if index == 1 {
            100
        } else if index == 2 {
            1000
        } else {
            10000
        }
    }

    fn probe_candidates(latest: u64, index: usize) -> (step: DetectStep)
        ensures
            step == Self::coarse(latest, index as int),
    {
        if index < 4 && Self::candidate(index) <= latest {
            Step::Ask(
                Request::Header(Self::candidate(index)),
                RangeDetector::Coarse { latest, index },
            )
        } else {
            Self::start_search(latest, latest)
        }
    }

    fn start_search(latest: u64, upper: u64) -> (step: DetectStep)
        ensures
            step == Self::search_from(latest, upper),
    {
        if upper > 1 {
            Self::binary_search_earliest_block(latest, 1, upper)
        } else {
            Step::Done(Ok(BlockRange { latest, earliest: upper }))
        }
    }

    /// One round of the binary search for the earliest block in
    /// `low..=high`: asks for the header of the midpoint, or ends with `low`
    /// where the interval is a single block.
    pub fn binary_search_earliest_block(latest: u64, low: u64, high: u64) -> (step: DetectStep)
        ensures
            step == Self::search(latest, low, high),
    {
        if low < high {
            let mid: u64 = low + (high - low) / 2;
            Step::Ask(Request::Header(mid), RangeDetector::Search { latest, low, high })
        } else {
            Step::Done(Ok(BlockRange { latest, earliest: low }))
        }
    }

    /// Whether the state may be fed.
    pub fn is_wf(&self) -> (valid: bool)
        ensures
            valid == self.wf(),
    {
        match *self {
            RangeDetector::Latest => true,
            RangeDetector::Coarse { latest, index } => index < 4 && Self::candidate(index)
                <= latest,
            RangeDetector::Search { latest, low, high } => 1 <= low && low < high && high
                <= latest,
        }
    }

    /// Starts detection: the best block number is read first.
    pub fn detect_node_characteristics() -> (step: DetectStep)
        ensures
            step == Self::begin(),
    {
        Step::Ask(Request::BestBlockNumber, RangeDetector::Latest)
    }

    /// Takes the reply to the read that was asked for and says what comes
    /// next. A failed best-block read ends detection with that failure; a
    /// header that is missing or cannot be read only narrows the search.
    pub fn feed(self, reply: Reply) -> (step: DetectStep)
        ensures
            step == self.fed(reply),
            self.wf() ==> match step {
                Step::Ask(_, next) => next.wf(),
                Step::Done(Ok(range)) => range.wf(),
                Step::Done(Err(_)) => self is Latest,
            },
    {
        match self {
            RangeDetector::Latest => match reply {
                Reply::BlockNumber(latest) => Self::probe_candidates(latest, 0),
                other => Step::Done(Err(other.into_failure(Request::BestBlockNumber))),
            },
            RangeDetector::Coarse { latest, index } => {
                let found = matches!(reply, Reply::Header(_));
                if found {
                    if index < 4 {
                        Self::probe_candidates(latest, index + 1)
                    } else {
                        Self::start_search(latest, latest)
                    }
                } else if 0 < index && index <= 4 {
                    Self::start_search(latest, Self::candidate(index - 1))
                } else {
                    Self::start_search(latest, latest)
                }
            },
            RangeDetector::Search { latest, low, high } => {
                if low < high {
                    let mid: u64 = low + (high - low) / 2;
                    if matches!(reply, Reply::Header(_)) {
                        Self::binary_search_earliest_block(latest, low, mid)
                    } else {
                        Self::binary_search_earliest_block(latest, mid + 1, high)
                    }
                } else {
                    Step::Done(Ok(BlockRange { latest, earliest: low }))
                }
            },
        }
    }
}

/// A search that `store` answers ends at the block that `bisect` names,
/// within as many requests as the interval is wide.
pub proof fn lemma_search_runs(
    store: spec_fn(Request) -> Reply,
    latest: u64,
    low: u64,
    high: u64,
    fuel: nat,
)
    requires
        low <= high,
        fuel >= high - low,
    ensures
        drive(RangeDetector::search(latest, low, high), RangeDetector::resume(), store, fuel)
            == Some(
            Ok::<BlockRange, AppError>(
                BlockRange { latest, earliest: bisect(store, low as int, high as int) as u64 },
            ),
        ),
        low <= bisect(store, low as int, high as int) <= high,
    decreases high - low,
{
    if low < high {
        let mid = midpoint(low, high);
        let state = RangeDetector::Search { latest, low, high };
        let next = state.fed(store(Request::Header(mid)));
        assert(drive(RangeDetector::search(latest, low, high), RangeDetector::resume(), store, fuel)
            == drive(next, RangeDetector::resume(), store, (fuel - 1) as nat));
        if resolves(store, mid) {
            lemma_search_runs(store, latest, low, mid, (fuel - 1) as nat);
        } else {
            lemma_search_runs(store, latest, (mid + 1) as u64, high, (fuel - 1) as nat);
        }
    }
}

/// A probe of the candidates that `store` answers goes on into the search
/// below the bound that `coarse_bound` names, and the whole of it ends
/// within `latest + 4 - index` requests.
pub proof fn lemma_coarse_runs(
    store: spec_fn(Request) -> Reply,
    latest: u64,
    index: int,
    fuel: nat,
)
    requires
        0 <= index <= 4,
        index > 0 ==> candidates()[index - 1] <= latest,
        fuel >= latest + 4 - index,
    ensures
        coarse_bound(store, latest, index) <= latest,
        drive(RangeDetector::coarse(latest, index), RangeDetector::resume(), store, fuel) == Some(
            Ok::<BlockRange, AppError>(
                BlockRange {
                    latest,
                    earliest: (if coarse_bound(store, latest, index) > 1 {
                        bisect(store, 1, coarse_bound(store, latest, index) as int)
                    } else {
                        coarse_bound(store, latest, index) as int
                    }) as u64,
                },
            ),
        ),
    decreases 4 - index,
{
    if index < 4 && candidates()[index] <= latest {
        let number = candidates()[index];
        let state = RangeDetector::Coarse { latest, index: index as usize };
        let next = state.fed(store(Request::Header(number)));
        assert(drive(RangeDetector::coarse(latest, index), RangeDetector::resume(), store, fuel)
            == drive(next, RangeDetector::resume(), store, (fuel - 1) as nat));
        if resolves(store, number) {
            lemma_coarse_runs(store, latest, index + 1, (fuel - 1) as nat);
        } else {
            let upper = coarse_bound(store, latest, index);
            if upper > 1 {
                lemma_search_runs(store, latest, 1, upper, (fuel - 1) as nat);
            }
        }
    } else {
        if latest > 1 {
            lemma_search_runs(store, latest, 1, latest, fuel);
        }
    }
}

/// Detection, with every read answered by `store`, ends with what
/// [`detect`] says, and the range it finds is well formed.
pub proof fn lemma_detection_runs(store: spec_fn(Request) -> Reply, fuel: nat)
    requires
        store(Request::BestBlockNumber) matches Reply::BlockNumber(latest) ==> fuel >= latest + 5,
        !(store(Request::BestBlockNumber) is BlockNumber) ==> fuel >= 1,
    ensures
        drive(RangeDetector::begin(), RangeDetector::resume(), store, fuel) == Some(detect(store)),
        detect(store) matches Ok(range) ==> range.wf() && (range.latest >= 1 ==> range.earliest
            >= 1),
{
    let first = RangeDetector::Latest.fed(store(Request::BestBlockNumber));
    assert(drive(RangeDetector::begin(), RangeDetector::resume(), store, fuel) == drive(
        first,
        RangeDetector::resume(),
        store,
        (fuel - 1) as nat,
    ));
    match store(Request::BestBlockNumber) {
        Reply::BlockNumber(latest) => {
            lemma_coarse_runs(store, latest, 0, (fuel - 1) as nat);
            let upper = coarse_bound(store, latest, 0);
            if upper > 1 {
                lemma_search_runs(store, latest, 1, upper, upper as nat);
            } else {
                assert(latest >= 1 ==> upper >= 1) by {
                    reveal_with_fuel(coarse_bound, 5);
                }
            }
        },
        _ => {},
    }
}

/// The number of headers that a search over an interval `width` blocks wide
/// reads at most: one for each halving that the width takes to reach 0.
pub open spec fn rounds(width: nat) -> nat
    decreases width,
{
    if width == 0 {
        0
    } else {
        1 + rounds(width / 2)
    }
}

/// A narrower interval never takes more rounds.
pub proof fn lemma_rounds_grow(narrow: nat, wide: nat)
    requires
        narrow <= wide,
    ensures
        rounds(narrow) <= rounds(wide),
    decreases wide,
{
    if narrow > 0 {
        lemma_rounds_grow(narrow / 2, wide / 2);
    }
}

/// A width below `2^bits` takes at most `bits` rounds.
pub proof fn lemma_rounds_within_bits(width: nat, bits: nat)
    requires
        width < pow2(bits),
    ensures
        rounds(width) <= bits,
    decreases width,
{
    if width > 0 {
        if bits == 0 {
            lemma2_to64();
        } else {
            lemma_pow2_unfold(bits);
            lemma_rounds_within_bits(width / 2, (bits - 1) as nat);
        }
    }
}

/// A search ends within as many reads as its interval takes rounds,
/// whatever the store answers.
pub proof fn lemma_search_is_short(
    store: spec_fn(Request) -> Reply,
    latest: u64,
    low: u64,
    high: u64,
    fuel: nat,
)
    requires
        low <= high,
        fuel >= rounds((high - low) as nat),
    ensures
        drive(RangeDetector::search(latest, low, high), RangeDetector::resume(), store, fuel)
            is Some,
    decreases high - low,
{
    if low < high {
        let mid = midpoint(low, high);
        let state = RangeDetector::Search { latest, low, high };
        let next = state.fed(store(Request::Header(mid)));
        assert(drive(RangeDetector::search(latest, low, high), RangeDetector::resume(), store, fuel)
            == drive(next, RangeDetector::resume(), store, (fuel - 1) as nat));
        if resolves(store, mid) {
            lemma_rounds_grow((mid - low) as nat, ((high - low) / 2) as nat);
            lemma_search_is_short(store, latest, low, mid, (fuel - 1) as nat);
        } else {
            lemma_rounds_grow((high - (mid + 1)) as nat, ((high - low) / 2) as nat);
            lemma_search_is_short(store, latest, (mid + 1) as u64, high, (fuel - 1) as nat);
        }
    }
}

/// The probe of the candidates from `index` on, with the search behind it,
/// ends within a read for each candidate left and 64 for the search.
pub proof fn lemma_coarse_is_short(
    store: spec_fn(Request) -> Reply,
    latest: u64,
    index: int,
    fuel: nat,
)
    requires
        0 <= index <= 4,
        fuel >= 4 - index + 64,
    ensures
        drive(RangeDetector::coarse(latest, index), RangeDetector::resume(), store, fuel) is Some,
    decreases 4 - index,
{
    lemma2_to64();
    if index < 4 && candidates()[index] <= latest {
        let number = candidates()[index];
        let state = RangeDetector::Coarse { latest, index: index as usize };
        let next = state.fed(store(Request::Header(number)));
        assert(drive(RangeDetector::coarse(latest, index), RangeDetector::resume(), store, fuel)
            == drive(next, RangeDetector::resume(), store, (fuel - 1) as nat));
        if resolves(store, number) {
            lemma_coarse_is_short(store, latest, index + 1, (fuel - 1) as nat);
        } else {
            let upper: u64 = if index == 0 {
                latest
            } else {
                candidates()[index - 1]
            };
            if upper > 1 {
                lemma_rounds_within_bits((upper - 1) as nat, 64);
                lemma_search_is_short(store, latest, 1, upper, (fuel - 1) as nat);
            }
        }
    } else {
        if latest > 1 {
            lemma_rounds_within_bits((latest - 1) as nat, 64);
            lemma_search_is_short(store, latest, 1, latest, fuel);
        }
    }
}

/// Detection is short and ends as [`detect`] says: whatever the store
/// holds, 69 reads are enough, one for the best block number, four for the
/// candidates and 64 for the search.
pub proof fn law_detection_ends_within_69_reads(store: spec_fn(Request) -> Reply)
    ensures
        drive(RangeDetector::begin(), RangeDetector::resume(), store, 69) == Some(detect(store)),
        detect(store) matches Ok(range) ==> range.wf(),
{
    match store(Request::BestBlockNumber) {
        Reply::BlockNumber(latest) => {
            let first = RangeDetector::Latest.fed(store(Request::BestBlockNumber));
            assert(drive(RangeDetector::begin(), RangeDetector::resume(), store, 69) == drive(
                first,
                RangeDetector::resume(),
                store,
                68,
            ));
            lemma_coarse_is_short(store, latest, 0, 68);
            let enough = (latest + 69) as nat;
            lemma_detection_runs(store, enough);
            lemma_drive_more_fuel(
                RangeDetector::begin(),
                RangeDetector::resume(),
                store,
                69,
                enough,
            );
        },
        _ => {
            lemma_detection_runs(store, 69);
        },
    }
}

/// Where the headers of a store resolve from block `k` on and for no block
/// before it, a binary search over an interval that holds `k` ends at `k`.
pub proof fn lemma_bisect_finds_threshold(
    store: spec_fn(Request) -> Reply,
    low: int,
    high: int,
    k: int,
)
    requires
        0 <= low <= k <= high <= u64::MAX,
        forall|n: u64| low <= n <= high ==> (#[trigger] resolves(store, n) <==> n >= k),
    ensures
        bisect(store, low, high) == k,
    decreases high - low,
{
    if low < high {
        let mid = low + (high - low) / 2;
        if resolves(store, mid as u64) {
            lemma_bisect_finds_threshold(store, low, mid, k);
        } else {
            lemma_bisect_finds_threshold(store, mid + 1, high, k);
        }
    }
}

/// A store whose headers resolve from block `k` on, and for no block before
/// it, is found to start at `k`: detection returns `earliest == k` for every
/// `k` from 1 to the latest block.
pub proof fn law_earliest_is_threshold(store: spec_fn(Request) -> Reply, latest: u64, k: u64)
    requires
        store(Request::BestBlockNumber) == Reply::BlockNumber(latest),
        1 <= k <= latest,
        forall|n: u64| 1 <= n <= latest ==> (#[trigger] resolves(store, n) <==> n >= k),
    ensures
        detect(store) == Ok::<BlockRange, AppError>(BlockRange { latest, earliest: k }),
        drive(RangeDetector::begin(), RangeDetector::resume(), store, 69) == Some(
            Ok::<BlockRange, AppError>(BlockRange { latest, earliest: k }),
        ),
{
    assert(coarse_bound(store, latest, 0) == latest) by {
        reveal_with_fuel(coarse_bound, 5);
    }
    if latest > 1 {
        lemma_bisect_finds_threshold(store, 1, latest as int, k as int);
    }
    law_detection_ends_within_69_reads(store);
}

/// A search reads exactly the midpoints of [`search_probes`].
pub proof fn lemma_search_reads(
    store: spec_fn(Request) -> Reply,
    latest: u64,
    low: u64,
    high: u64,
    fuel: nat,
)
    requires
        low <= high,
        fuel >= rounds((high - low) as nat),
    ensures
        asked(RangeDetector::search(latest, low, high), RangeDetector::resume(), store, fuel)
            == header_requests(search_probes(store, low as int, high as int)),
    decreases high - low,
{
    if low < high {
        let mid = midpoint(low, high);
        let state = RangeDetector::Search { latest, low, high };
        let next = state.fed(store(Request::Header(mid)));
        assert(asked(RangeDetector::search(latest, low, high), RangeDetector::resume(), store, fuel)
            == seq![Request::Header(mid)] + asked(
            next,
            RangeDetector::resume(),
            store,
            (fuel - 1) as nat,
        ));
        if resolves(store, mid) {
            lemma_rounds_grow((mid - low) as nat, ((high - low) / 2) as nat);
            lemma_search_reads(store, latest, low, mid, (fuel - 1) as nat);
            assert(header_requests(search_probes(store, low as int, high as int)) =~= seq![
                Request::Header(mid),
            ] + header_requests(search_probes(store, low as int, mid as int)));
        } else {
            lemma_rounds_grow((high - (mid + 1)) as nat, ((high - low) / 2) as nat);
            lemma_search_reads(store, latest, (mid + 1) as u64, high, (fuel - 1) as nat);
            assert(header_requests(search_probes(store, low as int, high as int)) =~= seq![
                Request::Header(mid),
            ] + header_requests(search_probes(store, mid + 1, high as int)));
        }
    } else {
        assert(header_requests(search_probes(store, low as int, high as int)) =~= Seq::empty());
    }
}

/// The probe of the candidates from `index` on reads exactly the candidates
/// of [`coarse_probes`], and the search behind it its midpoints.
pub proof fn lemma_coarse_reads(
    store: spec_fn(Request) -> Reply,
    latest: u64,
    index: int,
    fuel: nat,
)
    requires
        0 <= index <= 4,
        fuel >= 4 - index + 64,
    ensures
        asked(RangeDetector::coarse(latest, index), RangeDetector::resume(), store, fuel)
            == header_requests(
            coarse_probes(store, latest, index) + search_after(store, latest, index),
        ),
    decreases 4 - index,
{
    lemma2_to64();
    let upper = coarse_bound(store, latest, index);
    let all = coarse_probes(store, latest, index) + search_after(store, latest, index);
    if index < 4 && candidates()[index] <= latest {
        let number = candidates()[index];
        let state = RangeDetector::Coarse { latest, index: index as usize };
        let next = state.fed(store(Request::Header(number)));
        assert(asked(RangeDetector::coarse(latest, index), RangeDetector::resume(), store, fuel)
            == seq![Request::Header(number)] + asked(
            next,
            RangeDetector::resume(),
            store,
            (fuel - 1) as nat,
        ));
        if resolves(store, number) {
            lemma_coarse_reads(store, latest, index + 1, (fuel - 1) as nat);
            assert(header_requests(all) =~= seq![Request::Header(number)] + header_requests(
                coarse_probes(store, latest, index + 1) + search_after(store, latest, index + 1),
            ));
        } else {
            if upper > 1 {
                lemma_rounds_within_bits((upper - 1) as nat, 64);
                lemma_search_reads(store, latest, 1, upper, (fuel - 1) as nat);
            }
            assert(header_requests(all) =~= seq![Request::Header(number)] + header_requests(
                search_after(store, latest, index),
            ));
            assert(header_requests(Seq::<u64>::empty()) =~= Seq::<Request>::empty());
        }
    } else {
        if latest > 1 {
            lemma_rounds_within_bits((latest - 1) as nat, 64);
            lemma_search_reads(store, latest, 1, latest, fuel);
        }
        assert(all =~= search_after(store, latest, index));
        assert(header_requests(Seq::<u64>::empty()) =~= Seq::<Request>::empty());
    }
}

/// Detection reads the best block number and then the headers of
/// [`probes`], in that order, and nothing else.
pub proof fn law_detection_reads_its_probes(store: spec_fn(Request) -> Reply, latest: u64)
    requires
        store(Request::BestBlockNumber) == Reply::BlockNumber(latest),
    ensures
        asked(RangeDetector::begin(), RangeDetector::resume(), store, 69) == seq![
            Request::BestBlockNumber,
        ] + header_requests(probes(store, latest)),
{
    let first = RangeDetector::Latest.fed(store(Request::BestBlockNumber));
    assert(asked(RangeDetector::begin(), RangeDetector::resume(), store, 69) == seq![
        Request::BestBlockNumber,
    ] + asked(first, RangeDetector::resume(), store, 68));
    lemma_coarse_reads(store, latest, 0, 68);
}

/// A probe of the candidates in which every header read resolves leaves the
/// upper bound at `latest`.
pub proof fn lemma_coarse_all_resolve(store: spec_fn(Request) -> Reply, latest: u64, index: int)
    requires
        0 <= index <= 4,
        forall|i: int|
            0 <= i < coarse_probes(store, latest, index).len() ==> resolves(
                store,
                #[trigger] coarse_probes(store, latest, index)[i],
            ),
    ensures
        coarse_bound(store, latest, index) == latest,
    decreases 4 - index,
{
    if index < 4 && candidates()[index] <= latest {
        let here = coarse_probes(store, latest, index);
        assert(here[0] == candidates()[index]);
        assert(resolves(store, candidates()[index]));
        let rest = coarse_probes(store, latest, index + 1);
        assert forall|i: int| 0 <= i < rest.len() implies resolves(store, #[trigger] rest[i]) by {
            assert(rest[i] == here[i + 1]);
        }
        lemma_coarse_all_resolve(store, latest, index + 1);
    }
}

/// A binary search in which every header read resolves ends at the lower
/// end.
pub proof fn lemma_search_all_resolve(store: spec_fn(Request) -> Reply, low: int, high: int)
    requires
        0 <= low <= high <= u64::MAX,
        forall|i: int|
            0 <= i < search_probes(store, low, high).len() ==> resolves(
                store,
                #[trigger] search_probes(store, low, high)[i],
            ),
    ensures
        bisect(store, low, high) == low,
    decreases high - low,
{
    if low < high {
        let mid = low + (high - low) / 2;
        let here = search_probes(store, low, high);
        assert(here[0] == mid as u64);
        assert(resolves(store, mid as u64));
        let rest = search_probes(store, low, mid);
        assert forall|i: int| 0 <= i < rest.len() implies resolves(store, #[trigger] rest[i]) by {
            assert(rest[i] == here[i + 1]);
        }
        lemma_search_all_resolve(store, low, mid);
    }
}

/// A binary search in which no header read resolves ends at the upper end.
pub proof fn lemma_search_none_resolve(store: spec_fn(Request) -> Reply, low: int, high: int)
    requires
        0 <= low <= high <= u64::MAX,
        forall|i: int|
            0 <= i < search_probes(store, low, high).len() ==> !resolves(
                store,
                #[trigger] search_probes(store, low, high)[i],
            ),
    ensures
        bisect(store, low, high) == high,
    decreases high - low,
{
    if low < high {
        let mid = low + (high - low) / 2;
        let here = search_probes(store, low, high);
        assert(here[0] == mid as u64);
        assert(!resolves(store, mid as u64));
        let rest = search_probes(store, mid + 1, high);
        assert forall|i: int| 0 <= i < rest.len() implies !resolves(store, #[trigger] rest[i]) by {
            assert(rest[i] == here[i + 1]);
        }
        lemma_search_none_resolve(store, mid + 1, high);
    }
}

/// Where every header that detection reads resolves, the earliest block is
/// 1. The store must hold a block above block 0: of a store whose best
/// block is 0 no header is read, and its earliest block is 0.
pub proof fn law_all_resolve_earliest_is_one(store: spec_fn(Request) -> Reply, latest: u64)
    requires
        store(Request::BestBlockNumber) == Reply::BlockNumber(latest),
        latest >= 1,
        forall|i: int|
            0 <= i < probes(store, latest).len() ==> resolves(
                store,
                #[trigger] probes(store, latest)[i],
            ),
    ensures
        detect(store) == Ok::<BlockRange, AppError>(BlockRange { latest, earliest: 1 }),
{
    let all = probes(store, latest);
    let coarse = coarse_probes(store, latest, 0);
    assert forall|i: int| 0 <= i < coarse.len() implies resolves(store, #[trigger] coarse[i]) by {
        assert(coarse[i] == all[i]);
    }
    lemma_coarse_all_resolve(store, latest, 0);
    if latest > 1 {
        let search = search_probes(store, 1, latest as int);
        assert forall|i: int| 0 <= i < search.len() implies resolves(
            store,
            #[trigger] search[i],
        ) by {
            assert(search[i] == all[coarse.len() + i]);
        }
        lemma_search_all_resolve(store, 1, latest as int);
    }
}

/// Where no header that detection reads resolves, the earliest block is the
/// latest block.
pub proof fn law_none_resolve_earliest_is_latest(store: spec_fn(Request) -> Reply, latest: u64)
    requires
        store(Request::BestBlockNumber) == Reply::BlockNumber(latest),
        forall|i: int|
            0 <= i < probes(store, latest).len() ==> !resolves(
                store,
                #[trigger] probes(store, latest)[i],
            ),
    ensures
        detect(store) == Ok::<BlockRange, AppError>(BlockRange { latest, earliest: latest }),
{
    let all = probes(store, latest);
    let coarse = coarse_probes(store, latest, 0);
    if latest >= 1 {
        assert(coarse[0] == 1);
        assert(coarse[0] == all[0]);
        assert(!resolves(store, 1));
        assert(coarse =~= seq![1u64]);
    }
    assert(coarse_bound(store, latest, 0) == latest);
    if latest > 1 {
        let search = search_probes(store, 1, latest as int);
        assert forall|i: int| 0 <= i < search.len() implies !resolves(
            store,
            #[trigger] search[i],
        ) by {
            assert(search[i] == all[coarse.len() + i]);
        }
        lemma_search_none_resolve(store, 1, latest as int);
    }
}

/// The probe of the candidates leaves an upper bound that is not above
/// `latest`.
pub proof fn lemma_coarse_bound_within(store: spec_fn(Request) -> Reply, latest: u64, index: int)
    requires
        0 <= index <= 4,
        index > 0 ==> candidates()[index - 1] <= latest,
    ensures
        coarse_bound(store, latest, index) <= latest,
    decreases 4 - index,
{
    if index < 4 && candidates()[index] <= latest && resolves(store, candidates()[index]) {
        lemma_coarse_bound_within(store, latest, index + 1);
    }
}

/// The candidates that the probe reads lie in `1..=latest`.
pub proof fn lemma_coarse_probes_within(store: spec_fn(Request) -> Reply, latest: u64, index: int)
    requires
        0 <= index <= 4,
    ensures
        forall|i: int|
            0 <= i < coarse_probes(store, latest, index).len() ==> 1 <= #[trigger] coarse_probes(
                store,
                latest,
                index,
            )[i] <= latest,
    decreases 4 - index,
{
    if index < 4 && candidates()[index] <= latest {
        let here = coarse_probes(store, latest, index);
        if resolves(store, candidates()[index]) {
            lemma_coarse_probes_within(store, latest, index + 1);
            let rest = coarse_probes(store, latest, index + 1);
            assert forall|i: int| 0 <= i < here.len() implies 1 <= #[trigger] here[i]
                <= latest by {
                if i > 0 {
                    assert(here[i] == rest[i - 1]);
                }
            }
        }
    }
}

/// The midpoints that a search over `low..=high` reads lie in `low..high`:
/// the upper end itself is never read.
pub proof fn lemma_search_probes_within(store: spec_fn(Request) -> Reply, low: int, high: int)
    requires
        0 <= low <= high <= u64::MAX,
    ensures
        forall|i: int|
            0 <= i < search_probes(store, low, high).len() ==> low <= #[trigger] search_probes(
                store,
                low,
                high,
            )[i] < high,
    decreases high - low,
{
    if low < high {
        let mid = low + (high - low) / 2;
        let here = search_probes(store, low, high);
        if resolves(store, mid as u64) {
            lemma_search_probes_within(store, low, mid);
            let rest = search_probes(store, low, mid);
            assert forall|i: int| 0 <= i < here.len() implies low <= #[trigger] here[i] < high by {
                if i > 0 {
                    assert(here[i] == rest[i - 1]);
                }
            }
        } else {
            lemma_search_probes_within(store, mid + 1, high);
            let rest = search_probes(store, mid + 1, high);
            assert forall|i: int| 0 <= i < here.len() implies low <= #[trigger] here[i] < high by {
                if i > 0 {
                    assert(here[i] == rest[i - 1]);
                }
            }
        }
    }
}

/// A search reads no header twice.
pub proof fn law_search_reads_differ(store: spec_fn(Request) -> Reply, low: int, high: int)
    requires
        0 <= low <= high <= u64::MAX,
    ensures
        forall|i: int, j: int|
            0 <= i < j < search_probes(store, low, high).len() ==> search_probes(
                store,
                low,
                high,
            )[i] != search_probes(store, low, high)[j],
    decreases high - low,
{
    if low < high {
        let mid = low + (high - low) / 2;
        let here = search_probes(store, low, high);
        let (below, above) = if resolves(store, mid as u64) {
            (low, mid)
        } else {
            (mid + 1, high)
        };
        let rest = search_probes(store, below, above);
        lemma_search_probes_within(store, below, above);
        law_search_reads_differ(store, below, above);
        assert forall|i: int, j: int| 0 <= i < j < here.len() implies here[i] != here[j] by {
            assert(here[j] == rest[j - 1]);
            if i > 0 {
                assert(here[i] == rest[i - 1]);
            }
        }
    }
}

/// Every header that detection reads is that of a block in `1..=latest`.
pub proof fn law_probes_lie_in_range(store: spec_fn(Request) -> Reply, latest: u64)
    ensures
        forall|i: int|
            0 <= i < probes(store, latest).len() ==> 1 <= #[trigger] probes(store, latest)[i]
                <= latest,
{
    let coarse = coarse_probes(store, latest, 0);
    let search = search_after(store, latest, 0);
    let upper = coarse_bound(store, latest, 0);
    lemma_coarse_probes_within(store, latest, 0);
    lemma_coarse_bound_within(store, latest, 0);
    if upper > 1 {
        lemma_search_probes_within(store, 1, upper as int);
    }
    assert forall|i: int| 0 <= i < probes(store, latest).len() implies 1 <= #[trigger] probes(
        store,
        latest,
    )[i] <= latest by {
        if i < coarse.len() {
            assert(probes(store, latest)[i] == coarse[i]);
        } else {
            assert(probes(store, latest)[i] == search[i - coarse.len()]);
        }
    }
}

/// Two stores that resolve the same headers leave the same upper bound and
/// are probed at the same candidates.
pub proof fn lemma_coarse_same(
    first: spec_fn(Request) -> Reply,
    second: spec_fn(Request) -> Reply,
    latest: u64,
    index: int,
)
    requires
        forall|n: u64| #[trigger] resolves(first, n) == resolves(second, n),
    ensures
        coarse_bound(first, latest, index) == coarse_bound(second, latest, index),
        coarse_probes(first, latest, index) == coarse_probes(second, latest, index),
    decreases 4 - index,
{
    if 0 <= index < 4 && candidates()[index] <= latest {
        assert(resolves(first, candidates()[index]) == resolves(second, candidates()[index]));
        if resolves(first, candidates()[index]) {
            lemma_coarse_same(first, second, latest, index + 1);
        }
    }
}

/// Two stores that resolve the same headers are searched alike.
pub proof fn lemma_search_same(
    first: spec_fn(Request) -> Reply,
    second: spec_fn(Request) -> Reply,
    low: int,
    high: int,
)
    requires
        forall|n: u64| #[trigger] resolves(first, n) == resolves(second, n),
    ensures
        bisect(first, low, high) == bisect(second, low, high),
        search_probes(first, low, high) == search_probes(second, low, high),
    decreases high - low,
{
    if low < high {
        let mid = low + (high - low) / 2;
        assert(resolves(first, mid as u64) == resolves(second, mid as u64));
        if resolves(first, mid as u64) {
            lemma_search_same(first, second, low, mid);
        } else {
            lemma_search_same(first, second, mid + 1, high);
        }
    }
}

/// A header read that fails counts as a header that is not there. Detection
/// looks at a header reply only for whether it is a header: two stores that
/// name the same best block and resolve the same headers, where the one may
/// fail and the other find nothing, are found to have the same range by the
/// same reads.
pub proof fn law_failed_header_reads_count_as_missing(
    first: spec_fn(Request) -> Reply,
    second: spec_fn(Request) -> Reply,
)
    requires
        first(Request::BestBlockNumber) == second(Request::BestBlockNumber),
        forall|n: u64| #[trigger] resolves(first, n) == resolves(second, n),
    ensures
        detect(first) == detect(second),
        forall|latest: u64| #[trigger] probes(first, latest) == probes(second, latest),
{
    assert forall|latest: u64| #[trigger] probes(first, latest) == probes(second, latest)
        && earliest_of(first, latest) == earliest_of(second, latest) by {
        lemma_coarse_same(first, second, latest, 0);
        let upper = coarse_bound(first, latest, 0);
        lemma_search_same(first, second, 1, upper as int);
    }
    match first(Request::BestBlockNumber) {
        Reply::BlockNumber(latest) => {
            assert(probes(first, latest) == probes(second, latest));
        },
        _ => {},
    }
}

} // verus!
