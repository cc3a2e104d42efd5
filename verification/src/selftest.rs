//! The self-test of an opened store: the latest header, the survey of the
//! latest state and the receipts of a few sample blocks, one after the other.

use vstd::prelude::*;

use crate::databases::{
    header_data_answer, BlockData, BlockDataQuery, BlockDataStep, BscDatabase,
};
use crate::error::AppError;
use crate::model::ReceiptSummary;
use crate::primitives::Address;
use crate::range::{
    detect, law_detection_ends_within_69_reads, BlockRange, DetectStep, RangeDetector,
};
use crate::state::{
    is_system_targets, law_state_survey_ends_with_its_answer, state_answer, survey_reads,
    survey_view, system_targets, StateReport, StateReportModel, StateTest, StateTestModel,
    StateTestModelStep, StateTestStep,
};
use crate::store::{
    asked, drive, lemma_asked_within_fuel, lemma_drive_more_fuel, lemma_drive_through, Reply,
    Request, Step,
};

verus! {

/// A tally, held at `u64::MAX` where it would pass it.
pub open spec fn cap(total: int) -> u64 {
    if total > u64::MAX {
        u64::MAX
    } else if total < 0 {
        0
    } else {
        total as u64
    }
}

/// The sum of the cumulative gas of `receipts`.
pub open spec fn gas_sum(receipts: Seq<ReceiptSummary>) -> int
    decreases receipts.len(),
{
    if receipts.len() == 0 {
        0
    } else {
        gas_sum(receipts.drop_last()) + receipts.last().cumulative_gas_used
    }
}

/// How many of `receipts` report success.
pub open spec fn success_count(receipts: Seq<ReceiptSummary>) -> int
    decreases receipts.len(),
{
    if receipts.len() == 0 {
        0
    } else {
        success_count(receipts.drop_last()) + if receipts.last().success {
            1int
        } else {
            0int
        }
    }
}

/// What the receipts of the sample blocks add up to. Each tally stops at
/// `u64::MAX`.
#[derive(Clone, Copy, Debug, PartialEq, Eq, Structural)]
pub struct ReceiptTotals {
    /// The sum of the cumulative gas of all receipts.
    pub total_gas_used: u64,
    /// The receipts that report success.
    pub successful_txs: u64,
    /// The receipts that report failure.
    pub failed_txs: u64,
}

impl ReceiptTotals {
    /// The totals with `receipts` counted in.
    pub open spec fn plus(self, receipts: Seq<ReceiptSummary>) -> ReceiptTotals {
        ReceiptTotals {
            total_gas_used: cap(self.total_gas_used + gas_sum(receipts)),
            successful_txs: cap(self.successful_txs + success_count(receipts)),
            failed_txs: cap(self.failed_txs + receipts.len() - success_count(receipts)),
        }
    }

    /// Counts `receipts` into the totals.
    pub fn add(self, receipts: &Vec<ReceiptSummary>) -> (totals: ReceiptTotals)
        ensures
            totals == self.plus(receipts@),
    {
        let mut total_gas_used: u64 = self.total_gas_used;
        let mut successful_txs: u64 = self.successful_txs;
        let mut failed_txs: u64 = self.failed_txs;
        let mut i: usize = 0;
        assert(receipts@.take(0) =~= Seq::empty());
        while i < receipts.len()
            invariant
                i <= receipts@.len(),
                0 <= success_count(receipts@.take(i as int)) <= i,
                0 <= gas_sum(receipts@.take(i as int)),
                total_gas_used == cap(self.total_gas_used + gas_sum(receipts@.take(i as int))),
                successful_txs == cap(
                    self.successful_txs + success_count(receipts@.take(i as int)),
                ),
                failed_txs == cap(
                    self.failed_txs + i - success_count(receipts@.take(i as int)),
                ),
            decreases receipts@.len() - i,
        {
            let receipt = &receipts[i];
            assert(receipts@.take(i + 1).drop_last() =~= receipts@.take(i as int));
            assert(receipts@.take(i + 1).last() == receipts@[i as int]);
            total_gas_used = total_gas_used.saturating_add(receipt.cumulative_gas_used);
            if receipt.success {
                successful_txs = successful_txs.saturating_add(1);
            } else {
                failed_txs = failed_txs.saturating_add(1);
            }
            i += 1;
        }
        assert(receipts@.take(i as int) =~= receipts@);
        ReceiptTotals { total_gas_used, successful_txs, failed_txs }
    }
}

/// What the receipt survey found: the totals over the sample blocks whose
/// receipts the store returned, and the failures of the reads that failed,
/// in the order of the blocks.
#[derive(Clone, Debug, PartialEq, Eq)]
pub struct ReceiptReport {
    pub totals: ReceiptTotals,
    pub unreadable: Vec<AppError>,
}

/// A [`ReceiptReport`] with its list as a sequence.
pub struct ReceiptReportModel {
    pub totals: ReceiptTotals,
    pub unreadable: Seq<AppError>,
}

impl View for ReceiptReport {
    type V = ReceiptReportModel;

    open spec fn view(&self) -> ReceiptReportModel {
        ReceiptReportModel { totals: self.totals, unreadable: self.unreadable@ }
    }
}

/// The receipt survey between two reads: the sample blocks, which of them
/// is being read, and what was found so far.
#[derive(Clone, Debug, PartialEq, Eq)]
pub struct ReceiptSurvey {
    pub blocks: Vec<u64>,
    pub index: usize,
    pub totals: ReceiptTotals,
    pub unreadable: Vec<AppError>,
}

/// A [`ReceiptSurvey`] with its lists as sequences.
pub struct ReceiptSurveyModel {
    pub blocks: Seq<u64>,
    pub index: usize,
    pub totals: ReceiptTotals,
    pub unreadable: Seq<AppError>,
}

/// One move of the receipt survey.
pub type ReceiptSurveyStep = Step<ReceiptSurvey, ReceiptReport>;

/// One move of the receipt survey, over sequences.
pub type ReceiptSurveyModelStep = Step<ReceiptSurveyModel, ReceiptReportModel>;

impl View for ReceiptSurvey {
    type V = ReceiptSurveyModel;

    open spec fn view(&self) -> ReceiptSurveyModel {
        ReceiptSurveyModel {
            blocks: self.blocks@,
            index: self.index,
            totals: self.totals,
            unreadable: self.unreadable@,
        }
    }
}

/// A move of the receipt survey with its lists as sequences.
pub open spec fn receipts_view(step: ReceiptSurveyStep) -> ReceiptSurveyModelStep {
    match step {
        Step::Ask(request, state) => Step::Ask(request, state@),
        Step::Done(report) => Step::Done(report@),
    }
}

/// The totals before anything is counted.
pub open spec fn no_totals() -> ReceiptTotals {
    ReceiptTotals { total_gas_used: 0, successful_txs: 0, failed_txs: 0 }
}

impl ReceiptSurveyModel {
    /// The survey when the block at `index` is next.
    pub open spec fn at(
        blocks: Seq<u64>,
        index: int,
        totals: ReceiptTotals,
        unreadable: Seq<AppError>,
    ) -> ReceiptSurveyModelStep {
        if 0 <= index < blocks.len() && index <= usize::MAX {
            Step::Ask(
                Request::Receipts(blocks[index]),
                ReceiptSurveyModel { blocks, index: index as usize, totals, unreadable },
            )
        } else {
            Step::Done(ReceiptReportModel { totals, unreadable })
        }
    }

    /// The first move of the survey of `blocks`.
    pub open spec fn begin(blocks: Seq<u64>) -> ReceiptSurveyModelStep {
        Self::at(blocks, 0, no_totals(), Seq::empty())
    }

    /// The move that follows `reply`: receipts are counted in, a block
    /// without receipts is passed over, and a read that fails is kept in the
    /// report with its failure; the survey goes on in each case.
    pub open spec fn fed(self, reply: Reply) -> ReceiptSurveyModelStep {
        if self.index >= self.blocks.len() {
            Step::Done(ReceiptReportModel { totals: self.totals, unreadable: self.unreadable })
        } else {
            match reply {
                Reply::Receipts(list) => Self::at(
                    self.blocks,
                    self.index + 1,
                    self.totals.plus(list@),
                    self.unreadable,
                ),
                Reply::NotFound => Self::at(
                    self.blocks,
                    self.index + 1,
                    self.totals,
                    self.unreadable,
                ),
                _ => Self::at(
                    self.blocks,
                    self.index + 1,
                    self.totals,
                    self.unreadable.push(
                        reply.failure(Request::Receipts(self.blocks[self.index as int])),
                    ),
                ),
            }
        }
    }

    /// `fed` as a function value, for [`drive`].
    pub open spec fn resume() -> spec_fn(ReceiptSurveyModel, Reply) -> ReceiptSurveyModelStep {
        |state: ReceiptSurveyModel, reply: Reply| state.fed(reply)
    }
}

impl ReceiptSurvey {
    fn next_block(
        blocks: Vec<u64>,
        index: usize,
        totals: ReceiptTotals,
        unreadable: Vec<AppError>,
    ) -> (step: ReceiptSurveyStep)
        ensures
            receipts_view(step) == ReceiptSurveyModel::at(
                blocks@,
                index as int,
                totals,
                unreadable@,
            ),
    {
        if index < blocks.len() {
            let block = blocks[index];
            Step::Ask(Request::Receipts(block), ReceiptSurvey { blocks, index, totals, unreadable })
        } else {
            Step::Done(ReceiptReport { totals, unreadable })
        }
    }

    /// Begins the survey of the receipts of `blocks`, in their order.
    pub fn begin(blocks: Vec<u64>) -> (step: ReceiptSurveyStep)
        ensures
            receipts_view(step) == ReceiptSurveyModel::begin(blocks@),
    {
        Self::next_block(
            blocks,
            0,
            ReceiptTotals { total_gas_used: 0, successful_txs: 0, failed_txs: 0 },
            Vec::new(),
        )
    }

    /// Takes the reply to the read that was asked for and says what comes
    /// next.
    pub fn feed(self, reply: Reply) -> (step: ReceiptSurveyStep)
        ensures
            receipts_view(step) == self@.fed(reply),
    {
        if self.index >= self.blocks.len() {
            return Step::Done(ReceiptReport { totals: self.totals, unreadable: self.unreadable });
        }
        let block = self.blocks[self.index];
        let mut unreadable = self.unreadable;
        let totals = match reply {
            Reply::Receipts(list) => self.totals.add(&list),
            Reply::NotFound => self.totals,
            other => {
                unreadable.push(other.into_failure(Request::Receipts(block)));
                self.totals
            },
        };
        Self::next_block(self.blocks, self.index + 1, totals, unreadable)
    }
}

impl BscDatabase {
    /// Adds up the receipts of three sample blocks of the range. Begins the
    /// survey; [`ReceiptSurvey::feed`] goes on.
    pub fn test_receipts(&self) -> (step: ReceiptSurveyStep)
        requires
            self.wf(),
        ensures
            receipts_view(step) == ReceiptSurveyModel::begin(self.samples(3)),
            step matches Step::Ask(request, state) && request == Request::Receipts(
                state.blocks@[0],
            ) && state.blocks@.len() >= 1 && state.blocks@.last() == self.latest_block,
    {
        ReceiptSurvey::begin(self.get_safe_test_blocks(3))
    }
}

/// What the receipt survey returns for a store, over the first `upto` of
/// `blocks`: for each block in turn, its receipts counted in where the store
/// returns them, nothing where it has none, and the failure kept where the
/// read fails.
pub open spec fn survey_answer(
    blocks: Seq<u64>,
    upto: int,
    store: spec_fn(Request) -> Reply,
) -> ReceiptReportModel
    decreases upto,
{
    if upto <= 0 {
        ReceiptReportModel { totals: no_totals(), unreadable: Seq::empty() }
    } else {
        let before = survey_answer(blocks, upto - 1, store);
        match store(Request::Receipts(blocks[upto - 1])) {
            Reply::Receipts(list) => ReceiptReportModel {
                totals: before.totals.plus(list@),
                ..before
            },
            Reply::NotFound => before,
            other => ReceiptReportModel {
                unreadable: before.unreadable.push(
                    other.failure(Request::Receipts(blocks[upto - 1])),
                ),
                ..before
            },
        }
    }
}

/// All the receipts that the store returns for the first `upto` of
/// `blocks`, in the order of the blocks.
pub open spec fn answered_receipts(
    blocks: Seq<u64>,
    upto: int,
    store: spec_fn(Request) -> Reply,
) -> Seq<ReceiptSummary>
    decreases upto,
{
    if upto <= 0 {
        Seq::empty()
    } else {
        answered_receipts(blocks, upto - 1, store) + match store(
            Request::Receipts(blocks[upto - 1]),
        ) {
            Reply::Receipts(list) => list@,
            _ => Seq::empty(),
        }
    }
}

/// The sums over two lists, one after the other, are the sums over both.
pub proof fn lemma_sums_of_both(first: Seq<ReceiptSummary>, second: Seq<ReceiptSummary>)
    ensures
        gas_sum(first + second) == gas_sum(first) + gas_sum(second),
        success_count(first + second) == success_count(first) + success_count(second),
        0 <= gas_sum(second),
        0 <= success_count(second) <= second.len(),
    decreases second.len(),
{
    if second.len() == 0 {
        assert(first + second =~= first);
    } else {
        assert((first + second).drop_last() =~= first + second.drop_last());
        lemma_sums_of_both(first, second.drop_last());
    }
}

/// Counting in two lists, one after the other, is counting in both.
pub proof fn lemma_plus_twice(
    totals: ReceiptTotals,
    first: Seq<ReceiptSummary>,
    second: Seq<ReceiptSummary>,
)
    ensures
        totals.plus(first).plus(second) == totals.plus(first + second),
{
    lemma_sums_of_both(first, second);
    lemma_sums_of_both(Seq::empty(), first);
}

/// The totals of the survey are the sums over all the receipts that the
/// store returns for the blocks, each held at `u64::MAX`.
pub proof fn lemma_survey_totals(blocks: Seq<u64>, upto: int, store: spec_fn(Request) -> Reply)
    ensures
        survey_answer(blocks, upto, store).totals == no_totals().plus(
            answered_receipts(blocks, upto, store),
        ),
    decreases upto,
{
    if upto > 0 {
        lemma_survey_totals(blocks, upto - 1, store);
        let so_far = answered_receipts(blocks, upto - 1, store);
        match store(Request::Receipts(blocks[upto - 1])) {
            Reply::Receipts(list) => {
                lemma_plus_twice(no_totals(), so_far, list@);
            },
            _ => {
                assert(so_far + Seq::<ReceiptSummary>::empty() =~= so_far);
            },
        }
    } else {
        assert(gas_sum(Seq::<ReceiptSummary>::empty()) == 0);
        assert(success_count(Seq::<ReceiptSummary>::empty()) == 0);
    }
}

/// A survey that stands at the block at `index` with the answer for the
/// blocks before it ends with the answer for all blocks.
pub proof fn lemma_survey_runs(
    blocks: Seq<u64>,
    index: int,
    store: spec_fn(Request) -> Reply,
    fuel: nat,
)
    requires
        0 <= index <= blocks.len() <= usize::MAX,
        fuel >= blocks.len() - index,
    ensures
        drive(
            ReceiptSurveyModel::at(
                blocks,
                index,
                survey_answer(blocks, index, store).totals,
                survey_answer(blocks, index, store).unreadable,
            ),
            ReceiptSurveyModel::resume(),
            store,
            fuel,
        ) == Some(survey_answer(blocks, blocks.len() as int, store)),
    decreases blocks.len() - index,
{
    let before = survey_answer(blocks, index, store);
    if index < blocks.len() {
        let waiting = ReceiptSurveyModel {
            blocks,
            index: index as usize,
            totals: before.totals,
            unreadable: before.unreadable,
        };
        let reply = store(Request::Receipts(blocks[index]));
        let after = survey_answer(blocks, index + 1, store);
        assert(drive(
            ReceiptSurveyModel::at(blocks, index, before.totals, before.unreadable),
            ReceiptSurveyModel::resume(),
            store,
            fuel,
        ) == drive(waiting.fed(reply), ReceiptSurveyModel::resume(), store, (fuel - 1) as nat));
        assert(waiting.fed(reply) == ReceiptSurveyModel::at(
            blocks,
            index + 1,
            after.totals,
            after.unreadable,
        ));
        lemma_survey_runs(blocks, index + 1, store, (fuel - 1) as nat);
    }
}

/// The receipt survey, with its reads answered by a store, ends within a
/// read for each block with its answer for that store, and its totals are
/// the sums over all the receipts that the store returns.
pub proof fn law_receipt_survey_ends_with_its_answer(
    blocks: Seq<u64>,
    store: spec_fn(Request) -> Reply,
    fuel: nat,
)
    requires
        blocks.len() <= usize::MAX,
        fuel >= blocks.len(),
    ensures
        drive(ReceiptSurveyModel::begin(blocks), ReceiptSurveyModel::resume(), store, fuel)
            == Some(survey_answer(blocks, blocks.len() as int, store)),
        survey_answer(blocks, blocks.len() as int, store).totals == no_totals().plus(
            answered_receipts(blocks, blocks.len() as int, store),
        ),
{
    lemma_survey_runs(blocks, 0, store, fuel);
    lemma_survey_totals(blocks, blocks.len() as int, store);
}

/// What the self-test found.
#[derive(Clone, Debug, PartialEq, Eq)]
pub struct TestReport {
    /// The latest block, where its header is there.
    pub latest: Option<BlockData>,
    pub state: StateReport,
    pub receipts: ReceiptReport,
}

/// A [`TestReport`] with its lists as sequences.
pub struct TestReportModel {
    pub latest: Option<BlockData>,
    pub state: StateReportModel,
    pub receipts: ReceiptReportModel,
}

impl View for TestReport {
    type V = TestReportModel;

    open spec fn view(&self) -> TestReportModel {
        TestReportModel { latest: self.latest, state: self.state@, receipts: self.receipts@ }
    }
}

/// The self-test between two reads: the part that is under way, what the
/// parts before it found, and what the parts after it will look at.
#[derive(Clone, Debug, PartialEq, Eq)]
pub enum TestRun {
    Header {
        query: BlockDataQuery,
        targets: Vec<Address>,
        storage_target: Address,
        blocks: Vec<u64>,
    },
    State { latest: Option<BlockData>, survey: StateTest, blocks: Vec<u64> },
    Receipts { latest: Option<BlockData>, state: StateReport, survey: ReceiptSurvey },
}

/// A [`TestRun`] with its lists as sequences.
pub enum TestRunModel {
    Header {
        query: BlockDataQuery,
        targets: Seq<Address>,
        storage_target: Address,
        blocks: Seq<u64>,
    },
    State { latest: Option<BlockData>, survey: StateTestModel, blocks: Seq<u64> },
    Receipts { latest: Option<BlockData>, state: StateReportModel, survey: ReceiptSurveyModel },
}

/// One move of the self-test.
pub type TestRunStep = Step<TestRun, Result<TestReport, AppError>>;

/// One move of the self-test, over sequences.
pub type TestRunModelStep = Step<TestRunModel, Result<TestReportModel, AppError>>;

impl View for TestRun {
    type V = TestRunModel;

    open spec fn view(&self) -> TestRunModel {
        match *self {
            TestRun::Header { query, targets, storage_target, blocks } => TestRunModel::Header {
                query,
                targets: targets@,
                storage_target,
                blocks: blocks@,
            },
            TestRun::State { latest, survey, blocks } => TestRunModel::State {
                latest,
                survey: survey@,
                blocks: blocks@,
            },
            TestRun::Receipts { latest, state, survey } => TestRunModel::Receipts {
                latest,
                state: state@,
                survey: survey@,
            },
        }
    }
}

/// A move of the self-test with its lists as sequences.
pub open spec fn run_view(step: TestRunStep) -> TestRunModelStep {
    match step {
        Step::Ask(request, state) => Step::Ask(request, state@),
        Step::Done(Ok(report)) => Step::Done(Ok(report@)),
        Step::Done(Err(error)) => Step::Done(Err(error)),
    }
}

impl TestRunModel {
    /// The self-test while the latest header is queried. A failure ends it;
    /// the block, once found or found missing, hands over to the survey of
    /// `targets` and of the first three slots of `storage_target`.
    pub open spec fn in_header(
        targets: Seq<Address>,
        storage_target: Address,
        blocks: Seq<u64>,
        step: BlockDataStep,
    ) -> TestRunModelStep {
        match step {
            Step::Ask(request, query) => Step::Ask(
                request,
                TestRunModel::Header { query, targets, storage_target, blocks },
            ),
            Step::Done(Err(error)) => Step::Done(Err(error)),
            Step::Done(Ok(latest)) => Self::in_state(
                latest,
                blocks,
                StateTestModel::begin(targets, storage_target, 3),
            ),
        }
    }

    /// The self-test while the state is surveyed. A failure ends it; the
    /// report hands over to the survey of the receipts of `blocks`.
    pub open spec fn in_state(
        latest: Option<BlockData>,
        blocks: Seq<u64>,
        step: StateTestModelStep,
    ) -> TestRunModelStep {
        match step {
            Step::Ask(request, survey) => Step::Ask(
                request,
                TestRunModel::State { latest, survey, blocks },
            ),
            Step::Done(Err(error)) => Step::Done(Err(error)),
            Step::Done(Ok(state)) => Self::in_receipts(
                latest,
                state,
                ReceiptSurveyModel::begin(blocks),
            ),
        }
    }

    /// The self-test while the receipts are surveyed, and its end.
    pub open spec fn in_receipts(
        latest: Option<BlockData>,
        state: StateReportModel,
        step: ReceiptSurveyModelStep,
    ) -> TestRunModelStep {
        match step {
            Step::Ask(request, survey) => Step::Ask(
                request,
                TestRunModel::Receipts { latest, state, survey },
            ),
            Step::Done(receipts) => Step::Done(Ok(TestReportModel { latest, state, receipts })),
        }
    }

    /// The first move of the self-test of a store whose latest block is
    /// `latest_block`: the header of that block is asked for.
    pub open spec fn begin(
        latest_block: u64,
        targets: Seq<Address>,
        storage_target: Address,
        blocks: Seq<u64>,
    ) -> TestRunModelStep {
        Self::in_header(
            targets,
            storage_target,
            blocks,
            Step::Ask(
                Request::Header(latest_block),
                BlockDataQuery::Header { block_number: latest_block },
            ),
        )
    }

    /// The move that follows `reply`. The three parts run in order: the
    /// header of the latest block, the survey of the state, the receipts of
    /// the sample blocks. Each part moves as it does alone.
    pub open spec fn fed(self, reply: Reply) -> TestRunModelStep {
        match self {
            TestRunModel::Header { query, targets, storage_target, blocks } => Self::in_header(
                targets,
                storage_target,
                blocks,
                query.fed(reply),
            ),
            TestRunModel::State { latest, survey, blocks } => Self::in_state(
                latest,
                blocks,
                survey.fed(reply),
            ),
            TestRunModel::Receipts { latest, state, survey } => Self::in_receipts(
                latest,
                state,
                survey.fed(reply),
            ),
        }
    }

    /// `fed` as a function value, for [`drive`].
    pub open spec fn resume() -> spec_fn(TestRunModel, Reply) -> TestRunModelStep {
        |state: TestRunModel, reply: Reply| state.fed(reply)
    }
}

impl TestRun {
    fn after_header(
        targets: Vec<Address>,
        storage_target: Address,
        blocks: Vec<u64>,
        step: BlockDataStep,
    ) -> (next: TestRunStep)
        ensures
            run_view(next) == TestRunModel::in_header(targets@, storage_target, blocks@, step),
    {
        match step {
            Step::Ask(request, query) => Step::Ask(
                request,
                TestRun::Header { query, targets, storage_target, blocks },
            ),
            Step::Done(Err(error)) => Step::Done(Err(error)),
            Step::Done(Ok(latest)) => Self::after_state(
                latest,
                blocks,
                StateTest::begin(targets, storage_target, 3),
            ),
        }
    }

    fn after_state(latest: Option<BlockData>, blocks: Vec<u64>, step: StateTestStep) -> (next:
        TestRunStep)
        ensures
            run_view(next) == TestRunModel::in_state(latest, blocks@, survey_view(step)),
    {
        match step {
            Step::Ask(request, survey) => Step::Ask(
                request,
                TestRun::State { latest, survey, blocks },
            ),
            Step::Done(Err(error)) => Step::Done(Err(error)),
            Step::Done(Ok(state)) => Self::after_receipts(
                latest,
                state,
                ReceiptSurvey::begin(blocks),
            ),
        }
    }

    fn after_receipts(
        latest: Option<BlockData>,
        state: StateReport,
        step: ReceiptSurveyStep,
    ) -> (next: TestRunStep)
        ensures
            run_view(next) == TestRunModel::in_receipts(latest, state@, receipts_view(step)),
    {
        match step {
            Step::Ask(request, survey) => Step::Ask(
                request,
                TestRun::Receipts { latest, state, survey },
            ),
            Step::Done(receipts) => Step::Done(Ok(TestReport { latest, state, receipts })),
        }
    }

    /// Begins the self-test of a store whose latest block is `latest_block`:
    /// the state survey will look at `targets` and at the first three slots
    /// of `storage_target`, the receipt survey at `blocks`.
    pub fn begin(
        latest_block: u64,
        targets: Vec<Address>,
        storage_target: Address,
        blocks: Vec<u64>,
    ) -> (step: TestRunStep)
        ensures
            run_view(step) == TestRunModel::begin(latest_block, targets@, storage_target, blocks@),
    {
        Self::after_header(
            targets,
            storage_target,
            blocks,
            Step::Ask(
                Request::Header(latest_block),
                BlockDataQuery::Header { block_number: latest_block },
            ),
        )
    }

    /// Takes the reply to the read that was asked for and says what comes
    /// next.
    pub fn feed(self, reply: Reply) -> (step: TestRunStep)
        ensures
            run_view(step) == self@.fed(reply),
    {
        match self {
            TestRun::Header { query, targets, storage_target, blocks } => Self::after_header(
                targets,
                storage_target,
                blocks,
                query.feed(reply),
            ),
            TestRun::State { latest, survey, blocks } => Self::after_state(
                latest,
                blocks,
                survey.feed(reply),
            ),
            TestRun::Receipts { latest, state, survey } => Self::after_receipts(
                latest,
                state,
                survey.feed(reply),
            ),
        }
    }
}

/// Whether `step` is the first move of the self-test of `db`: the header of
/// its latest block is asked for, the state survey will look at the three
/// system contracts and at the slots of the second of them, the receipt
/// survey at the three sample blocks of the range.
pub open spec fn is_self_test_start(step: TestRunModelStep, db: BscDatabase) -> bool {
    step matches Step::Ask(_, TestRunModel::Header { targets, storage_target, .. })
        && is_system_targets(targets) && storage_target == targets[1] && step
        == TestRunModel::begin(db.latest_block, targets, storage_target, db.samples(3))
}

impl BscDatabase {
    /// The self-test of the store: begins with the header of the latest
    /// block; [`TestRun::feed`] goes on.
    pub fn run_all_tests(&self) -> (step: TestRunStep)
        requires
            self.wf(),
        ensures
            is_self_test_start(run_view(step), *self),
    {
        let targets = system_targets();
        let storage_target = targets[1];
        TestRun::begin(self.latest_block, targets, storage_target, self.get_safe_test_blocks(3))
    }
}

/// What the self-test returns for a store: what the store holds of the
/// latest block, the answer of the state survey and the answer of the
/// receipt survey; or the failure of the first read that the self-test
/// cannot do without: the header of the latest block, its body indices, the
/// state snapshot.
pub open spec fn self_test_answer(
    latest_block: u64,
    targets: Seq<Address>,
    storage_target: Address,
    blocks: Seq<u64>,
    store: spec_fn(Request) -> Reply,
) -> Result<TestReportModel, AppError> {
    match header_data_answer(latest_block, store) {
        Err(error) => Err(error),
        Ok(latest) => match state_answer(targets, storage_target, 3, store) {
            Err(error) => Err(error),
            Ok(state) => Ok(
                TestReportModel {
                    latest,
                    state,
                    receipts: survey_answer(blocks, blocks.len() as int, store),
                },
            ),
        },
    }
}

/// How many reads the self-test makes at most.
pub open spec fn self_test_reads(targets: Seq<Address>, blocks: Seq<u64>) -> nat {
    2 + survey_reads(targets, 3) + blocks.len()
}

/// The self-test, with its reads answered by a store, ends with its answer
/// for that store.
pub proof fn law_self_test_ends_with_its_answer(
    latest_block: u64,
    targets: Seq<Address>,
    storage_target: Address,
    blocks: Seq<u64>,
    store: spec_fn(Request) -> Reply,
    fuel: nat,
)
    requires
        targets.len() <= usize::MAX,
        blocks.len() <= usize::MAX,
        fuel >= self_test_reads(targets, blocks),
    ensures
        drive(
            TestRunModel::begin(latest_block, targets, storage_target, blocks),
            TestRunModel::resume(),
            store,
            fuel,
        ) == Some(self_test_answer(latest_block, targets, storage_target, blocks, store)),
{
    let outer = TestRunModel::resume();
    // The receipts of the sample blocks.
    let receipts = ReceiptSurveyModel::begin(blocks);
    law_receipt_survey_ends_with_its_answer(blocks, store, blocks.len());
    lemma_asked_within_fuel(receipts, ReceiptSurveyModel::resume(), store, blocks.len());
    let receipt_reads = asked(receipts, ReceiptSurveyModel::resume(), store, blocks.len()).len();
    // The survey of the state.
    let survey = StateTestModel::begin(targets, storage_target, 3);
    let survey_fuel = survey_reads(targets, 3);
    law_state_survey_ends_with_its_answer(targets, storage_target, 3, store, survey_fuel);
    lemma_asked_within_fuel(survey, StateTestModel::resume(), store, survey_fuel);
    let survey_count = asked(survey, StateTestModel::resume(), store, survey_fuel).len();
    // The header of the latest block.
    let header: BlockDataStep = Step::Ask(
        Request::Header(latest_block),
        BlockDataQuery::Header { block_number: latest_block },
    );
    assert(drive(header, BlockDataQuery::resume(), store, 2) == Some(
        header_data_answer(latest_block, store),
    )) by {
        reveal_with_fuel(drive, 3);
    }
    lemma_asked_within_fuel(header, BlockDataQuery::resume(), store, 2);
    let header_reads = asked(header, BlockDataQuery::resume(), store, 2).len();
    let in_header = |step: BlockDataStep|
        TestRunModel::in_header(targets, storage_target, blocks, step);
    lemma_drive_through(
        header,
        BlockDataQuery::resume(),
        in_header,
        outer,
        store,
        2,
        survey_count + receipt_reads,
    );
    let reads = header_reads + survey_count + receipt_reads;
    match header_data_answer(latest_block, store) {
        Err(_) => {},
        Ok(latest) => {
            let in_state = |step: StateTestModelStep| TestRunModel::in_state(latest, blocks, step);
            lemma_drive_through(
                survey,
                StateTestModel::resume(),
                in_state,
                outer,
                store,
                survey_fuel,
                receipt_reads,
            );
            match state_answer(targets, storage_target, 3, store) {
                Err(_) => {},
                Ok(state) => {
                    let in_receipts = |step: ReceiptSurveyModelStep|
                        TestRunModel::in_receipts(latest, state, step);
                    lemma_drive_through(
                        receipts,
                        ReceiptSurveyModel::resume(),
                        in_receipts,
                        outer,
                        store,
                        blocks.len(),
                        0,
                    );
                },
            }
        },
    }
    assert(drive(
        TestRunModel::begin(latest_block, targets, storage_target, blocks),
        outer,
        store,
        reads,
    ) == Some(self_test_answer(latest_block, targets, storage_target, blocks, store)));
    lemma_drive_more_fuel(
        TestRunModel::begin(latest_block, targets, storage_target, blocks),
        outer,
        store,
        reads,
        fuel,
    );
}

/// The whole test run of a store between two reads: the detection of its
/// range, then the self-test over that range.
#[derive(Clone, Debug, PartialEq, Eq)]
pub enum DatabaseTest {
    Detect { detector: RangeDetector, targets: Vec<Address>, storage_target: Address },
    Run(TestRun),
}

/// A [`DatabaseTest`] with its lists as sequences.
pub enum DatabaseTestModel {
    Detect { detector: RangeDetector, targets: Seq<Address>, storage_target: Address },
    Run(TestRunModel),
}

/// One move of the whole test run.
pub type DatabaseTestStep = Step<DatabaseTest, Result<TestReport, AppError>>;

/// One move of the whole test run, over sequences.
pub type DatabaseTestModelStep = Step<DatabaseTestModel, Result<TestReportModel, AppError>>;

impl View for DatabaseTest {
    type V = DatabaseTestModel;

    open spec fn view(&self) -> DatabaseTestModel {
        match *self {
            DatabaseTest::Detect {
                detector,
                targets,
                storage_target,
            } => DatabaseTestModel::Detect { detector, targets: targets@, storage_target },
            DatabaseTest::Run(run) => DatabaseTestModel::Run(run@),
        }
    }
}

/// A move of the whole test run with its lists as sequences.
pub open spec fn database_view(step: DatabaseTestStep) -> DatabaseTestModelStep {
    match step {
        Step::Ask(request, state) => Step::Ask(request, state@),
        Step::Done(Ok(report)) => Step::Done(Ok(report@)),
        Step::Done(Err(error)) => Step::Done(Err(error)),
    }
}

/// The database of a detected range.
pub open spec fn database_of(range: BlockRange) -> BscDatabase {
    BscDatabase { latest_block: range.latest, earliest_available_block: range.earliest }
}

impl DatabaseTestModel {
    /// The run while the range is detected. A failure ends the run; the
    /// range, once found, opens the self-test at the header of its latest
    /// block, with the three sample blocks of the range.
    pub open spec fn in_detect(
        targets: Seq<Address>,
        storage_target: Address,
        step: DetectStep,
    ) -> DatabaseTestModelStep {
        match step {
            Step::Ask(request, detector) => Step::Ask(
                request,
                DatabaseTestModel::Detect { detector, targets, storage_target },
            ),
            Step::Done(Err(error)) => Step::Done(Err(error)),
            Step::Done(Ok(range)) => Self::in_run(
                TestRunModel::begin(
                    range.latest,
                    targets,
                    storage_target,
                    database_of(range).samples(3),
                ),
            ),
        }
    }

    /// The run while the self-test is under way, and its end.
    pub open spec fn in_run(step: TestRunModelStep) -> DatabaseTestModelStep {
        match step {
            Step::Ask(request, run) => Step::Ask(request, DatabaseTestModel::Run(run)),
            Step::Done(outcome) => Step::Done(outcome),
        }
    }

    /// The first move of the whole test run: detection begins.
    pub open spec fn begin(
        targets: Seq<Address>,
        storage_target: Address,
    ) -> DatabaseTestModelStep {
        Self::in_detect(targets, storage_target, RangeDetector::begin())
    }

    /// The move that follows `reply`: that of detection while the range is
    /// being detected, and from then on that of the self-test.
    pub open spec fn fed(self, reply: Reply) -> DatabaseTestModelStep {
        match self {
            DatabaseTestModel::Detect { detector, targets, storage_target } => Self::in_detect(
                targets,
                storage_target,
                detector.fed(reply),
            ),
            DatabaseTestModel::Run(run) => Self::in_run(run.fed(reply)),
        }
    }

    /// `fed` as a function value, for [`drive`].
    pub open spec fn resume() -> spec_fn(DatabaseTestModel, Reply) -> DatabaseTestModelStep {
        |state: DatabaseTestModel, reply: Reply| state.fed(reply)
    }
}

impl DatabaseTest {
    /// Whether a state may be fed: detection must be within its bounds.
    pub open spec fn wf(self) -> bool {
        match self {
            DatabaseTest::Detect { detector, .. } => detector.wf(),
            DatabaseTest::Run(_) => true,
        }
    }

    /// Whether the state may be fed.
    pub fn is_wf(&self) -> (valid: bool)
        ensures
            valid == self.wf(),
    {
        match self {
            DatabaseTest::Detect { detector, .. } => detector.is_wf(),
            DatabaseTest::Run(_) => true,
        }
    }

    fn after_run(step: TestRunStep) -> (next: DatabaseTestStep)
        ensures
            database_view(next) == DatabaseTestModel::in_run(run_view(step)),
            next matches Step::Ask(_, state) ==> state.wf(),
    {
        match step {
            Step::Ask(request, run) => Step::Ask(request, DatabaseTest::Run(run)),
            Step::Done(outcome) => Step::Done(outcome),
        }
    }

    fn after_detect(targets: Vec<Address>, storage_target: Address, step: DetectStep) -> (next:
        DatabaseTestStep)
        requires
            step matches Step::Ask(_, detector) ==> detector.wf(),
            step matches Step::Done(Ok(range)) ==> range.wf(),
        ensures
            database_view(next) == DatabaseTestModel::in_detect(targets@, storage_target, step),
            next matches Step::Ask(_, state) ==> state.wf(),
    {
        match step {
            Step::Ask(request, detector) => Step::Ask(
                request,
                DatabaseTest::Detect { detector, targets, storage_target },
            ),
            Step::Done(Err(error)) => Step::Done(Err(error)),
            Step::Done(Ok(range)) => {
                let db = BscDatabase::new(range);
                let blocks = db.get_safe_test_blocks(3);
                Self::after_run(TestRun::begin(range.latest, targets, storage_target, blocks))
            },
        }
    }
}

/// Whether `step` is the first move of the whole test run: the best block
/// number is asked for, and the state survey will look at the three system
/// contracts and at the slots of the second of them.
pub open spec fn is_database_test_start(step: DatabaseTestModelStep) -> bool {
    step matches Step::Ask(_, DatabaseTestModel::Detect { targets, storage_target, .. })
        && is_system_targets(targets) && storage_target == targets[1] && step
        == DatabaseTestModel::begin(targets, storage_target)
}

/// The first move of the whole test run of a store: detection begins, with
/// the read of the best block number.
pub fn begin_database_tests() -> (step: DatabaseTestStep)
    ensures
        is_database_test_start(database_view(step)),
        step matches Step::Ask(_, state) && state.wf(),
{
    let targets = system_targets();
    let storage_target = targets[1];
    DatabaseTest::after_detect(
        targets,
        storage_target,
        RangeDetector::detect_node_characteristics(),
    )
}

/// One move of the whole test run of a store: takes the state the run is in
/// and the reply to the read that was asked for, and says what comes next.
pub fn run_bsc_database_tests(state: DatabaseTest, reply: Reply) -> (step: DatabaseTestStep)
    requires
        state.wf(),
    ensures
        database_view(step) == state@.fed(reply),
        step matches Step::Ask(_, next) ==> next.wf(),
{
    match state {
        DatabaseTest::Detect { detector, targets, storage_target } => DatabaseTest::after_detect(
            targets,
            storage_target,
            detector.feed(reply),
        ),
        DatabaseTest::Run(run) => DatabaseTest::after_run(run.feed(reply)),
    }
}

/// What the whole test run returns for a store: the failure of the best
/// block read, or the answer of the self-test over the range that detection
/// finds.
pub open spec fn database_test_answer(
    targets: Seq<Address>,
    storage_target: Address,
    store: spec_fn(Request) -> Reply,
) -> Result<TestReportModel, AppError> {
    match detect(store) {
        Err(error) => Err(error),
        Ok(range) => self_test_answer(
            range.latest,
            targets,
            storage_target,
            database_of(range).samples(3),
            store,
        ),
    }
}

/// The whole test run, with its reads answered by a store, ends with its
/// answer for that store, within 69 reads for detection and those of the
/// self-test over three sample blocks at most.
pub proof fn law_database_test_ends_with_its_answer(
    targets: Seq<Address>,
    storage_target: Address,
    store: spec_fn(Request) -> Reply,
    fuel: nat,
)
    requires
        targets.len() <= usize::MAX,
        fuel >= 69 + 2 + survey_reads(targets, 3) + 3,
    ensures
        drive(
            DatabaseTestModel::begin(targets, storage_target),
            DatabaseTestModel::resume(),
            store,
            fuel,
        ) == Some(database_test_answer(targets, storage_target, store)),
{
    let outer = DatabaseTestModel::resume();
    let start = DatabaseTestModel::begin(targets, storage_target);
    let detection = RangeDetector::begin();
    law_detection_ends_within_69_reads(store);
    lemma_asked_within_fuel(detection, RangeDetector::resume(), store, 69);
    let detect_reads = asked(detection, RangeDetector::resume(), store, 69).len();
    let in_detect = |step: DetectStep|
        DatabaseTestModel::in_detect(targets, storage_target, step);
    match detect(store) {
        Err(_) => {
            lemma_drive_through(detection, RangeDetector::resume(), in_detect, outer, store, 69, 0);
            lemma_drive_more_fuel(start, outer, store, detect_reads, fuel);
        },
        Ok(range) => {
            let blocks = database_of(range).samples(3);
            let run = TestRunModel::begin(range.latest, targets, storage_target, blocks);
            let run_fuel = self_test_reads(targets, blocks);
            law_self_test_ends_with_its_answer(
                range.latest,
                targets,
                storage_target,
                blocks,
                store,
                run_fuel,
            );
            lemma_asked_within_fuel(run, TestRunModel::resume(), store, run_fuel);
            let run_reads = asked(run, TestRunModel::resume(), store, run_fuel).len();
            let in_run = |step: TestRunModelStep| DatabaseTestModel::in_run(step);
            lemma_drive_through(run, TestRunModel::resume(), in_run, outer, store, run_fuel, 0);
            lemma_drive_through(
                detection,
                RangeDetector::resume(),
                in_detect,
                outer,
                store,
                69,
                run_reads,
            );
            lemma_drive_more_fuel(start, outer, store, detect_reads + run_reads, fuel);
        },
    }
}

} // verus!
