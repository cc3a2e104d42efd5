//! Reads of the latest state: single accounts and storage slots, and the
//! survey of the system contracts.

use vstd::prelude::*;

use crate::databases::BscDatabase;
use crate::error::AppError;
use crate::model::{AccountState, StorageSlot};
use crate::primitives::{decode_hex, hex_digit, hex_payload, Address, U256};
use crate::store::{drive, Outcome, Reply, Request, Step};

verus! {

/// The account query between two reads.
#[derive(Clone, Copy, Debug, PartialEq, Eq)]
pub enum AccountQuery {
    /// A snapshot of the latest state was asked for.
    Snapshot { address: Address },
    /// The account was asked for.
    Read { address: Address },
}

/// One move of the account query.
pub type AccountStep = Step<AccountQuery, Result<Option<AccountState>, AppError>>;

impl AccountQuery {
    /// The first move: every query acquires a snapshot of its own.
    pub open spec fn begin(address: Address) -> AccountStep {
        Step::Ask(Request::LatestState, AccountQuery::Snapshot { address })
    }

    /// The move that follows `reply`.
    pub open spec fn fed(self, reply: Reply) -> AccountStep {
        match self {
            AccountQuery::Snapshot { address } => match reply {
                Reply::State => Step::Ask(Request::Account(address), AccountQuery::Read { address }),
                _ => Step::Done(Err(reply.failure(Request::LatestState))),
            },
            AccountQuery::Read { address } => match reply {
                Reply::Account(account) => Step::Done(Ok(Some(account))),
                Reply::NotFound => Step::Done(Ok(None)),
                _ => Step::Done(Err(reply.failure(Request::Account(address)))),
            },
        }
    }

    /// `fed` as a function value, for [`drive`].
    pub open spec fn resume() -> spec_fn(AccountQuery, Reply) -> AccountStep {
        |state: AccountQuery, reply: Reply| state.fed(reply)
    }

    /// Takes the reply to the read that was asked for and says what comes
    /// next.
    pub fn feed(self, reply: Reply) -> (step: AccountStep)
        ensures
            step == self.fed(reply),
    {
        match self {
            AccountQuery::Snapshot { address } => match reply {
                Reply::State => Step::Ask(Request::Account(address), AccountQuery::Read { address }),
                other => Step::Done(Err(other.into_failure(Request::LatestState))),
            },
            AccountQuery::Read { address } => match reply {
                Reply::Account(account) => Step::Done(Ok(Some(account))),
                Reply::NotFound => Step::Done(Ok(None)),
                other => Step::Done(Err(other.into_failure(Request::Account(address)))),
            },
        }
    }
}

/// The storage query between two reads.
#[derive(Clone, Copy, Debug, PartialEq, Eq)]
pub enum StorageQuery {
    /// A snapshot of the latest state was asked for.
    Snapshot { address: Address, slot: U256 },
    /// The slot was asked for.
    Read { address: Address, slot: U256 },
}

/// One move of the storage query.
pub type StorageStep = Step<StorageQuery, Result<Option<StorageSlot>, AppError>>;

impl StorageQuery {
    /// The first move: every query acquires a snapshot of its own.
    pub open spec fn begin(address: Address, slot: U256) -> StorageStep {
        Step::Ask(Request::LatestState, StorageQuery::Snapshot { address, slot })
    }

    /// The move that follows `reply`. A slot that the store reports as found
    /// is returned with its value, zero or not; one it does not hold is
    /// `None`.
    pub open spec fn fed(self, reply: Reply) -> StorageStep {
        match self {
            StorageQuery::Snapshot { address, slot } => match reply {
                Reply::State => Step::Ask(
                    Request::Storage(address, slot),
                    StorageQuery::Read { address, slot },
                ),
                _ => Step::Done(Err(reply.failure(Request::LatestState))),
            },
            StorageQuery::Read { address, slot } => match reply {
                Reply::Storage(value) => Step::Done(Ok(Some(StorageSlot { key: slot, value }))),
                Reply::NotFound => Step::Done(Ok(None)),
                _ => Step::Done(Err(reply.failure(Request::Storage(address, slot)))),
            },
        }
    }

    /// `fed` as a function value, for [`drive`].
    pub open spec fn resume() -> spec_fn(StorageQuery, Reply) -> StorageStep {
        |state: StorageQuery, reply: Reply| state.fed(reply)
    }

    /// Takes the reply to the read that was asked for and says what comes
    /// next.
    pub fn feed(self, reply: Reply) -> (step: StorageStep)
        ensures
            step == self.fed(reply),
    {
        match self {
            StorageQuery::Snapshot { address, slot } => match reply {
                Reply::State => Step::Ask(
                    Request::Storage(address, slot),
                    StorageQuery::Read { address, slot },
                ),
                other => Step::Done(Err(other.into_failure(Request::LatestState))),
            },
            StorageQuery::Read { address, slot } => match reply {
                Reply::Storage(value) => Step::Done(Ok(Some(StorageSlot { key: slot, value }))),
                Reply::NotFound => Step::Done(Ok(None)),
                other => Step::Done(Err(other.into_failure(Request::Storage(address, slot)))),
            },
        }
    }
}

/// What the account query returns for a store: the account as the latest
/// state holds it, or nothing where it holds none. A snapshot that cannot be
/// acquired and a read that fails are the error.
pub open spec fn account_answer(address: Address, store: spec_fn(Request) -> Reply) -> Result<
    Option<AccountState>,
    AppError,
> {
    match store(Request::LatestState) {
        Reply::State => match store(Request::Account(address)) {
            Reply::Account(account) => Ok(Some(account)),
            Reply::NotFound => Ok(None),
            other => Err(other.failure(Request::Account(address))),
        },
        other => Err(other.failure(Request::LatestState)),
    }
}

/// What the storage query returns for a store: the slot with the value the
/// latest state holds under it, or nothing where it holds none.
pub open spec fn storage_answer(
    address: Address,
    slot: U256,
    store: spec_fn(Request) -> Reply,
) -> Result<Option<StorageSlot>, AppError> {
    match store(Request::LatestState) {
        Reply::State => match store(Request::Storage(address, slot)) {
            Reply::Storage(value) => Ok(Some(StorageSlot { key: slot, value })),
            Reply::NotFound => Ok(None),
            other => Err(other.failure(Request::Storage(address, slot))),
        },
        other => Err(other.failure(Request::LatestState)),
    }
}

/// The two state queries, with their reads answered by a store, end within
/// two reads with their answers for that store.
pub proof fn law_state_queries_end_with_their_answers(
    address: Address,
    slot: U256,
    store: spec_fn(Request) -> Reply,
)
    ensures
        drive(AccountQuery::begin(address), AccountQuery::resume(), store, 2) == Some(
            account_answer(address, store),
        ),
        drive(StorageQuery::begin(address, slot), StorageQuery::resume(), store, 2) == Some(
            storage_answer(address, slot, store),
        ),
{
    reveal_with_fuel(drive, 3);
}

/// What the survey found of the code of one contract.
#[derive(Clone, Debug, PartialEq, Eq)]
pub enum CodeStatus {
    /// The account has code of `code_len` bytes; `account` is what the read
    /// of its balance and nonce came back with.
    Present { code_len: usize, account: Outcome<AccountState> },
    Absent,
    /// The code could not be read.
    Unreadable(AppError),
}

/// One contract of the survey.
#[derive(Clone, Debug, PartialEq, Eq)]
pub struct ContractProbe {
    pub address: Address,
    pub code: CodeStatus,
}

/// What the survey found in one storage slot.
#[derive(Clone, Debug, PartialEq, Eq)]
pub enum SlotStatus {
    /// The slot holds a value that is not zero.
    Value(U256),
    /// The slot holds zero.
    Empty,
    /// The store has nothing under the slot.
    NoData,
    /// The slot could not be read.
    Unreadable(AppError),
}

/// One storage slot of the survey.
#[derive(Clone, Debug, PartialEq, Eq)]
pub struct SlotProbe {
    pub slot: u64,
    pub status: SlotStatus,
}

/// The result of the survey: one entry for each contract and for each slot,
/// in the order in which they were read.
#[derive(Clone, Debug, PartialEq, Eq)]
pub struct StateReport {
    pub contracts: Vec<ContractProbe>,
    pub slots: Vec<SlotProbe>,
}

/// What the survey waits for.
#[derive(Clone, Copy, Debug, PartialEq, Eq)]
pub enum StateStage {
    /// The snapshot of the latest state.
    Snapshot,
    /// The code of contract `index`.
    Code { index: usize },
    /// The account of contract `index`, whose code has `code_len` bytes.
    Account { index: usize, code_len: usize },
    /// The value of slot `slot` of the storage contract.
    Slot { slot: u64 },
}

/// The survey of the latest state between two reads: the contracts and the
/// slots to look at, and what was found so far.
#[derive(Clone, Debug, PartialEq, Eq)]
pub struct StateTest {
    pub targets: Vec<Address>,
    pub storage_target: Address,
    pub slot_count: u64,
    pub stage: StateStage,
    pub contracts: Vec<ContractProbe>,
    pub slots: Vec<SlotProbe>,
}

/// A [`StateReport`] with its lists as sequences.
pub struct StateReportModel {
    pub contracts: Seq<ContractProbe>,
    pub slots: Seq<SlotProbe>,
}

/// A [`StateTest`] with its lists as sequences.
pub struct StateTestModel {
    pub targets: Seq<Address>,
    pub storage_target: Address,
    pub slot_count: u64,
    pub stage: StateStage,
    pub contracts: Seq<ContractProbe>,
    pub slots: Seq<SlotProbe>,
}

/// One move of the survey.
pub type StateTestStep = Step<StateTest, Result<StateReport, AppError>>;

/// One move of the survey, over sequences.
pub type StateTestModelStep = Step<StateTestModel, Result<StateReportModel, AppError>>;

impl View for StateReport {
    type V = StateReportModel;

    open spec fn view(&self) -> StateReportModel {
        StateReportModel { contracts: self.contracts@, slots: self.slots@ }
    }
}

impl View for StateTest {
    type V = StateTestModel;

    open spec fn view(&self) -> StateTestModel {
        StateTestModel {
            targets: self.targets@,
            storage_target: self.storage_target,
            slot_count: self.slot_count,
            stage: self.stage,
            contracts: self.contracts@,
            slots: self.slots@,
        }
    }
}

/// A move of the survey with its lists as sequences.
pub open spec fn survey_view(step: StateTestStep) -> StateTestModelStep {
    match step {
        Step::Ask(request, state) => Step::Ask(request, state@),
        Step::Done(Ok(report)) => Step::Done(Ok(report@)),
        Step::Done(Err(error)) => Step::Done(Err(error)),
    }
}

/// How a storage reply is recorded.
pub open spec fn slot_status(reply: Reply, request: Request) -> SlotStatus {
    match reply {
        Reply::Storage(value) => if value@ == 0 {
            SlotStatus::Empty
        } else {
            SlotStatus::Value(value)
        },
        Reply::NotFound => SlotStatus::NoData,
        _ => SlotStatus::Unreadable(reply.failure(request)),
    }
}

impl StateTestModel {
    /// The survey when contract `index` is next.
    pub open spec fn at_contract(self, index: int) -> StateTestModelStep {
        if 0 <= index < self.targets.len() {
            Step::Ask(
                Request::Code(self.targets[index]),
                StateTestModel { stage: StateStage::Code { index: index as usize }, ..self },
            )
        } else {
            self.at_slot(0)
        }
    }

    /// The survey when slot `slot` is next.
    pub open spec fn at_slot(self, slot: int) -> StateTestModelStep {
        if 0 <= slot < self.slot_count {
            Step::Ask(
                Request::Storage(self.storage_target, U256 { hi: 0, lo: slot as u128 }),
                StateTestModel { stage: StateStage::Slot { slot: slot as u64 }, ..self },
            )
        } else {
            Step::Done(Ok(StateReportModel { contracts: self.contracts, slots: self.slots }))
        }
    }

    /// The survey with one more contract recorded.
    pub open spec fn with_contract(self, index: int, code: CodeStatus) -> StateTestModel {
        StateTestModel {
            contracts: self.contracts.push(ContractProbe { address: self.targets[index], code }),
            ..self
        }
    }

    /// The move that follows `reply`. Only a snapshot that cannot be acquired
    /// ends the survey with a failure; every other read that fails is
    /// recorded in the report, with its failure, and the survey goes on. The
    /// account of a contract is read only where the contract has code.
    pub open spec fn fed(self, reply: Reply) -> StateTestModelStep {
        match self.stage {
            StateStage::Snapshot => match reply {
                Reply::State => self.at_contract(0),
                _ => Step::Done(Err(reply.failure(Request::LatestState))),
            },
            StateStage::Code { index } => if index >= self.targets.len() {
                self.at_slot(0)
            } else {
                match reply {
                    Reply::Code(code_len) => Step::Ask(
                        Request::Account(self.targets[index as int]),
                        StateTestModel { stage: StateStage::Account { index, code_len }, ..self },
                    ),
                    Reply::NotFound => self.with_contract(
                        index as int,
                        CodeStatus::Absent,
                    ).at_contract(index + 1),
                    _ => self.with_contract(
                        index as int,
                        CodeStatus::Unreadable(
                            reply.failure(Request::Code(self.targets[index as int])),
                        ),
                    ).at_contract(index + 1),
                }
            },
            StateStage::Account { index, code_len } => if index >= self.targets.len() {
                self.at_slot(0)
            } else {
                self.with_contract(
                    index as int,
                    CodeStatus::Present {
                        code_len,
                        account: match reply {
                            Reply::Account(account) => Outcome::Found(account),
                            Reply::NotFound => Outcome::NotFound,
                            _ => Outcome::Failed(
                                reply.failure(Request::Account(self.targets[index as int])),
                            ),
                        },
                    },
                ).at_contract(index + 1)
            },
            StateStage::Slot { slot } => StateTestModel {
                slots: self.slots.push(
                    SlotProbe {
                        slot,
                        status: slot_status(
                            reply,
                            Request::Storage(self.storage_target, U256 { hi: 0, lo: slot as u128 }),
                        ),
                    },
                ),
                ..self
            }.at_slot(slot + 1),
        }
    }
}

impl StateTestModel {
    /// The first move of the survey of `targets` and of the first
    /// `slot_count` slots of `storage_target`: the snapshot is asked for.
    pub open spec fn begin(
        targets: Seq<Address>,
        storage_target: Address,
        slot_count: u64,
    ) -> StateTestModelStep {
        Step::Ask(
            Request::LatestState,
            StateTestModel {
                targets,
                storage_target,
                slot_count,
                stage: StateStage::Snapshot,
                contracts: Seq::empty(),
                slots: Seq::empty(),
            },
        )
    }

    /// `fed` as a function value, for [`drive`].
    pub open spec fn resume() -> spec_fn(StateTestModel, Reply) -> StateTestModelStep {
        |state: StateTestModel, reply: Reply| state.fed(reply)
    }
}

/// What the survey reports of the contract at `address` for a store: its
/// code with what the account read came back with, or that it has none, or
/// the failure of the code read.
pub open spec fn contract_entry(
    address: Address,
    store: spec_fn(Request) -> Reply,
) -> ContractProbe {
    ContractProbe {
        address,
        code: match store(Request::Code(address)) {
            Reply::Code(code_len) => CodeStatus::Present {
                code_len,
                account: match store(Request::Account(address)) {
                    Reply::Account(account) => Outcome::Found(account),
                    Reply::NotFound => Outcome::NotFound,
                    other => Outcome::Failed(other.failure(Request::Account(address))),
                },
            },
            Reply::NotFound => CodeStatus::Absent,
            other => CodeStatus::Unreadable(other.failure(Request::Code(address))),
        },
    }
}

/// What the survey reports of slot `slot` of `target` for a store.
pub open spec fn slot_entry(
    target: Address,
    slot: u64,
    store: spec_fn(Request) -> Reply,
) -> SlotProbe {
    SlotProbe {
        slot,
        status: slot_status(
            store(Request::Storage(target, U256 { hi: 0, lo: slot as u128 })),
            Request::Storage(target, U256 { hi: 0, lo: slot as u128 }),
        ),
    }
}

/// The entries of the first `upto` contracts of `targets`.
pub open spec fn contract_entries(
    targets: Seq<Address>,
    upto: int,
    store: spec_fn(Request) -> Reply,
) -> Seq<ContractProbe> {
    Seq::new(upto as nat, |i: int| contract_entry(targets[i], store))
}

/// The entries of the first `upto` slots of `target`.
pub open spec fn slot_entries(target: Address, upto: int, store: spec_fn(Request) -> Reply) -> Seq<
    SlotProbe,
> {
    Seq::new(upto as nat, |i: int| slot_entry(target, i as u64, store))
}

/// What the survey returns for a store: one entry for each target and one
/// for each slot, in order; or the failure of the snapshot.
pub open spec fn state_answer(
    targets: Seq<Address>,
    storage_target: Address,
    slot_count: u64,
    store: spec_fn(Request) -> Reply,
) -> Result<StateReportModel, AppError> {
    match store(Request::LatestState) {
        Reply::State => Ok(
            StateReportModel {
                contracts: contract_entries(targets, targets.len() as int, store),
                slots: slot_entries(storage_target, slot_count as int, store),
            },
        ),
        other => Err(other.failure(Request::LatestState)),
    }
}

/// How many reads the survey makes at most: the snapshot, two for each
/// target and one for each slot.
pub open spec fn survey_reads(targets: Seq<Address>, slot_count: u64) -> nat {
    (1 + 2 * targets.len() + slot_count) as nat
}

/// A survey that has the entries of the slots below `slot` ends with the
/// entries of all slots.
pub proof fn lemma_slots_run(
    state: StateTestModel,
    slot: int,
    store: spec_fn(Request) -> Reply,
    fuel: nat,
)
    requires
        0 <= slot <= state.slot_count,
        state.slots == slot_entries(state.storage_target, slot, store),
        fuel >= state.slot_count - slot,
    ensures
        drive(state.at_slot(slot), StateTestModel::resume(), store, fuel) == Some(
            Ok::<StateReportModel, AppError>(
                StateReportModel {
                    contracts: state.contracts,
                    slots: slot_entries(state.storage_target, state.slot_count as int, store),
                },
            ),
        ),
    decreases state.slot_count - slot,
{
    if slot < state.slot_count {
        let request = Request::Storage(state.storage_target, U256 { hi: 0, lo: slot as u128 });
        let waiting = StateTestModel { stage: StateStage::Slot { slot: slot as u64 }, ..state };
        let next = StateTestModel {
            slots: state.slots.push(slot_entry(state.storage_target, slot as u64, store)),
            ..waiting
        };
        assert(drive(state.at_slot(slot), StateTestModel::resume(), store, fuel) == drive(
            waiting.fed(store(request)),
            StateTestModel::resume(),
            store,
            (fuel - 1) as nat,
        ));
        assert(waiting.fed(store(request)) == next.at_slot(slot + 1));
        assert(next.slots =~= slot_entries(state.storage_target, slot + 1, store));
        lemma_slots_run(next, slot + 1, store, (fuel - 1) as nat);
    }
}

/// A survey that has the entries of the contracts below `index` ends with
/// the entries of all contracts and of all slots.
pub proof fn lemma_contracts_run(
    state: StateTestModel,
    index: int,
    store: spec_fn(Request) -> Reply,
    fuel: nat,
)
    requires
        0 <= index <= state.targets.len() <= usize::MAX,
        state.contracts == contract_entries(state.targets, index, store),
        state.slots == Seq::<SlotProbe>::empty(),
        fuel >= 2 * (state.targets.len() - index) + state.slot_count,
    ensures
        drive(state.at_contract(index), StateTestModel::resume(), store, fuel) == Some(
            Ok::<StateReportModel, AppError>(
                StateReportModel {
                    contracts: contract_entries(state.targets, state.targets.len() as int, store),
                    slots: slot_entries(state.storage_target, state.slot_count as int, store),
                },
            ),
        ),
    decreases state.targets.len() - index,
{
    if index < state.targets.len() {
        let address = state.targets[index];
        let waiting = StateTestModel { stage: StateStage::Code { index: index as usize }, ..state };
        let reply = store(Request::Code(address));
        assert(drive(state.at_contract(index), StateTestModel::resume(), store, fuel) == drive(
            waiting.fed(reply),
            StateTestModel::resume(),
            store,
            (fuel - 1) as nat,
        ));
        let entry = contract_entry(address, store);
        match reply {
            Reply::Code(code_len) => {
                let reading = StateTestModel {
                    stage: StateStage::Account { index: index as usize, code_len },
                    ..state
                };
                let next = reading.with_contract(index, entry.code);
                assert(drive(waiting.fed(reply), StateTestModel::resume(), store, (fuel - 1) as nat)
                    == drive(
                    reading.fed(store(Request::Account(address))),
                    StateTestModel::resume(),
                    store,
                    (fuel - 2) as nat,
                ));
                assert(reading.fed(store(Request::Account(address))) == next.at_contract(index + 1));
                assert(next.contracts =~= contract_entries(state.targets, index + 1, store));
                lemma_contracts_run(next, index + 1, store, (fuel - 2) as nat);
            },
            _ => {
                let next = waiting.with_contract(index, entry.code);
                assert(waiting.fed(reply) == next.at_contract(index + 1));
                assert(next.contracts =~= contract_entries(state.targets, index + 1, store));
                lemma_contracts_run(next, index + 1, store, (fuel - 1) as nat);
            },
        }
    } else {
        assert(state.slots =~= slot_entries(state.storage_target, 0, store));
        lemma_slots_run(state, 0, store, fuel);
    }
}

/// The survey, with its reads answered by a store, ends with its answer for
/// that store: one entry for each target and for each slot, in order.
pub proof fn law_state_survey_ends_with_its_answer(
    targets: Seq<Address>,
    storage_target: Address,
    slot_count: u64,
    store: spec_fn(Request) -> Reply,
    fuel: nat,
)
    requires
        targets.len() <= usize::MAX,
        fuel >= survey_reads(targets, slot_count),
    ensures
        drive(
            StateTestModel::begin(targets, storage_target, slot_count),
            StateTestModel::resume(),
            store,
            fuel,
        ) == Some(state_answer(targets, storage_target, slot_count, store)),
{
    let start = StateTestModel {
        targets,
        storage_target,
        slot_count,
        stage: StateStage::Snapshot,
        contracts: Seq::empty(),
        slots: Seq::empty(),
    };
    assert(drive(
        StateTestModel::begin(targets, storage_target, slot_count),
        StateTestModel::resume(),
        store,
        fuel,
    ) == drive(
        start.fed(store(Request::LatestState)),
        StateTestModel::resume(),
        store,
        (fuel - 1) as nat,
    ));
    if store(Request::LatestState) is State {
        assert(start.contracts =~= contract_entries(targets, 0, store));
        lemma_contracts_run(start, 0, store, (fuel - 1) as nat);
    }
}

impl StateTest {
    /// Begins the survey of `targets` and of the first `slot_count` storage
    /// slots of `storage_target`.
    pub fn begin(targets: Vec<Address>, storage_target: Address, slot_count: u64) -> (step:
        StateTestStep)
        ensures
            survey_view(step) == StateTestModel::begin(targets@, storage_target, slot_count),
    {
        Step::Ask(
            Request::LatestState,
            StateTest {
                targets,
                storage_target,
                slot_count,
                stage: StateStage::Snapshot,
                contracts: Vec::new(),
                slots: Vec::new(),
            },
        )
    }

    fn next_contract(self, index: usize) -> (step: StateTestStep)
        ensures
            survey_view(step) == self@.at_contract(index as int),
    {
        if index < self.targets.len() {
            let address = self.targets[index];
            let mut state = self;
            state.stage = StateStage::Code { index };
            Step::Ask(Request::Code(address), state)
        } else {
            self.next_slot(0)
        }
    }

    fn next_slot(self, slot: u64) -> (step: StateTestStep)
        ensures
            survey_view(step) == self@.at_slot(slot as int),
    {
        if slot < self.slot_count {
            let request = Request::Storage(self.storage_target, U256::from_u64(slot));
            let mut state = self;
            state.stage = StateStage::Slot { slot };
            Step::Ask(request, state)
        } else {
            Step::Done(Ok(StateReport { contracts: self.contracts, slots: self.slots }))
        }
    }

    fn record(self, index: usize, code: CodeStatus) -> (state: StateTest)
        requires
            index < self.targets@.len(),
        ensures
            state@ == self@.with_contract(index as int, code),
    {
        let address = self.targets[index];
        let mut state = self;
        state.contracts.push(ContractProbe { address, code });
        state
    }

    /// Takes the reply to the read that was asked for and says what comes
    /// next.
    pub fn feed(self, reply: Reply) -> (step: StateTestStep)
        ensures
            survey_view(step) == self@.fed(reply),
    {
        match self.stage {
            StateStage::Snapshot => match reply {
                Reply::State => self.next_contract(0),
                other => Step::Done(Err(other.into_failure(Request::LatestState))),
            },
            StateStage::Code { index } => {
                if index >= self.targets.len() {
                    return self.next_slot(0);
                }
                match reply {
                    Reply::Code(code_len) => {
                        let address = self.targets[index];
                        let mut state = self;
                        state.stage = StateStage::Account { index, code_len };
                        Step::Ask(Request::Account(address), state)
                    },
                    Reply::NotFound => self.record(index, CodeStatus::Absent).next_contract(
                        index + 1,
                    ),
                    other => {
                        let error = other.into_failure(Request::Code(self.targets[index]));
                        self.record(index, CodeStatus::Unreadable(error)).next_contract(index + 1)
                    },
                }
            },
            StateStage::Account { index, code_len } => {
                if index >= self.targets.len() {
                    return self.next_slot(0);
                }
                let account = match reply {
                    Reply::Account(account) => Outcome::Found(account),
                    Reply::NotFound => Outcome::NotFound,
                    other => Outcome::Failed(
                        other.into_failure(Request::Account(self.targets[index])),
                    ),
                };
                self.record(index, CodeStatus::Present { code_len, account }).next_contract(
                    index + 1,
                )
            },
            StateStage::Slot { slot } => {
                let request = Request::Storage(self.storage_target, U256::from_u64(slot));
                let status = match reply {
                    Reply::Storage(value) => if value.is_zero() {
                        SlotStatus::Empty
                    } else {
                        SlotStatus::Value(value)
                    },
                    Reply::NotFound => SlotStatus::NoData,
                    other => SlotStatus::Unreadable(other.into_failure(request)),
                };
                let mut state = self;
                state.slots.push(SlotProbe { slot, status });
                if slot < u64::MAX {
                    state.next_slot(slot + 1)
                } else {
                    Step::Done(Ok(StateReport { contracts: state.contracts, slots: state.slots }))
                }
            },
        }
    }
}

/// The address of system contract `index`, as hexadecimal text.
pub open spec fn system_contract_text(index: int) -> Seq<char> {
    if index == 0 {
        "0x0000000000000000000000000000000000000000"@
    } else if index == 1 {
        "0x0000000000000000000000000000000000001000"@
    } else {
        "0x0000000000000000000000000000000000001002"@
    }
}

/// The bytes of the address of system contract `index`: all zero but for the
/// last two, which are `0x10 0x00` for contract 1 and `0x10 0x02` for
/// contract 2.
pub open spec fn system_contract_bytes(index: int) -> Seq<u8> {
    Seq::new(
        20,
        |at: int|
            if index != 0 && at == 18 {
                0x10u8
            } else if index != 0 && index != 1 && at == 19 {
                0x02u8
            } else {
                0u8
            },
    )
}

/// The addresses of the system contracts are well-formed hexadecimal text
/// and spell the bytes of [`system_contract_bytes`].
pub proof fn lemma_system_contracts_parse()
    ensures
        forall|i: int|
            0 <= i < 3 ==> decode_hex(#[trigger] system_contract_text(i), 20) == Some(
                system_contract_bytes(i),
            ),
{
    reveal_strlit("0x0000000000000000000000000000000000000000");
    reveal_strlit("0x0000000000000000000000000000000000001000");
    reveal_strlit("0x0000000000000000000000000000000000001002");
    assert forall|i: int| 0 <= i < 3 implies decode_hex(#[trigger] system_contract_text(i), 20)
        == Some(system_contract_bytes(i)) by {
        let text = system_contract_text(i);
        let digits = text.skip(2);
        assert(hex_payload(text) == digits);
        assert forall|at: int| 0 <= at < 40 implies hex_digit(#[trigger] digits[at]) is Some by {
            assert(digits[at] == text[at + 2]);
        }
        assert(decode_hex(text, 20) is Some);
        assert forall|at: int| 0 <= at < 20 implies decode_hex(text, 20).unwrap()[at]
            == system_contract_bytes(i)[at] by {
            assert(digits[2 * at] == text[2 * at + 2]);
            assert(digits[2 * at + 1] == text[2 * at + 3]);
        }
        assert(decode_hex(text, 20).unwrap() =~= system_contract_bytes(i));
    }
}

/// Whether `targets` are the addresses of the three system contracts, in
/// order.
pub open spec fn is_system_targets(targets: Seq<Address>) -> bool {
    targets.len() == 3 && forall|i: int|
        0 <= i < 3 ==> (#[trigger] targets[i])@ == system_contract_bytes(i)
}

/// The three system contracts that the survey looks at, as their names and
/// the hexadecimal text of their addresses.
pub fn system_contracts() -> (list: [(&'static str, &'static str); 3])
    ensures
        forall|i: int| 0 <= i < 3 ==> (#[trigger] list[i]).1@ == system_contract_text(i),
{
    [
        ("Null Address", "0x0000000000000000000000000000000000000000"),
        ("BSC Validator Set", "0x0000000000000000000000000000000000001000"),
        ("BSC System Reward", "0x0000000000000000000000000000000000001002"),
    ]
}

impl BscDatabase {
    /// The balance, nonce and code flag of an account in the latest state,
    /// or `None` where the state has no such account. Begins the query;
    /// [`AccountQuery::feed`] goes on.
    pub fn get_account(&self, address: Address) -> (step: AccountStep)
        ensures
            step == AccountQuery::begin(address),
    {
        Step::Ask(Request::LatestState, AccountQuery::Snapshot { address })
    }

    /// One storage slot of an account in the latest state, or `None` where
    /// the store has nothing under the slot. Begins the query;
    /// [`StorageQuery::feed`] goes on.
    pub fn get_storage(&self, address: Address, slot: U256) -> (step: StorageStep)
        ensures
            step == StorageQuery::begin(address, slot),
    {
        Step::Ask(Request::LatestState, StorageQuery::Snapshot { address, slot })
    }

    /// The survey of `targets` and of the first `slot_count` storage slots of
    /// `storage_target`, all read against one snapshot of the latest state.
    /// Begins the survey; [`StateTest::feed`] goes on.
    pub fn survey_state(
        &self,
        targets: Vec<Address>,
        storage_target: Address,
        slot_count: u64,
    ) -> (step: StateTestStep)
        ensures
            survey_view(step) == StateTestModel::begin(targets@, storage_target, slot_count),
    {
        StateTest::begin(targets, storage_target, slot_count)
    }

    /// The survey of the three system contracts and of the first three
    /// storage slots of the validator set contract. Begins the survey;
    /// [`StateTest::feed`] goes on.
    pub fn test_state(&self) -> (step: StateTestStep)
        ensures
            step matches Step::Ask(_, state) && survey_view(step) == StateTestModel::begin(
                state.targets@,
                state.targets@[1],
                3,
            ) && is_system_targets(state.targets@),
    {
        let targets = system_targets();
        let storage_target = targets[1];
        StateTest::begin(targets, storage_target, 3)
    }
}

/// The addresses of the three system contracts, read from their texts.
pub fn system_targets() -> (targets: Vec<Address>)
    ensures
        is_system_targets(targets@),
{
    let names = system_contracts();
    proof {
        lemma_system_contracts_parse();
    }
    let mut targets: Vec<Address> = Vec::new();
    let mut i: usize = 0;
    while i < 3
        invariant
            i <= 3,
            forall|j: int| 0 <= j < 3 ==> (#[trigger] names[j]).1@ == system_contract_text(j),
            targets@.len() == i,
            forall|j: int|
                0 <= j < 3 ==> decode_hex(#[trigger] system_contract_text(j), 20) == Some(
                    system_contract_bytes(j),
                ),
            forall|j: int| 0 <= j < i ==> (#[trigger] targets@[j])@ == system_contract_bytes(j),
        decreases 3 - i,
    {
        match Address::parse(names[i].1) {
            Ok(address) => targets.push(address),
            Err(_) => {
                // The three texts are well formed, so this arm is never taken.
                assert(decode_hex(system_contract_text(i as int), 20) is None);
                assert(false);
            },
        }
        i += 1;
    }
    targets
}

} // verus!
