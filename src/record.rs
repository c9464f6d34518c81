//! The record protocol shared by all providers: how a provider queries and
//! updates the one remote record it owns, in terms of four remote operations
//! (list, delete, modify, create). A runner performs each operation against
//! the provider's service and hands the reply back.

use vstd::prelude::*;
use crate::error::ProvidersErrorType;

verus! {

/// A remote record that matches the provider's host label and type.
#[derive(Debug)]
pub struct RemoteRecord {
    pub id: String,
    pub value: String,
}

impl View for RemoteRecord {
    type V = (Seq<char>, Seq<char>);

    open spec fn view(&self) -> (Seq<char>, Seq<char>) {
        (self.id@, self.value@)
    }
}

/// What the provider knows of its record.
#[derive(Clone, Copy, Debug, PartialEq, Eq, Structural)]
pub enum Existence {
    Unknown,
    Absent,
    Present,
}

/// The provider's record state: whether the record exists, and if so its
/// identifier and value.
#[derive(Debug)]
pub struct RecordState {
    pub existence: Existence,
    pub record_id: String,
    pub value: String,
}

pub struct StateView {
    pub existence: Existence,
    pub id: Seq<char>,
    pub value: Seq<char>,
}

impl View for RecordState {
    type V = StateView;

    open spec fn view(&self) -> StateView {
        StateView { existence: self.existence, id: self.record_id@, value: self.value@ }
    }
}

/// A remote operation.
#[derive(Debug)]
pub enum RemoteOp {
    /// List the records that match the host label and type.
    List,
    /// Delete the record of this identifier.
    Delete(String),
    /// Set the value of the record of this identifier.
    Modify(String, String),
    /// Create a record with this value.
    Create(String),
}

pub enum OpView {
    List,
    Delete(Seq<char>),
    Modify(Seq<char>, Seq<char>),
    Create(Seq<char>),
}

impl View for RemoteOp {
    type V = OpView;

    open spec fn view(&self) -> OpView {
        match self {
            RemoteOp::List => OpView::List,
            RemoteOp::Delete(id) => OpView::Delete(id@),
            RemoteOp::Modify(id, v) => OpView::Modify(id@, v@),
            RemoteOp::Create(v) => OpView::Create(v@),
        }
    }
}

/// The reply to a remote operation.
#[derive(Debug)]
pub enum RemoteReply {
    /// The matching records, in the service's order.
    Listed(Vec<RemoteRecord>),
    Deleted,
    /// The identifier of the modified record, as the service returned it.
    Modified(String),
    /// The identifier of the created record.
    Created(String),
    /// The operation failed.
    Failed,
}

pub enum ReplyView {
    Listed(Seq<(Seq<char>, Seq<char>)>),
    Deleted,
    Modified(Seq<char>),
    Created(Seq<char>),
    Failed,
}

impl View for RemoteReply {
    type V = ReplyView;

    open spec fn view(&self) -> ReplyView {
        match self {
            RemoteReply::Listed(r) => ReplyView::Listed(r@.map_values(|x: RemoteRecord| x@)),
            RemoteReply::Deleted => ReplyView::Deleted,
            RemoteReply::Modified(id) => ReplyView::Modified(id@),
            RemoteReply::Created(id) => ReplyView::Created(id@),
            RemoteReply::Failed => ReplyView::Failed,
        }
    }
}

/// The operation in progress.
#[derive(Debug)]
pub enum Job {
    Idle,
    /// Listing the records; for an update, the value to write afterwards.
    Listing { then_update: Option<String> },
    /// Deleting the surplus records; `rest` starts with the one in flight.
    Deleting { rest: Vec<String>, then_update: Option<String> },
    Modifying { id: String, value: String },
    Creating { value: String },
}

pub enum JobView {
    Idle,
    Listing { then_update: Option<Seq<char>> },
    Deleting { rest: Seq<Seq<char>>, then_update: Option<Seq<char>> },
    Modifying { id: Seq<char>, value: Seq<char> },
    Creating { value: Seq<char> },
}

pub open spec fn opt_view(o: Option<String>) -> Option<Seq<char>> {
    match o {
        Some(s) => Some(s@),
        None => None,
    }
}

pub open spec fn strings_view(v: Seq<String>) -> Seq<Seq<char>> {
    v.map_values(|s: String| s@)
}

impl View for Job {
    type V = JobView;

    open spec fn view(&self) -> JobView {
        match self {
            Job::Idle => JobView::Idle,
            Job::Listing { then_update } => JobView::Listing { then_update: opt_view(*then_update) },
            Job::Deleting { rest, then_update } => JobView::Deleting {
                rest: strings_view(rest@),
                then_update: opt_view(*then_update),
            },
            Job::Modifying { id, value } => JobView::Modifying { id: id@, value: value@ },
            Job::Creating { value } => JobView::Creating { value: value@ },
        }
    }
}

/// What the runner does next: perform an operation, or take the result.
#[derive(Debug)]
pub enum Step {
    Call(RemoteOp),
    /// The operation's result: the record's value, or why it failed.
    Done(Result<String, ProvidersErrorType>),
}

pub enum StepView {
    Call(OpView),
    Done(Result<Seq<char>, ProvidersErrorType>),
}

impl View for Step {
    type V = StepView;

    open spec fn view(&self) -> StepView {
        match self {
            Step::Call(op) => StepView::Call(op@),
            Step::Done(Ok(v)) => StepView::Done(Ok(v@)),
            Step::Done(Err(e)) => StepView::Done(Err(*e)),
        }
    }
}

pub struct MachineView {
    pub state: StateView,
    pub job: JobView,
}

/// A provider's record state with the operation in progress.
#[derive(Debug)]
pub struct RecordMachine {
    pub state: RecordState,
    pub job: Job,
}

impl View for RecordMachine {
    type V = MachineView;

    open spec fn view(&self) -> MachineView {
        MachineView { state: self.state@, job: self.job@ }
    }
}

pub open spec fn with_existence(s: StateView, e: Existence) -> StateView {
    StateView { existence: e, ..s }
}

/// An update that found no record to modify goes on by creating one.
pub open spec fn create_instead(s: StateView, value: Seq<char>) -> (MachineView, StepView) {
    (
        MachineView {
            state: with_existence(s, Existence::Absent),
            job: JobView::Creating { value },
        },
        StepView::Call(OpView::Create(value)),
    )
}

/// A query that ended in `err`: a plain query fails with it; an update treats
/// the record as absent and creates it.
pub open spec fn query_failed(
    s: StateView,
    then_update: Option<Seq<char>>,
    err: ProvidersErrorType,
) -> (MachineView, StepView) {
    match then_update {
        None => (MachineView { state: s, job: JobView::Idle }, StepView::Done(Err(err))),
        Some(v) => create_instead(s, v),
    }
}

/// The machine and the next step when the list of matching records is `recs`.
pub open spec fn on_listed(
    s: StateView,
    then_update: Option<Seq<char>>,
    recs: Seq<(Seq<char>, Seq<char>)>,
) -> (MachineView, StepView) {
    if recs.len() == 0 {
        query_failed(
            with_existence(s, Existence::Absent),
            then_update,
            ProvidersErrorType::NoRecordFound,
        )
    } else {
        let adopted = StateView { existence: Existence::Present, id: recs[0].0, value: recs[0].1 };
        if recs.len() == 1 {
            match then_update {
                None => (
                    MachineView { state: adopted, job: JobView::Idle },
                    StepView::Done(Ok(recs[0].1)),
                ),
                Some(v) => (
                    MachineView { state: adopted, job: JobView::Modifying { id: recs[0].0, value: v } },
                    StepView::Call(OpView::Modify(recs[0].0, v)),
                ),
            }
        } else {
            let rest = recs.subrange(1, recs.len() as int).map_values(
                |r: (Seq<char>, Seq<char>)| r.0,
            );
            (
                MachineView { state: adopted, job: JobView::Deleting { rest, then_update } },
                StepView::Call(OpView::Delete(rest[0])),
            )
        }
    }
}

/// The machine and the next step after reply `r` to the operation in progress.
pub open spec fn resumed(m: MachineView, r: ReplyView) -> (MachineView, StepView) {
    match m.job {
        JobView::Idle => (m, StepView::Done(Err(ProvidersErrorType::NotInitialized))),
        JobView::Listing { then_update } => match r {
            ReplyView::Listed(recs) => on_listed(m.state, then_update, recs),
            _ => query_failed(m.state, then_update, ProvidersErrorType::QueryDomainRecordsError),
        },
        JobView::Deleting { rest, then_update } => match r {
            ReplyView::Deleted => if rest.len() > 1 {
                (
                    MachineView {
                        state: m.state,
                        job: JobView::Deleting { rest: rest.drop_first(), then_update },
                    },
                    StepView::Call(OpView::Delete(rest[1])),
                )
            } else {
                query_failed(m.state, then_update, ProvidersErrorType::TooManyRecords)
            },
            _ => query_failed(
                with_existence(m.state, Existence::Unknown),
                then_update,
                ProvidersErrorType::DeleteDomainRecordsError,
            ),
        },
        JobView::Modifying { id, value } => match r {
            ReplyView::Modified(echo) => if echo == id {
                (
                    MachineView {
                        state: StateView { existence: Existence::Present, id, value },
                        job: JobView::Idle,
                    },
                    StepView::Done(Ok(value)),
                )
            } else {
                (
                    MachineView {
                        state: with_existence(m.state, Existence::Unknown),
                        job: JobView::Idle,
                    },
                    StepView::Done(Err(ProvidersErrorType::OtherError)),
                )
            },
            _ => (
                MachineView {
                    state: with_existence(m.state, Existence::Unknown),
                    job: JobView::Idle,
                },
                StepView::Done(Err(ProvidersErrorType::NetworkError)),
            ),
        },
        JobView::Creating { value } => match r {
            ReplyView::Created(id) => (
                MachineView {
                    state: StateView { existence: Existence::Present, id, value },
                    job: JobView::Idle,
                },
                StepView::Done(Ok(value)),
            ),
            _ => (
                MachineView { state: m.state, job: JobView::Idle },
                StepView::Done(Err(ProvidersErrorType::NetworkError)),
            ),
        },
    }
}

/// The machine and the first step of a query.
pub open spec fn query_started(s: StateView) -> (MachineView, StepView) {
    (MachineView { state: s, job: JobView::Listing { then_update: None } }, StepView::Call(OpView::List))
}

/// The machine and the first step of an update to `value`: an unknown record
/// is queried first, a present one modified, an absent one created.
pub open spec fn update_started(s: StateView, value: Seq<char>) -> (MachineView, StepView) {
    match s.existence {
        Existence::Unknown => (
            MachineView { state: s, job: JobView::Listing { then_update: Some(value) } },
            StepView::Call(OpView::List),
        ),
        Existence::Present => (
            MachineView { state: s, job: JobView::Modifying { id: s.id, value } },
            StepView::Call(OpView::Modify(s.id, value)),
        ),
        Existence::Absent => create_instead(s, value),
    }
}


fn copy_opt(o: &Option<String>) -> (r: Option<String>)
    ensures
        opt_view(r) == opt_view(*o),
{
    match o {
        Some(v) => Some(v.clone()),
        None => None,
    }
}

impl RecordMachine {
    /// A provider that knows nothing of its record yet.
    pub fn new() -> (r: RecordMachine)
        ensures
            r@.state.existence == Existence::Unknown,
            r@.state.id == Seq::<char>::empty(),
            r@.state.value == Seq::<char>::empty(),
            r@.job == JobView::Idle,
    {
        RecordMachine {
            state: RecordState {
                existence: Existence::Unknown,
                record_id: String::new(),
                value: String::new(),
            },
            job: Job::Idle,
        }
    }

    /// Starts a query of the record's current value.
    pub fn start_query(&mut self) -> (r: Step)
        ensures
            (final(self)@, r@) == query_started(old(self)@.state),
    {
        self.job = Job::Listing { then_update: None };
        Step::Call(RemoteOp::List)
    }

    /// Starts an update of the record to `value`.
    pub fn start_update(&mut self, value: String) -> (r: Step)
        ensures
            (final(self)@, r@) == update_started(old(self)@.state, value@),
    {
        match self.state.existence {
            Existence::Unknown => {
                self.job = Job::Listing { then_update: Some(value) };
                Step::Call(RemoteOp::List)
            },
            Existence::Present => {
                let id = self.state.record_id.clone();
                self.job = Job::Modifying { id: id.clone(), value: value.clone() };
                Step::Call(RemoteOp::Modify(id, value))
            },
            Existence::Absent => {
                self.create_instead(value)
            },
        }
    }

    fn create_instead(&mut self, value: String) -> (r: Step)
        ensures
            (final(self)@, r@) == create_instead(old(self)@.state, value@),
    {
        self.state.existence = Existence::Absent;
        self.job = Job::Creating { value: value.clone() };
        Step::Call(RemoteOp::Create(value))
    }

    fn query_failed(&mut self, then_update: Option<String>, err: ProvidersErrorType) -> (r: Step)
        ensures
            (final(self)@, r@) == query_failed(old(self)@.state, opt_view(then_update), err),
    {
        match then_update {
            None => {
                self.job = Job::Idle;
                Step::Done(Err(err))
            },
            Some(v) => self.create_instead(v),
        }
    }

    fn on_listed(&mut self, then_update: Option<String>, recs: Vec<RemoteRecord>) -> (r: Step)
        ensures
            (final(self)@, r@) == on_listed(
                old(self)@.state,
                opt_view(then_update),
                recs@.map_values(|x: RemoteRecord| x@),
            ),
    {
        let ghost rv = recs@.map_values(|x: RemoteRecord| x@);
        if recs.len() == 0 {
            self.state.existence = Existence::Absent;
            return self.query_failed(then_update, ProvidersErrorType::NoRecordFound);
        }
        self.state = RecordState {
            existence: Existence::Present,
            record_id: recs[0].id.clone(),
            value: recs[0].value.clone(),
        };
        if recs.len() == 1 {
            match then_update {
                None => {
                    self.job = Job::Idle;
                    Step::Done(Ok(recs[0].value.clone()))
                },
                Some(v) => {
                    self.job = Job::Modifying { id: recs[0].id.clone(), value: v.clone() };
                    Step::Call(RemoteOp::Modify(recs[0].id.clone(), v))
                },
            }
        } else {
            let mut rest: Vec<String> = Vec::new();
            let mut i: usize = 1;
            while i < recs.len()
                invariant
                    1 <= i <= recs@.len(),
                    rv == recs@.map_values(|x: RemoteRecord| x@),
                    strings_view(rest@) =~= rv.subrange(1, i as int).map_values(
                        |r: (Seq<char>, Seq<char>)| r.0,
                    ),
                decreases recs@.len() - i,
            {
                let ghost before = rest@;
                rest.push(recs[i].id.clone());
                proof {
                    assert(strings_view(rest@) =~= strings_view(before).push(rv[i as int].0));
                    assert(rv.subrange(1, i + 1) =~= rv.subrange(1, i as int).push(rv[i as int]));
                }
                i = i + 1;
            }
            let first = rest[0].clone();
            self.job = Job::Deleting { rest, then_update };
            Step::Call(RemoteOp::Delete(first))
        }
    }

    /// Takes the reply to the operation in progress and returns the next step.
    pub fn resume(&mut self, reply: RemoteReply) -> (r: Step)
        ensures
            (final(self)@, r@) == resumed(old(self)@, reply@),
    {
        let mut job = Job::Idle;
        std::mem::swap(&mut self.job, &mut job);
        match job {
            Job::Idle => Step::Done(Err(ProvidersErrorType::NotInitialized)),
            Job::Listing { then_update } => match reply {
                RemoteReply::Listed(recs) => self.on_listed(then_update, recs),
                _ => self.query_failed(then_update, ProvidersErrorType::QueryDomainRecordsError),
            },
            Job::Deleting { rest, then_update } => match reply {
                RemoteReply::Deleted => {
                    if rest.len() > 1 {
                        let mut rest = rest;
                        let ghost before = rest@;
                        rest.remove(0);
                        proof {
                            assert(strings_view(rest@) =~= strings_view(before).drop_first());
                        }
                        let next = rest[0].clone();
                        self.job = Job::Deleting { rest, then_update };
                        Step::Call(RemoteOp::Delete(next))
                    } else {
                        self.query_failed(then_update, ProvidersErrorType::TooManyRecords)
                    }
                },
                _ => {
                    self.state.existence = Existence::Unknown;
                    self.query_failed(then_update, ProvidersErrorType::DeleteDomainRecordsError)
                },
            },
            Job::Modifying { id, value } => match reply {
                RemoteReply::Modified(echo) => {
                    if echo == id {
                        self.state = RecordState {
                            existence: Existence::Present,
                            record_id: id,
                            value: value.clone(),
                        };
                        Step::Done(Ok(value))
                    } else {
                        self.state.existence = Existence::Unknown;
                        Step::Done(Err(ProvidersErrorType::OtherError))
                    }
                },
                _ => {
                    self.state.existence = Existence::Unknown;
                    Step::Done(Err(ProvidersErrorType::NetworkError))
                },
            },
            Job::Creating { value } => match reply {
                RemoteReply::Created(id) => {
                    self.state = RecordState {
                        existence: Existence::Present,
                        record_id: id,
                        value: value.clone(),
                    };
                    Step::Done(Ok(value))
                },
                _ => Step::Done(Err(ProvidersErrorType::NetworkError)),
            },
        }
    }
}


/// `store` without the records of identifier `id`.
pub open spec fn without_id(store: Seq<(Seq<char>, Seq<char>)>, id: Seq<char>) -> Seq<
    (Seq<char>, Seq<char>),
>
    decreases store.len(),
{
    if store.len() == 0 {
        store
    } else {
        (if store[0].0 == id {
            Seq::empty()
        } else {
            seq![store[0]]
        }) + without_id(store.drop_first(), id)
    }
}

pub open spec fn has_id(store: Seq<(Seq<char>, Seq<char>)>, id: Seq<char>) -> bool {
    exists|i: int| 0 <= i < store.len() && #[trigger] store[i].0 == id
}

/// No two records of `store` share an identifier.
pub open spec fn ids_distinct(store: Seq<(Seq<char>, Seq<char>)>) -> bool {
    forall|i: int, j: int| 0 <= i < j < store.len() ==> #[trigger] store[i].0 != #[trigger] store[j].0
}

/// The reply of a service that holds the matching records `store` and does
/// what it is asked, with the store after it; a created record gets the
/// identifier `fresh`.
pub open spec fn faithful_reply(
    store: Seq<(Seq<char>, Seq<char>)>,
    op: OpView,
    fresh: Seq<char>,
) -> (ReplyView, Seq<(Seq<char>, Seq<char>)>) {
    match op {
        OpView::List => (ReplyView::Listed(store), store),
        OpView::Delete(id) => if has_id(store, id) {
            (ReplyView::Deleted, without_id(store, id))
        } else {
            (ReplyView::Failed, store)
        },
        OpView::Modify(id, v) => if has_id(store, id) {
            (
                ReplyView::Modified(id),
                store.map_values(
                    |r: (Seq<char>, Seq<char>)|
                        if r.0 == id {
                            (id, v)
                        } else {
                            r
                        },
                ),
            )
        } else {
            (ReplyView::Failed, store)
        },
        OpView::Create(v) => (ReplyView::Created(fresh), store.push((fresh, v))),
    }
}

/// Where a run against a faithful service stands.
pub struct Run {
    pub machine: MachineView,
    /// The operation's result, once it is done.
    pub result: Option<Result<Seq<char>, ProvidersErrorType>>,
    pub store: Seq<(Seq<char>, Seq<char>)>,
}

/// Runs the machine from `step` against a faithful service, for at most
/// `fuel` remote operations.
pub open spec fn run(
    m: MachineView,
    step: StepView,
    store: Seq<(Seq<char>, Seq<char>)>,
    fresh: Seq<char>,
    fuel: nat,
) -> Run
    decreases fuel,
{
    match step {
        StepView::Done(r) => Run { machine: m, result: Some(r), store },
        StepView::Call(op) => if fuel == 0 {
            Run { machine: m, result: None, store }
        } else {
            let (reply, after) = faithful_reply(store, op, fresh);
            let (m2, s2) = resumed(m, reply);
            run(m2, s2, after, fresh, (fuel - 1) as nat)
        },
    }
}

proof fn lemma_without_absent(store: Seq<(Seq<char>, Seq<char>)>, id: Seq<char>)
    requires
        !has_id(store, id),
    ensures
        without_id(store, id) == store,
    decreases store.len(),
{
    if store.len() > 0 {
        let t = store.drop_first();
        assert(!has_id(t, id)) by {
            if has_id(t, id) {
                let i = choose|i: int| 0 <= i < t.len() && #[trigger] t[i].0 == id;
                assert(store[i + 1].0 == id);
            }
        }
        lemma_without_absent(t, id);
        assert(store[0].0 != id);
        assert(without_id(store, id) =~= store);
    }
}

proof fn lemma_delete_second(store: Seq<(Seq<char>, Seq<char>)>)
    requires
        store.len() >= 2,
        ids_distinct(store),
    ensures
        has_id(store, store[1].0),
        without_id(store, store[1].0) == seq![store[0]] + store.subrange(2, store.len() as int),
        ids_distinct(seq![store[0]] + store.subrange(2, store.len() as int)),
{
    let id = store[1].0;
    let t = store.drop_first();
    let tail = store.subrange(2, store.len() as int);
    assert(t.drop_first() =~= tail);
    assert(!has_id(tail, id)) by {
        if has_id(tail, id) {
            let i = choose|i: int| 0 <= i < tail.len() && #[trigger] tail[i].0 == id;
            assert(store[i + 2].0 == id);
        }
    }
    lemma_without_absent(tail, id);
    assert(t[0].0 == id);
    assert(without_id(t, id) =~= tail);
    assert(store[0].0 != id);
    assert(without_id(store, id) =~= seq![store[0]] + tail);
    let rest = seq![store[0]] + tail;
    assert forall|i: int, j: int| 0 <= i < j < rest.len() implies #[trigger] rest[i].0
        != #[trigger] rest[j].0 by {
        if i == 0 {
            assert(rest[j] == store[j + 1]);
        } else {
            assert(rest[i] == store[i + 1]);
            assert(rest[j] == store[j + 1]);
        }
    }
}

proof fn lemma_deletes(
    state: StateView,
    store: Seq<(Seq<char>, Seq<char>)>,
    fresh: Seq<char>,
)
    requires
        store.len() >= 2,
        ids_distinct(store),
    ensures
        run(
            MachineView {
                state,
                job: JobView::Deleting {
                    rest: store.subrange(1, store.len() as int).map_values(
                        |r: (Seq<char>, Seq<char>)| r.0,
                    ),
                    then_update: None,
                },
            },
            StepView::Call(OpView::Delete(store[1].0)),
            store,
            fresh,
            (store.len() - 1) as nat,
        ) == (Run {
            machine: MachineView { state, job: JobView::Idle },
            result: Some(Err(ProvidersErrorType::TooManyRecords)),
            store: seq![store[0]],
        }),
    decreases store.len(),
{
    let rest = store.subrange(1, store.len() as int).map_values(|r: (Seq<char>, Seq<char>)| r.0);
    let m = MachineView { state, job: JobView::Deleting { rest, then_update: None } };
    lemma_delete_second(store);
    let after = seq![store[0]] + store.subrange(2, store.len() as int);
    assert(faithful_reply(store, OpView::Delete(store[1].0), fresh) == (ReplyView::Deleted, after));
    let fuel = (store.len() - 1) as nat;
    assert(run(m, StepView::Call(OpView::Delete(store[1].0)), store, fresh, fuel) == run(
        resumed(m, ReplyView::Deleted).0,
        resumed(m, ReplyView::Deleted).1,
        after,
        fresh,
        (fuel - 1) as nat,
    ));
    if store.len() == 2 {
        assert(after =~= seq![store[0]]);
        assert(rest.len() == 1);
    } else {
        let rest2 = after.subrange(1, after.len() as int).map_values(
            |r: (Seq<char>, Seq<char>)| r.0,
        );
        assert(rest2 =~= rest.drop_first());
        assert(rest[1] == after[1].0);
        assert(resumed(m, ReplyView::Deleted) == (
            MachineView { state, job: JobView::Deleting { rest: rest2, then_update: None } },
            StepView::Call(OpView::Delete(after[1].0)),
        ));
        lemma_deletes(state, after, fresh);
    }
}

/// A query that finds several matching records keeps the first, deletes each
/// of the others, adopts the first's identifier and value, and fails with
/// `TooManyRecords`.
pub proof fn lemma_query_dedup(
    state: StateView,
    store: Seq<(Seq<char>, Seq<char>)>,
    fresh: Seq<char>,
)
    requires
        store.len() >= 2,
        ids_distinct(store),
    ensures
        run(query_started(state).0, query_started(state).1, store, fresh, store.len()) == (Run {
            machine: MachineView {
                state: StateView { existence: Existence::Present, id: store[0].0, value: store[0].1 },
                job: JobView::Idle,
            },
            result: Some(Err(ProvidersErrorType::TooManyRecords)),
            store: seq![store[0]],
        }),
{
    let adopted = StateView { existence: Existence::Present, id: store[0].0, value: store[0].1 };
    let rest = store.subrange(1, store.len() as int).map_values(|r: (Seq<char>, Seq<char>)| r.0);
    assert(rest[0] == store[1].0);
    lemma_deletes(adopted, store, fresh);
}

/// The service's records agree with what the provider knows of them, and
/// there is at most one.
pub open spec fn in_step(s: StateView, store: Seq<(Seq<char>, Seq<char>)>) -> bool {
    match s.existence {
        Existence::Unknown => store.len() <= 1,
        Existence::Absent => store.len() == 0,
        Existence::Present => store.len() == 1 && store[0].0 == s.id,
    }
}

/// An update to `value` followed by a query, against a faithful service and
/// with nothing else changing the records, returns `value`.
pub proof fn lemma_update_then_query(
    s: StateView,
    store: Seq<(Seq<char>, Seq<char>)>,
    value: Seq<char>,
    fresh: Seq<char>,
)
    requires
        in_step(s, store),
    ensures
        ({
            let u = run(update_started(s, value).0, update_started(s, value).1, store, fresh, 2);
            let q = run(
                query_started(u.machine.state).0,
                query_started(u.machine.state).1,
                u.store,
                fresh,
                1,
            );
            u.result == Some(Ok::<Seq<char>, ProvidersErrorType>(value)) && q.result == Some(
                Ok::<Seq<char>, ProvidersErrorType>(value),
            )
        }),
{
    let u = run(update_started(s, value).0, update_started(s, value).1, store, fresh, 2);
    if store.len() == 1 {
        let id = store[0].0;
        let written = store.map_values(
            |r: (Seq<char>, Seq<char>)|
                if r.0 == id {
                    (id, value)
                } else {
                    r
                },
        );
        assert(has_id(store, id));
        assert(written =~= seq![(id, value)]);
        reveal_with_fuel(run, 3);
        assert(u.store == written);
        assert(u.machine.state == StateView { existence: Existence::Present, id, value });
    } else {
        assert(store.push((fresh, value)) =~= seq![(fresh, value)]);
        reveal_with_fuel(run, 3);
        assert(u.store == seq![(fresh, value)]);
    }
}

} // verus!
