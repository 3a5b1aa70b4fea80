use vstd::prelude::*;
use crate::text::views;

verus! {

/// Where the run of one statement stands.
#[derive(Clone, Copy, Debug, PartialEq, Eq, Structural)]
pub enum Phase {
    Idle,
    Preparing,
    Describing,
    /// Waiting for the driver to take the parameter at `position`.
    Binding { position: usize },
    Executing,
    Fetching,
    Finished,
    Failed,
}

/// What the driver reports back.
#[derive(Clone, Copy, Debug, PartialEq, Eq, Structural)]
pub enum Event {
    Start,
    /// The statement is prepared and has this many placeholders.
    Prepared { placeholders: usize },
    Described,
    Bound,
    Executed,
    Row,
    EndOfRows,
    /// The driver failed at what it was last asked to do.
    Failure,
}

/// Why the run of a statement ended early.
#[derive(Clone, Copy, Debug, PartialEq, Eq, Structural)]
pub enum QueryError {
    PrepareError,
    DescribeError,
    /// As many parameters must be given as the statement has placeholders.
    BindCountMismatch { placeholders: usize, parameters: usize },
    BindError,
    ExecutionError,
    FetchError,
    /// The driver reported something that the phase does not expect.
    UnexpectedEvent,
}

impl QueryError {
    /// The text of `message`.
    pub open spec fn spec_message(self) -> Seq<char> {
        match self {
            QueryError::PrepareError => "failed to prepare query"@,
            QueryError::DescribeError => "failed to get prepared statement schema"@,
            QueryError::BindCountMismatch { .. } =>
                "failed to bind parameters: their number is not the number of placeholders"@,
            QueryError::BindError => "failed to bind parameter"@,
            QueryError::ExecutionError => "failed to execute query"@,
            QueryError::FetchError => "failed to fetch row data"@,
            QueryError::UnexpectedEvent => "failed to follow the driver"@,
        }
    }

    /// A short description of what was attempted.
    pub fn message(&self) -> (s: String)
        ensures
            s@ == self.spec_message(),
    {
        match self {
            QueryError::PrepareError => String::from_str("failed to prepare query"),
            QueryError::DescribeError => String::from_str(
                "failed to get prepared statement schema",
            ),
            QueryError::BindCountMismatch { .. } => String::from_str(
                "failed to bind parameters: their number is not the number of placeholders",
            ),
            QueryError::BindError => String::from_str("failed to bind parameter"),
            QueryError::ExecutionError => String::from_str("failed to execute query"),
            QueryError::FetchError => String::from_str("failed to fetch row data"),
            QueryError::UnexpectedEvent => String::from_str("failed to follow the driver"),
        }
    }
}

/// What the driver is asked to do next.
#[derive(Clone, Copy, Debug, PartialEq, Eq, Structural)]
pub enum Action {
    Prepare,
    Describe,
    /// Bind the parameter at `position` to the placeholder at `position`.
    Bind { position: usize },
    Execute,
    Fetch,
    Finish,
    Fail(QueryError),
}

/// The next phase and the next action, for a run with `parameters` parameters.
/// A run for the schema alone describes the prepared statement and ends; any
/// other checks the parameter count, binds from left to right, executes, and
/// fetches until the rows end. A failure, or an event out of turn, ends the run.
pub open spec fn transition(schema_only: bool, parameters: nat, phase: Phase, event: Event) -> (
    Phase,
    Action,
) {
    match (phase, event) {
        (Phase::Idle, Event::Start) => (Phase::Preparing, Action::Prepare),
        (Phase::Preparing, Event::Prepared { placeholders }) => if schema_only {
            (Phase::Describing, Action::Describe)
        } else if placeholders != parameters {
            (
                Phase::Failed,
                Action::Fail(
                    QueryError::BindCountMismatch { placeholders, parameters: parameters as usize },
                ),
            )
        } else if parameters == 0 {
            (Phase::Executing, Action::Execute)
        } else {
            (Phase::Binding { position: 0 }, Action::Bind { position: 0 })
        },
        (Phase::Preparing, Event::Failure) => (
            Phase::Failed,
            Action::Fail(QueryError::PrepareError),
        ),
        (Phase::Describing, Event::Described) => (Phase::Finished, Action::Finish),
        (Phase::Describing, Event::Failure) => (
            Phase::Failed,
            Action::Fail(QueryError::DescribeError),
        ),
        (Phase::Binding { position }, Event::Bound) => if position + 1 < parameters {
            (
                Phase::Binding { position: (position + 1) as usize },
                Action::Bind { position: (position + 1) as usize },
            )
        } else {
            (Phase::Executing, Action::Execute)
        },
        (Phase::Binding { position }, Event::Failure) => (
            Phase::Failed,
            Action::Fail(QueryError::BindError),
        ),
        (Phase::Executing, Event::Executed) => (Phase::Fetching, Action::Fetch),
        (Phase::Executing, Event::Failure) => (
            Phase::Failed,
            Action::Fail(QueryError::ExecutionError),
        ),
        (Phase::Fetching, Event::Row) => (Phase::Fetching, Action::Fetch),
        (Phase::Fetching, Event::EndOfRows) => (Phase::Finished, Action::Finish),
        (Phase::Fetching, Event::Failure) => (Phase::Failed, Action::Fail(QueryError::FetchError)),
        _ => (Phase::Failed, Action::Fail(QueryError::UnexpectedEvent)),
    }
}

/// The phase after a sequence of events.
pub open spec fn phase_after(schema_only: bool, parameters: nat, phase: Phase, events: Seq<Event>) -> Phase
    decreases events.len(),
{
    if events.len() == 0 {
        phase
    } else {
        transition(
            schema_only,
            parameters,
            phase_after(schema_only, parameters, phase, events.drop_last()),
            events.last(),
        ).0
    }
}

/// The action that answers the last of a sequence of events.
pub open spec fn action_after(schema_only: bool, parameters: nat, phase: Phase, events: Seq<Event>) -> Action
    recommends
        events.len() > 0,
{
    transition(
        schema_only,
        parameters,
        phase_after(schema_only, parameters, phase, events.drop_last()),
        events.last(),
    ).1
}

/// The phases that a run for the schema alone can be in.
pub open spec fn fetches_nothing(phase: Phase) -> bool {
    phase is Idle || phase is Preparing || phase is Describing || phase is Finished
        || phase is Failed
}

/// A run for the schema alone never asks for a row, whatever the driver reports:
/// after any sequence of events the action is neither to fetch, nor to bind, nor
/// to execute.
pub proof fn lemma_schema_only_never_fetches(parameters: nat, events: Seq<Event>)
    ensures
        fetches_nothing(phase_after(true, parameters, Phase::Idle, events)),
        events.len() > 0 ==> {
            let action = action_after(true, parameters, Phase::Idle, events);
            !(action is Fetch) && !(action is Execute) && !(action is Bind)
        },
    decreases events.len(),
{
    if events.len() > 0 {
        lemma_schema_only_never_fetches(parameters, events.drop_last());
    }
}

/// Nothing is executed or fetched before the parameter count is checked: where
/// the prepared statement has another number of placeholders than there are
/// parameters, the run ends with `BindCountMismatch`, and stays ended.
pub proof fn lemma_count_mismatch_stops_the_run(
    parameters: nat,
    placeholders: usize,
    later: Seq<Event>,
)
    requires
        placeholders != parameters,
        parameters <= usize::MAX,
    ensures
        action_after(
            false,
            parameters,
            Phase::Idle,
            seq![Event::Start, Event::Prepared { placeholders }],
        ) == Action::Fail(
            QueryError::BindCountMismatch { placeholders, parameters: parameters as usize },
        ),
        phase_after(
            false,
            parameters,
            Phase::Idle,
            seq![Event::Start, Event::Prepared { placeholders }] + later,
        ) is Failed,
        later.len() > 0 ==> action_after(
            false,
            parameters,
            Phase::Idle,
            seq![Event::Start, Event::Prepared { placeholders }] + later,
        ) is Fail,
    decreases later.len(),
{
    let head = seq![Event::Start, Event::Prepared { placeholders }];
    assert(head.drop_last() =~= seq![Event::Start]);
    assert(seq![Event::Start].drop_last() =~= Seq::<Event>::empty());
    assert(phase_after(false, parameters, Phase::Idle, Seq::<Event>::empty()) == Phase::Idle);
    assert(seq![Event::Start].last() == Event::Start);
    assert(head.last() == Event::Prepared { placeholders });
    assert(phase_after(false, parameters, Phase::Idle, seq![Event::Start]) == Phase::Preparing);
    assert(phase_after(false, parameters, Phase::Idle, head) is Failed);
    if later.len() > 0 {
        lemma_count_mismatch_stops_the_run(parameters, placeholders, later.drop_last());
        assert((head + later).drop_last() =~= head + later.drop_last());
    } else {
        assert(head + later =~= head);
    }
}

/// The events of a run up to the moment when `bound` parameters are bound.
pub open spec fn events_until_bound(placeholders: usize, bound: nat) -> Seq<Event> {
    seq![Event::Start, Event::Prepared { placeholders }] + Seq::new(bound, |i: int| Event::Bound)
}

/// Parameters are bound from left to right, each to the placeholder at its own
/// position: in a run whose statement has as many placeholders as there are
/// parameters, the driver is asked for position `bound` once `bound` parameters
/// are bound, and to execute once all are.
pub proof fn lemma_binds_in_order(parameters: usize, bound: nat)
    requires
        bound <= parameters,
    ensures
        action_after(
            false,
            parameters as nat,
            Phase::Idle,
            events_until_bound(parameters, bound),
        ) == if bound < parameters {
            Action::Bind { position: bound as usize }
        } else {
            Action::Execute
        },
        phase_after(false, parameters as nat, Phase::Idle, events_until_bound(parameters, bound))
            == if bound < parameters {
            Phase::Binding { position: bound as usize }
        } else {
            Phase::Executing
        },
    decreases bound,
{
    let head = seq![Event::Start, Event::Prepared { placeholders: parameters }];
    let events = events_until_bound(parameters, bound);
    if bound == 0 {
        assert(events =~= head);
        assert(head.drop_last() =~= seq![Event::Start]);
        assert(seq![Event::Start].drop_last() =~= Seq::<Event>::empty());
        assert(phase_after(false, parameters as nat, Phase::Idle, Seq::<Event>::empty())
            == Phase::Idle);
        assert(seq![Event::Start].last() == Event::Start);
        assert(phase_after(false, parameters as nat, Phase::Idle, seq![Event::Start])
            == Phase::Preparing);
        assert(head.last() == Event::Prepared { placeholders: parameters });
    } else {
        lemma_binds_in_order(parameters, (bound - 1) as nat);
        assert(events.drop_last() =~= events_until_bound(parameters, (bound - 1) as nat));
        assert(events.last() == Event::Bound);
    }
}

/// Decides, event by event, what the driver is asked to do for one statement.
#[derive(Clone, Debug)]
pub struct Executor {
    schema_only: bool,
    parameters: Vec<String>,
    phase: Phase,
}

impl Executor {
    /// A position that is being bound is the position of a parameter.
    pub closed spec fn wf(&self) -> bool {
        self.phase matches Phase::Binding { position } ==> position < self.parameters.len()
    }

    /// Where the run stands.
    pub closed spec fn spec_phase(&self) -> Phase {
        self.phase
    }

    /// Whether the run is for the schema alone.
    pub closed spec fn spec_schema_only(&self) -> bool {
        self.schema_only
    }

    /// The parameters, in the order of the placeholders.
    pub closed spec fn spec_parameters(&self) -> Seq<Seq<char>> {
        views(self.parameters@)
    }

    /// A run that has not begun. With `schema_only` it will describe the statement
    /// and fetch nothing.
    pub fn new(schema_only: bool, parameters: Vec<String>) -> (e: Executor)
        ensures
            e.wf(),
            e.spec_phase() == Phase::Idle,
            e.spec_schema_only() == schema_only,
            e.spec_parameters() == views(parameters@),
    {
        Executor { schema_only, parameters, phase: Phase::Idle }
    }

    /// Where the run stands.
    pub fn phase(&self) -> (p: Phase)
        ensures
            p == self.spec_phase(),
    {
        self.phase
    }

    /// Whether the run is for the schema alone.
    pub fn schema_only(&self) -> (b: bool)
        ensures
            b == self.spec_schema_only(),
    {
        self.schema_only
    }

    /// The number of parameters.
    pub fn parameter_count(&self) -> (n: usize)
        ensures
            n == self.spec_parameters().len(),
    {
        self.parameters.len()
    }

    /// The parameter for the placeholder at `position`, as it was given.
    pub fn parameter(&self, position: usize) -> (value: Option<&String>)
        ensures
            position < self.spec_parameters().len() ==> value is Some
                && value.unwrap()@ == self.spec_parameters()[position as int],
            position >= self.spec_parameters().len() ==> value is None,
    {
        if position < self.parameters.len() {
            Some(&self.parameters[position])
        } else {
            None
        }
    }

    /// Takes what the driver reported and says what it is asked to do next.
    pub fn step(&mut self, event: Event) -> (action: Action)
        requires
            old(self).wf(),
        ensures
            final(self).wf(),
            final(self).spec_schema_only() == old(self).spec_schema_only(),
            final(self).spec_parameters() == old(self).spec_parameters(),
            (final(self).spec_phase(), action) == transition(
                old(self).spec_schema_only(),
                old(self).spec_parameters().len(),
                old(self).spec_phase(),
                event,
            ),
            action matches Action::Bind { position } ==> position < final(self).spec_parameters().len(),
    {
        let count = self.parameters.len();
        let (phase, action) = match (self.phase, event) {
            (Phase::Idle, Event::Start) => (Phase::Preparing, Action::Prepare),
            (Phase::Preparing, Event::Prepared { placeholders }) => if self.schema_only {
                (Phase::Describing, Action::Describe)
            } else if placeholders != count {
                (
                    Phase::Failed,
                    Action::Fail(QueryError::BindCountMismatch { placeholders, parameters: count }),
                )
            } else if count == 0 {
                (Phase::Executing, Action::Execute)
            } else {
                (Phase::Binding { position: 0 }, Action::Bind { position: 0 })
            },
            (Phase::Preparing, Event::Failure) => (
                Phase::Failed,
                Action::Fail(QueryError::PrepareError),
            ),
            (Phase::Describing, Event::Described) => (Phase::Finished, Action::Finish),
            (Phase::Describing, Event::Failure) => (
                Phase::Failed,
                Action::Fail(QueryError::DescribeError),
            ),
            (Phase::Binding { position }, Event::Bound) => if position + 1 < count {
                (
                    Phase::Binding { position: position + 1 },
                    Action::Bind { position: position + 1 },
                )
            } else {
                (Phase::Executing, Action::Execute)
            },
            (Phase::Binding { position }, Event::Failure) => (
                Phase::Failed,
                Action::Fail(QueryError::BindError),
            ),
            (Phase::Executing, Event::Executed) => (Phase::Fetching, Action::Fetch),
            (Phase::Executing, Event::Failure) => (
                Phase::Failed,
                Action::Fail(QueryError::ExecutionError),
            ),
            (Phase::Fetching, Event::Row) => (Phase::Fetching, Action::Fetch),
            (Phase::Fetching, Event::EndOfRows) => (Phase::Finished, Action::Finish),
            (Phase::Fetching, Event::Failure) => (
                Phase::Failed,
                Action::Fail(QueryError::FetchError),
            ),
            _ => (Phase::Failed, Action::Fail(QueryError::UnexpectedEvent)),
        };
        self.phase = phase;
        action
    }
}

} // verus!
