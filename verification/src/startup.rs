//! Starting the agent: which step follows which, what a failure is reported
//! as, and whether the agent may ask the user questions.

use vstd::prelude::*;

verus! {

/// The environment variable that keeps the agent from asking questions.
pub const DISABLE_ASK_ENV_VAR: &'static str = "DRAMA_DISABLE_ASK";

/// Whether a value of that variable switches questions off: any but an empty
/// one and `0`. A variable that is not set does not.
pub open spec fn switches_ask_off(value: Option<Seq<char>>) -> bool {
    value matches Some(text) && text.len() > 0 && text != "0"@
}

/// The text of an optional string.
pub open spec fn optional_text(value: Option<String>) -> Option<Seq<char>> {
    match value {
        Some(text) => Some(text@),
        None => None,
    }
}

/// Whether questions are switched off, by the variable's value.
pub fn disable_ask_env_var_set(value: &Option<String>) -> (set: bool)
    ensures
        set == switches_ask_off(optional_text(*value)),
{
    match value {
        Some(text) => {
            let zero = "0".to_owned();
            !text.as_str().is_empty() && *text != zero
        },
        None => false,
    }
}

/// What becomes of the feature that lets the agent ask questions in its
/// default mode.
#[derive(Debug, Clone, Copy, PartialEq, Eq)]
pub enum AskFeature {
    /// The configuration's own setting stands.
    AsConfigured,
    /// The feature is to be enabled, whatever the configuration says.
    Enable,
}

/// The feature is enabled unless the variable switches it off.
pub fn apply_default_mode_ask_feature(value: &Option<String>) -> (feature: AskFeature)
    ensures
        feature == (if switches_ask_off(optional_text(*value)) {
            AskFeature::AsConfigured
        } else {
            AskFeature::Enable
        }),
{
    if disable_ask_env_var_set(value) {
        AskFeature::AsConfigured
    } else {
        AskFeature::Enable
    }
}

/// The kind of an error that starting the agent ends with.
#[derive(Debug, Clone, Copy, PartialEq, Eq)]
pub enum StartupErrorKind {
    InvalidInput,
    InvalidData,
    Other,
}

/// An error that starting the agent ends with.
#[derive(Debug, Clone, PartialEq, Eq)]
pub struct StartupError {
    pub kind: StartupErrorKind,
    pub message: String,
}

/// What the start is waiting for.
#[derive(Debug, Clone, Copy, PartialEq, Eq)]
pub enum StartupState {
    ParsingOverrides,
    LoadingConfig,
    CreatingAgent,
    Serving,
    Stopped,
}

/// What happened outside. A failure that is reported with a text of its own
/// brings that text.
#[derive(Debug, Clone, PartialEq, Eq)]
pub enum StartupEvent {
    OverridesParsed,
    OverridesRejected(String),
    /// The configuration is there; so is the value of the variable that
    /// switches questions off.
    ConfigLoaded(Option<String>),
    ConfigRejected(String),
    AgentCreated,
    AgentFailed,
    ServingEnded,
    ServingFailed(String),
}

/// What is to be done next.
#[derive(Debug, Clone, PartialEq, Eq)]
pub enum StartupAction {
    ParseOverrides,
    LoadConfig,
    /// Settle the feature, apply the residency requirement, create the agent.
    CreateAgent(AskFeature),
    Serve,
    Finish,
    Fail(StartupError),
    /// Fail with the error as it came.
    FailUnchanged,
}

/// The action reports a failure of this kind, with `label` and then `detail`
/// as its text.
pub open spec fn reports(
    action: StartupAction,
    kind: StartupErrorKind,
    label: Seq<char>,
    detail: Seq<char>,
) -> bool {
    action matches StartupAction::Fail(error) && error.kind == kind && error.message@ == label
        + detail
}

/// `next` and `action` are what follows `event` in `state`.
pub open spec fn startup_follows(
    state: StartupState,
    event: StartupEvent,
    next: StartupState,
    action: StartupAction,
) -> bool {
    match (state, event) {
        (StartupState::ParsingOverrides, StartupEvent::OverridesParsed) => {
            next == StartupState::LoadingConfig && action == StartupAction::LoadConfig
        },
        (StartupState::ParsingOverrides, StartupEvent::OverridesRejected(detail)) => {
            next == StartupState::Stopped && reports(
                action,
                StartupErrorKind::InvalidInput,
                "error parsing -c overrides: "@,
                detail@,
            )
        },
        (StartupState::LoadingConfig, StartupEvent::ConfigLoaded(variable)) => {
            next == StartupState::CreatingAgent && action == StartupAction::CreateAgent(
                if switches_ask_off(optional_text(variable)) {
                    AskFeature::AsConfigured
                } else {
                    AskFeature::Enable
                },
            )
        },
        (StartupState::LoadingConfig, StartupEvent::ConfigRejected(detail)) => {
            next == StartupState::Stopped && reports(
                action,
                StartupErrorKind::InvalidData,
                "error loading config: "@,
                detail@,
            )
        },
        (StartupState::CreatingAgent, StartupEvent::AgentCreated) => {
            next == StartupState::Serving && action == StartupAction::Serve
        },
        (StartupState::CreatingAgent, StartupEvent::AgentFailed) => {
            next == StartupState::Stopped && action == StartupAction::FailUnchanged
        },
        (StartupState::Serving, StartupEvent::ServingEnded) => {
            next == StartupState::Stopped && action == StartupAction::Finish
        },
        (StartupState::Serving, StartupEvent::ServingFailed(detail)) => {
            next == StartupState::Stopped && reports(
                action,
                StartupErrorKind::Other,
                "ACP error: "@,
                detail@,
            )
        },
        _ => false,
    }
}

/// `event` is one that `state` waits for.
pub open spec fn startup_expects(state: StartupState, event: StartupEvent) -> bool {
    match state {
        StartupState::ParsingOverrides => event is OverridesParsed || event is OverridesRejected,
        StartupState::LoadingConfig => event is ConfigLoaded || event is ConfigRejected,
        StartupState::CreatingAgent => event is AgentCreated || event is AgentFailed,
        StartupState::Serving => event is ServingEnded || event is ServingFailed,
        StartupState::Stopped => false,
    }
}

/// The first state, and the first thing to do.
pub fn begin_startup() -> (first: (StartupState, StartupAction))
    ensures
        first == (StartupState::ParsingOverrides, StartupAction::ParseOverrides),
{
    (StartupState::ParsingOverrides, StartupAction::ParseOverrides)
}

/// A failure with a labelled text.
fn failure(kind: StartupErrorKind, label: &str, detail: &String) -> (action: StartupAction)
    ensures
        reports(action, kind, label@, detail@),
{
    let mut message = label.to_owned();
    message.append(detail.as_str());
    StartupAction::Fail(StartupError { kind, message })
}

/// The state after `event`, and what is to be done then; nothing where `state`
/// does not wait for such an event.
pub fn startup_step(state: StartupState, event: &StartupEvent) -> (step: Option<
    (StartupState, StartupAction),
>)
    ensures
        step is Some == startup_expects(state, *event),
        step matches Some((next, action)) ==> startup_follows(state, *event, next, action),
{
    match (state, event) {
        (StartupState::ParsingOverrides, StartupEvent::OverridesParsed) => Some(
            (StartupState::LoadingConfig, StartupAction::LoadConfig),
        ),
        (StartupState::ParsingOverrides, StartupEvent::OverridesRejected(detail)) => Some(
            (
                StartupState::Stopped,
                failure(StartupErrorKind::InvalidInput, "error parsing -c overrides: ", detail),
            ),
        ),
        (StartupState::LoadingConfig, StartupEvent::ConfigLoaded(variable)) => Some(
            (
                StartupState::CreatingAgent,
                StartupAction::CreateAgent(apply_default_mode_ask_feature(variable)),
            ),
        ),
        (StartupState::LoadingConfig, StartupEvent::ConfigRejected(detail)) => Some(
            (
                StartupState::Stopped,
                failure(StartupErrorKind::InvalidData, "error loading config: ", detail),
            ),
        ),
        (StartupState::CreatingAgent, StartupEvent::AgentCreated) => Some(
            (StartupState::Serving, StartupAction::Serve),
        ),
        (StartupState::CreatingAgent, StartupEvent::AgentFailed) => Some(
            (StartupState::Stopped, StartupAction::FailUnchanged),
        ),
        (StartupState::Serving, StartupEvent::ServingEnded) => Some(
            (StartupState::Stopped, StartupAction::Finish),
        ),
        (StartupState::Serving, StartupEvent::ServingFailed(detail)) => Some(
            (StartupState::Stopped, failure(StartupErrorKind::Other, "ACP error: ", detail)),
        ),
        _ => None,
    }
}

/// How far the start has come.
pub open spec fn startup_progress(state: StartupState) -> nat {
    match state {
        StartupState::ParsingOverrides => 0,
        StartupState::LoadingConfig => 1,
        StartupState::CreatingAgent => 2,
        StartupState::Serving => 3,
        StartupState::Stopped => 4,
    }
}

/// Every event that is waited for brings the start further, so that it ends
/// after four events at the latest; once ended it waits for none.
pub proof fn startup_comes_to_an_end(
    state: StartupState,
    event: StartupEvent,
    next: StartupState,
    action: StartupAction,
)
    requires
        startup_follows(state, event, next, action),
    ensures
        startup_progress(state) < startup_progress(next) <= 4,
        !startup_expects(StartupState::Stopped, event),
{
}

/// A start in which one event follows another, from the first state on:
/// `states[i]` is the state before `events[i]`, and `actions[i]` what is done
/// after it.
pub open spec fn is_startup(
    states: Seq<StartupState>,
    events: Seq<StartupEvent>,
    actions: Seq<StartupAction>,
) -> bool {
    &&& states.len() == events.len() + 1
    &&& actions.len() == events.len()
    &&& states[0] == StartupState::ParsingOverrides
    &&& forall|i: int|
        #![trigger events[i]]
        0 <= i < events.len() ==> startup_follows(
            states[i],
            events[i],
            states[i + 1],
            actions[i],
        )
}

/// A start that has finished without error has gone through every step, in
/// their order: overrides parsed, configuration loaded, agent created, served.
pub proof fn finished_start_went_through_every_step(
    states: Seq<StartupState>,
    events: Seq<StartupEvent>,
    actions: Seq<StartupAction>,
)
    requires
        is_startup(states, events, actions),
        actions.contains(StartupAction::Finish),
    ensures
        events.len() == 4,
        events[0] is OverridesParsed,
        events[1] is ConfigLoaded,
        events[2] is AgentCreated,
        events[3] is ServingEnded,
        actions[3] == StartupAction::Finish,
{
    let last = choose|i: int| 0 <= i < actions.len() && actions[i] == StartupAction::Finish;
    assert(startup_follows(states[last], events[last], states[last + 1], actions[last]));
    startup_position(states, events, actions, last);
    assert(last == 3);
    if events.len() > 4 {
        assert(startup_follows(states[4], events[4], states[5], actions[4]));
    }
    assert(startup_follows(states[0], events[0], states[1], actions[0]));
    assert(startup_follows(states[1], events[1], states[2], actions[1]));
    assert(startup_follows(states[2], events[2], states[3], actions[2]));
}

/// Before it ends, a start has come as far as events have happened.
proof fn startup_position(
    states: Seq<StartupState>,
    events: Seq<StartupEvent>,
    actions: Seq<StartupAction>,
    i: int,
)
    requires
        is_startup(states, events, actions),
        0 <= i < states.len(),
        states[i] != StartupState::Stopped,
    ensures
        startup_progress(states[i]) == i,
    decreases i,
{
    if i > 0 {
        assert(startup_follows(states[i - 1], events[i - 1], states[i], actions[i - 1]));
        startup_position(states, events, actions, i - 1);
    }
}

/// Which values switch questions off: none that is missing, empty or `0`, and
/// every other.
pub proof fn questions_are_off_but_for_empty_and_zero(value: Option<String>)
    ensures
        value is None ==> !switches_ask_off(optional_text(value)),
        value matches Some(text) ==> (switches_ask_off(optional_text(value)) <==> !(text@
            == Seq::<char>::empty() || text@ == "0"@)),
{
    if let Some(text) = value {
        assert(text@.len() == 0 ==> text@ =~= Seq::<char>::empty());
    }
}

/// An event that ends the start at once.
pub open spec fn startup_fails(event: StartupEvent) -> bool {
    event is OverridesRejected || event is ConfigRejected || event is AgentFailed
        || event is ServingFailed
}

/// Parsing and loading. Overrides that parse are followed by loading, a loaded
/// configuration by creating the agent, with questions enabled unless the
/// variable switches them off; a failure of either ends the start with its own
/// kind and its own text before the detail.
pub proof fn start_parses_and_loads(
    states: Seq<StartupState>,
    events: Seq<StartupEvent>,
    actions: Seq<StartupAction>,
)
    requires
        is_startup(states, events, actions),
    ensures
        events.len() > 0 ==> match events[0] {
            StartupEvent::OverridesParsed => actions[0] == StartupAction::LoadConfig,
            StartupEvent::OverridesRejected(detail) => events.len() == 1 && (
            actions[0] matches StartupAction::Fail(error) && error.kind
                == StartupErrorKind::InvalidInput && error.message@
                == "error parsing -c overrides: "@ + detail@),
            _ => false,
        },
        events.len() > 1 ==> match events[1] {
            StartupEvent::ConfigLoaded(None) => actions[1] == StartupAction::CreateAgent(
                AskFeature::Enable,
            ),
            StartupEvent::ConfigLoaded(Some(text)) => actions[1] == StartupAction::CreateAgent(
                if text@ == Seq::<char>::empty() || text@ == "0"@ {
                    AskFeature::Enable
                } else {
                    AskFeature::AsConfigured
                },
            ),
            StartupEvent::ConfigRejected(detail) => events.len() == 2 && (
            actions[1] matches StartupAction::Fail(error) && error.kind
                == StartupErrorKind::InvalidData && error.message@ == "error loading config: "@
                + detail@),
            _ => false,
        },
{
    if events.len() > 0 {
        assert(startup_follows(states[0], events[0], states[1], actions[0]));
    }
    if events.len() > 1 {
        assert(startup_follows(states[1], events[1], states[2], actions[1]));
        if let StartupEvent::ConfigLoaded(value) = events[1] {
            questions_are_off_but_for_empty_and_zero(value);
        }
    }
    if events.len() > 2 {
        assert(startup_follows(states[2], events[2], states[3], actions[2]));
    }
}

/// Creating and serving. A created agent is served, and its end finishes the
/// start; that it cannot be created is reported as it came, and that serving
/// failed with a text before the detail. Nothing follows either.
pub proof fn start_creates_and_serves(
    states: Seq<StartupState>,
    events: Seq<StartupEvent>,
    actions: Seq<StartupAction>,
)
    requires
        is_startup(states, events, actions),
    ensures
        events.len() <= 4,
        events.len() > 2 ==> match events[2] {
            StartupEvent::AgentCreated => actions[2] == StartupAction::Serve,
            StartupEvent::AgentFailed => events.len() == 3 && actions[2]
                == StartupAction::FailUnchanged,
            _ => false,
        },
        events.len() > 3 ==> match events[3] {
            StartupEvent::ServingEnded => actions[3] == StartupAction::Finish,
            StartupEvent::ServingFailed(detail) => actions[3] matches StartupAction::Fail(error)
                && error.kind == StartupErrorKind::Other && error.message@ == "ACP error: "@
                + detail@,
            _ => false,
        },
{
    if events.len() > 0 {
        assert(startup_follows(states[0], events[0], states[1], actions[0]));
    }
    if events.len() > 1 {
        assert(startup_follows(states[1], events[1], states[2], actions[1]));
    }
    if events.len() > 2 {
        assert(startup_follows(states[2], events[2], states[3], actions[2]));
    }
    if events.len() > 3 {
        assert(startup_follows(states[3], events[3], states[4], actions[3]));
    }
    if events.len() > 4 {
        assert(startup_follows(states[4], events[4], states[5], actions[4]));
    }
}

/// What a start waits for: the two outcomes of its next step, as long as nothing
/// has failed, and nothing after a failure or at its end.
pub proof fn start_waits_for_its_next_step(
    states: Seq<StartupState>,
    events: Seq<StartupEvent>,
    actions: Seq<StartupAction>,
    event: StartupEvent,
)
    requires
        is_startup(states, events, actions),
    ensures
        ({
            let failed = events.len() > 0 && startup_fails(events.last());
            startup_expects(states.last(), event) == (!failed && if events.len() == 0 {
                event is OverridesParsed || event is OverridesRejected
            } else if events.len() == 1 {
                event is ConfigLoaded || event is ConfigRejected
            } else if events.len() == 2 {
                event is AgentCreated || event is AgentFailed
            } else if events.len() == 3 {
                event is ServingEnded || event is ServingFailed
            } else {
                false
            })
        }),
{
    start_parses_and_loads(states, events, actions);
    start_creates_and_serves(states, events, actions);
    if events.len() > 0 {
        assert(startup_follows(states[0], events[0], states[1], actions[0]));
    }
    if events.len() > 1 {
        assert(startup_follows(states[1], events[1], states[2], actions[1]));
    }
    if events.len() > 2 {
        assert(startup_follows(states[2], events[2], states[3], actions[2]));
    }
    if events.len() > 3 {
        assert(startup_follows(states[3], events[3], states[4], actions[3]));
    }
}

} // verus!
