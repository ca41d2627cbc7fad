use codex_acp::startup::{
    apply_default_mode_ask_feature, begin_startup, disable_ask_env_var_set, startup_step, AskFeature,
    StartupAction, StartupError, StartupErrorKind, StartupEvent,
    StartupState, DISABLE_ASK_ENV_VAR,
};

fn value(text: &str) -> Option<String> {
    Some(text.to_string())
}

#[test]
fn questions_are_switched_off_by_any_value_but_empty_and_zero() {
    assert_eq!(DISABLE_ASK_ENV_VAR, "DRAMA_DISABLE_ASK");
    assert!(!disable_ask_env_var_set(&None));
    assert!(!disable_ask_env_var_set(&value("")));
    assert!(!disable_ask_env_var_set(&value("0")));
    assert!(disable_ask_env_var_set(&value("1")));
    assert!(disable_ask_env_var_set(&value("00")));
    assert!(disable_ask_env_var_set(&value("false")));
    assert!(disable_ask_env_var_set(&value(" ")));
}

#[test]
fn feature_is_enabled_unless_switched_off() {
    assert_eq!(apply_default_mode_ask_feature(&None), AskFeature::Enable);
    assert_eq!(apply_default_mode_ask_feature(&value("0")), AskFeature::Enable);
    assert_eq!(apply_default_mode_ask_feature(&value("1")), AskFeature::AsConfigured);
}

#[test]
fn start_goes_through_its_steps() {
    let (state, action) = begin_startup();
    assert_eq!(action, StartupAction::ParseOverrides);
    let (state, action) = startup_step(state, &StartupEvent::OverridesParsed).unwrap();
    assert_eq!(action, StartupAction::LoadConfig);
    let (state, action) = startup_step(state, &StartupEvent::ConfigLoaded(None)).unwrap();
    assert_eq!(action, StartupAction::CreateAgent(AskFeature::Enable));
    let (state, action) = startup_step(state, &StartupEvent::AgentCreated).unwrap();
    assert_eq!(action, StartupAction::Serve);
    let (state, action) = startup_step(state, &StartupEvent::ServingEnded).unwrap();
    assert_eq!(action, StartupAction::Finish);
    assert_eq!(state, StartupState::Stopped);
}

#[test]
fn switched_off_questions_leave_the_feature_alone() {
    let step = startup_step(StartupState::LoadingConfig, &StartupEvent::ConfigLoaded(value("1")));
    assert_eq!(
        step,
        Some((
            StartupState::CreatingAgent,
            StartupAction::CreateAgent(AskFeature::AsConfigured)
        ))
    );
}

#[test]
fn failures_are_reported_by_their_step() {
    let failed = |kind, message: &str| {
        Some((
            StartupState::Stopped,
            StartupAction::Fail(StartupError { kind, message: message.to_string() }),
        ))
    };
    assert_eq!(
        startup_step(
            StartupState::ParsingOverrides,
            &StartupEvent::OverridesRejected("no `=`".to_string())
        ),
        failed(StartupErrorKind::InvalidInput, "error parsing -c overrides: no `=`")
    );
    assert_eq!(
        startup_step(
            StartupState::LoadingConfig,
            &StartupEvent::ConfigRejected("bad toml".to_string())
        ),
        failed(StartupErrorKind::InvalidData, "error loading config: bad toml")
    );
    assert_eq!(
        startup_step(StartupState::Serving, &StartupEvent::ServingFailed("closed".to_string())),
        failed(StartupErrorKind::Other, "ACP error: closed")
    );
    assert_eq!(
        startup_step(StartupState::CreatingAgent, &StartupEvent::AgentFailed),
        Some((StartupState::Stopped, StartupAction::FailUnchanged))
    );
}

#[test]
fn events_out_of_turn_are_refused() {
    assert_eq!(startup_step(StartupState::ParsingOverrides, &StartupEvent::AgentCreated), None);
    assert_eq!(startup_step(StartupState::LoadingConfig, &StartupEvent::OverridesParsed), None);
    assert_eq!(startup_step(StartupState::Serving, &StartupEvent::AgentFailed), None);
    assert_eq!(startup_step(StartupState::Stopped, &StartupEvent::ServingEnded), None);
}
