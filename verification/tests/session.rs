use agent_client_protocol::{Error, ErrorCode};
use goose::mode::{GooseMode, GooseProvider};
use goose::session::{
    activation_step, build_enabled_extensions_data, fork_session_name, fork_step,
    new_session_step, plan_new_session, plan_session_activation,
    resolve_default_provider_model_config, session_error, session_step_error, start_activation,
    start_new_session, ActivationAction, ActivationEvent, ActivationStage, ExtensionData, ForkAction,
    ForkEvent, ForkStage, NewSessionAction, NewSessionEvent, NewSessionStage, SessionStep,
    SessionType,
};

fn internal(data: &str) -> Error {
    Error::internal_error().data(data.to_string())
}

fn assert_internal(error: &Error, data: &str) {
    assert_eq!(error.code, ErrorCode::INTERNAL_ERROR);
    assert_eq!(error.message, "Internal error");
    assert_eq!(error.data, Some(serde_json::Value::String(data.to_string())));
}

#[test]
fn fork_names_append_copy() {
    assert_eq!(fork_session_name("Plan trip"), "Plan trip (copy)");
    assert_eq!(fork_session_name(""), "(copy)");
    assert_eq!(fork_session_name(" \t\u{00A0}\n"), "(copy)");
    assert_eq!(fork_session_name(" x "), " x  (copy)");
}

#[test]
fn new_sessions_follow_the_client_and_configured_mode() {
    let plan = plan_new_session(Some("p1".to_string()), Some("zed".to_string()), None);
    assert_eq!(plan.name, "New Chat");
    assert_eq!(plan.session_type, SessionType::User);
    assert_eq!(plan.mode, GooseMode::Auto);
    assert_eq!(plan.project_id, Some("p1".to_string()));

    let plan = plan_new_session(None, None, Some(GooseMode::Chat));
    assert_eq!(plan.session_type, SessionType::Acp);
    assert_eq!(plan.mode, GooseMode::Chat);
    assert_eq!(plan.project_id, None);
}

#[test]
fn resolving_defaults_reports_the_first_failure() {
    let ok = resolve_default_provider_model_config(
        Ok("openai".to_string()),
        || Ok("gpt-4o".to_string()),
        |p: &String, m: &String| Ok::<String, String>(format!("{p}/{m}")),
    );
    assert_eq!(ok.unwrap(), ("openai".to_string(), "openai/gpt-4o".to_string()));

    let no_provider = resolve_default_provider_model_config(
        Err("GOOSE_PROVIDER not set".to_string()),
        || -> Result<String, String> { panic!("the model is not looked up without a provider") },
        |_: &String, _: &String| Ok::<u8, String>(0),
    );
    assert_internal(&no_provider.unwrap_err(), "Failed to resolve provider: GOOSE_PROVIDER not set");

    let no_model = resolve_default_provider_model_config(
        Ok("openai".to_string()),
        || Err("GOOSE_MODEL not set".to_string()),
        |_: &String, _: &String| Ok::<u8, String>(0),
    );
    assert_internal(&no_model.unwrap_err(), "Failed to resolve model: GOOSE_MODEL not set");

    let bad_config = resolve_default_provider_model_config(
        Ok("openai".to_string()),
        || Ok("gpt-4o".to_string()),
        |_: &String, _: &String| Err::<u8, String>("bad limit".to_string()),
    );
    assert_internal(&bad_config.unwrap_err(), "Failed to resolve model: bad limit");
}

#[test]
fn session_errors_name_the_failed_step() {
    assert_internal(&session_step_error(SessionStep::Create, "disk full"), "Failed to create session: disk full");
    assert_internal(&session_step_error(SessionStep::Update, "gone"), "Failed to update session: gone");
    assert_internal(&session_step_error(SessionStep::Reload, "x"), "Failed to reload session: x");
    assert_internal(&session_step_error(SessionStep::InitializeExtensions, "bad"), "Failed to initialize session extensions: bad");
    assert_internal(&session_error("no such session"), "no such session");
    assert_eq!(session_error("a"), internal("a"));
}

fn record(extensions: Vec<String>) -> Result<String, String> {
    Ok(extensions.join(","))
}

#[test]
fn enabled_extensions_are_recorded() {
    let data = ExtensionData {
        enabled_extensions: Some("old".to_string()),
        other_states: vec![("todo.v0".to_string(), "{}".to_string())],
    };
    let built =
        build_enabled_extensions_data(Ok(vec!["dev".to_string(), "mem".to_string()]), data, record)
            .unwrap();
    assert_eq!(built.enabled_extensions, Some("dev,mem".to_string()));
    assert_eq!(built.other_states, vec![("todo.v0".to_string(), "{}".to_string())]);

    let data: ExtensionData<String> = ExtensionData { enabled_extensions: None, other_states: vec![] };
    let failed = build_enabled_extensions_data(Err(internal("no config")), data, record);
    assert_internal(&failed.err().unwrap(), "no config");

    let data: ExtensionData<String> = ExtensionData { enabled_extensions: None, other_states: vec![] };
    let unrecorded = build_enabled_extensions_data(
        Ok(vec!["dev".to_string()]),
        data,
        |_: Vec<String>| Err::<String, String>("key must be a string".to_string()),
    );
    assert_internal(
        &unrecorded.err().unwrap(),
        "Failed to initialize session extensions: key must be a string",
    );
}

#[test]
fn activation_rewrites_only_what_is_missing() {
    let nothing = plan_session_activation(false, true, true, false, true);
    assert!(!nothing.set_working_dir && !nothing.resolve_provider_and_model && !nothing.rebuild_extensions);
    let (stage, action) = start_activation::<u8, String>(nothing);
    assert!(matches!(stage, ActivationStage::Finished));
    assert!(matches!(action, ActivationAction::KeepSession));

    let moved = plan_session_activation(true, true, true, false, true);
    let (stage, action) = start_activation::<u8, String>(moved);
    assert!(matches!(stage, ActivationStage::Applying));
    match action {
        ActivationAction::Apply(update) => {
            assert!(update.set_working_dir);
            assert!(update.provider_and_model.is_none());
            assert!(update.extension_data.is_none());
        }
        _ => panic!("expected a rewrite"),
    }
    let (stage, action) = activation_step::<u8, String>(stage, ActivationEvent::Applied(Ok(())));
    assert!(matches!(stage, ActivationStage::Reloading));
    assert!(matches!(action, ActivationAction::Reload));
    let (stage, action) = activation_step::<u8, String>(stage, ActivationEvent::Reloaded(Ok(())));
    assert!(matches!(stage, ActivationStage::Finished));
    assert!(matches!(action, ActivationAction::UseReloadedSession));

    let with_servers = plan_session_activation(false, true, false, true, true);
    assert!(with_servers.resolve_provider_and_model);
    assert!(with_servers.rebuild_extensions);
}

#[test]
fn activation_of_a_fresh_session_resolves_and_builds() {
    let fresh = plan_session_activation(false, false, true, false, false);
    assert!(fresh.resolve_provider_and_model);
    assert!(fresh.rebuild_extensions);
    let (stage, action) = start_activation::<u8, String>(fresh);
    assert!(matches!(action, ActivationAction::ResolveDefaults));
    let (stage, action) = activation_step::<u8, String>(
        stage,
        ActivationEvent::DefaultsResolved(Ok(("openai".to_string(), 7u8))),
    );
    assert!(matches!(action, ActivationAction::BuildExtensions));
    let data = ExtensionData { enabled_extensions: Some("dev".to_string()), other_states: vec![] };
    let (stage, action) = activation_step::<u8, String>(stage, ActivationEvent::ExtensionsBuilt(Ok(data)));
    assert!(matches!(stage, ActivationStage::Applying));
    match action {
        ActivationAction::Apply(update) => {
            assert!(!update.set_working_dir);
            assert_eq!(update.provider_and_model, Some(("openai".to_string(), 7u8)));
            assert_eq!(update.extension_data.unwrap().enabled_extensions, Some("dev".to_string()));
        }
        _ => panic!("expected a rewrite"),
    }
    let (_, action) = activation_step::<u8, String>(ActivationStage::Applying, ActivationEvent::Applied(Err("locked".to_string())));
    match action {
        ActivationAction::Fail(e) => assert_internal(&e, "Failed to update session: locked"),
        _ => panic!("expected a failure"),
    }
    let (_, action) = activation_step::<u8, String>(ActivationStage::Reloading, ActivationEvent::Reloaded(Err("gone".to_string())));
    match action {
        ActivationAction::Fail(e) => assert_internal(&e, "Failed to reload session: gone"),
        _ => panic!("expected a failure"),
    }
    let (stage, action) = start_activation::<u8, String>(fresh);
    let (stage, action2) = activation_step::<u8, String>(stage, ActivationEvent::DefaultsResolved(Err(internal("no provider"))));
    assert!(matches!(action, ActivationAction::ResolveDefaults));
    assert!(matches!(stage, ActivationStage::Finished));
    match action2 {
        ActivationAction::Fail(e) => assert_internal(&e, "no provider"),
        _ => panic!("expected a failure"),
    }
}

#[test]
fn forking_copies_under_a_marked_name() {
    let (stage, action) = fork_step(ForkStage::CheckingCwd, ForkEvent::CwdChecked(Ok(())));
    assert_eq!(stage, ForkStage::LoadingSource);
    assert!(matches!(action, ForkAction::LoadSource));
    let (stage, action) = fork_step(stage, ForkEvent::SourceLoaded(Ok("Notes".to_string())));
    assert_eq!(stage, ForkStage::Copying);
    assert!(matches!(action, ForkAction::CopySession(ref n) if n == "Notes (copy)"));
    let (stage, action) = fork_step(stage, ForkEvent::Copied(Ok("s2".to_string())));
    assert_eq!(stage, ForkStage::LoadingFork);
    assert!(matches!(action, ForkAction::LoadFork(ref id) if id == "s2"));
    let (stage, action) = fork_step(stage, ForkEvent::ForkLoaded(Ok(())));
    assert!(matches!(action, ForkAction::Prepare));
    let (stage, action) = fork_step(stage, ForkEvent::Prepared(Ok(())));
    assert!(matches!(action, ForkAction::Activate));
    let (stage, action) = fork_step(stage, ForkEvent::Activated(Ok(())));
    assert!(matches!(action, ForkAction::BuildModeState));
    let (stage, action) = fork_step(stage, ForkEvent::ModeStateBuilt(Ok(())));
    assert!(matches!(action, ForkAction::LoadSessionConfig));
    let (stage, action) = fork_step(stage, ForkEvent::SessionConfigLoaded);
    assert_eq!(stage, ForkStage::SendingCommands);
    assert!(matches!(action, ForkAction::SendCommands));
    let (stage, action) = fork_step(stage, ForkEvent::CommandsSent(Ok(())));
    assert_eq!(stage, ForkStage::Finished);
    assert!(matches!(action, ForkAction::Respond));
}

#[test]
fn forking_stops_at_the_first_failure() {
    let (stage, action) = fork_step(ForkStage::LoadingSource, ForkEvent::SourceLoaded(Err("not found".to_string())));
    assert_eq!(stage, ForkStage::Finished);
    match action {
        ForkAction::Fail(e) => assert_internal(&e, "not found"),
        _ => panic!("expected a failure"),
    }
    let (_, action) = fork_step(ForkStage::CheckingCwd, ForkEvent::CwdChecked(Err(Error::invalid_params())));
    match action {
        ForkAction::Fail(e) => assert_eq!(e, Error::invalid_params()),
        _ => panic!("expected a failure"),
    }
    let (_, action) = fork_step(ForkStage::Copying, ForkEvent::Copied(Err("disk".to_string())));
    assert!(matches!(action, ForkAction::Fail(ref e) if *e == internal("disk")));
    let (_, action) = fork_step(ForkStage::Activating, ForkEvent::Activated(Err(internal("boom"))));
    assert!(matches!(action, ForkAction::Fail(ref e) if *e == internal("boom")));
    let (_, action) = fork_step(ForkStage::BuildingModeState, ForkEvent::ModeStateBuilt(Err(internal("mode"))));
    assert!(matches!(action, ForkAction::Fail(ref e) if *e == internal("mode")));
    let (stage, action) = fork_step(ForkStage::SendingCommands, ForkEvent::CommandsSent(Err(internal("closed"))));
    assert_eq!(stage, ForkStage::Finished);
    assert!(matches!(action, ForkAction::Fail(ref e) if *e == internal("closed")));
}

#[test]
fn new_sessions_are_created_updated_and_reloaded() {
    let stage = start_new_session(Some("proj".to_string()), None, Some(GooseMode::SmartApprove));
    let (stage, action) = new_session_step(stage, NewSessionEvent::CwdChecked(Ok(())));
    match action {
        NewSessionAction::Create(name, session_type, mode) => {
            assert_eq!(name, "New Chat");
            assert_eq!(session_type, SessionType::Acp);
            assert_eq!(mode, GooseMode::SmartApprove);
        }
        _ => panic!("expected a creation"),
    }
    let (stage, action) = new_session_step(stage, NewSessionEvent::Created(Ok("s9".to_string())));
    match action {
        NewSessionAction::Update(id, project) => {
            assert_eq!(id, "s9");
            assert_eq!(project, Some("proj".to_string()));
        }
        _ => panic!("expected an update"),
    }
    let (stage, action) = new_session_step(stage, NewSessionEvent::Updated(Ok(())));
    assert!(matches!(action, NewSessionAction::Reload(ref id) if id == "s9"));
    let (stage, action) = new_session_step(stage, NewSessionEvent::Reloaded(Ok(())));
    assert!(matches!(stage, NewSessionStage::PreparingInitState));
    assert!(matches!(action, NewSessionAction::PrepareInitState));
    let (stage, action) = new_session_step(stage, NewSessionEvent::InitStatePrepared(Err(internal("no agent"))));
    assert!(matches!(stage, NewSessionStage::Finished));
    assert!(matches!(action, NewSessionAction::Fail(ref e) if *e == internal("no agent")));
}

#[test]
fn new_session_failures_name_the_step() {
    let (_, action) = new_session_step(NewSessionStage::Creating(None), NewSessionEvent::Created(Err("db".to_string())));
    assert!(matches!(action, NewSessionAction::Fail(ref e) if *e == internal("Failed to create session: db")));
    let (_, action) = new_session_step(NewSessionStage::Updating("s".to_string()), NewSessionEvent::Updated(Err("db".to_string())));
    assert!(matches!(action, NewSessionAction::Fail(ref e) if *e == internal("Failed to update session: db")));
    let (_, action) = new_session_step(NewSessionStage::Reloading, NewSessionEvent::Reloaded(Err("db".to_string())));
    assert!(matches!(action, NewSessionAction::Fail(ref e) if *e == internal("Failed to reload session: db")));
    let stage = start_new_session(None, Some("zed".to_string()), None);
    let (_, action) = new_session_step(stage, NewSessionEvent::CwdChecked(Err(Error::invalid_params())));
    assert!(matches!(action, NewSessionAction::Fail(ref e) if *e == Error::invalid_params()));
}

struct Quiet;
impl GooseProvider for Quiet {}

#[test]
fn providers_accept_mode_changes_by_default() {
    assert!(Quiet.update_mode("s1", GooseMode::Approve).is_ok());
    assert_eq!(GooseMode::default(), GooseMode::Auto);
}
