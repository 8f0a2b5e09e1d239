//! Decisions taken when an agent-client-protocol session is created, forked
//! or made ready for use: which defaults a session gets, which of its
//! settings must be rewritten, and the internal errors reported when a
//! default cannot be resolved.
use vstd::prelude::*;
use crate::mode::GooseMode;
use crate::text::{is_blank, is_blank_text};

verus! {

#[verifier::external_type_specification]
#[verifier::external_body]
pub struct ExProtocolError(agent_client_protocol::Error);

/// The protocol's internal error (code -32603, message "Internal error")
/// whose data is the given text.
pub uninterp spec fn internal_error_with(data: Seq<char>) -> agent_client_protocol::Error;

/// `agent_client_protocol::Error::internal_error()` with its data set to the
/// text (`Error::data`). The result depends on the text alone.
#[verifier::external_body]
fn internal_error(data: String) -> (e: agent_client_protocol::Error)
    ensures
        e == internal_error_with(data@),
{
    agent_client_protocol::Error::internal_error().data(data)
}

/// An internal error whose data is the prefix followed by the cause.
pub fn internal_error_prefixed(prefix: &str, cause: &str) -> (e: agent_client_protocol::Error)
    ensures
        e == internal_error_with(prefix@ + cause@),
{
    let mut data = String::from_str(prefix);
    data.append(cause);
    internal_error(data)
}

/// A session store operation that a request handler waits for.
#[derive(Debug, Clone, Copy, PartialEq, Eq, Structural)]
pub enum SessionStep {
    Create,
    Update,
    Reload,
    InitializeExtensions,
}

/// What the error of a failed session store operation says happened.
pub open spec fn step_failure(step: SessionStep) -> Seq<char> {
    match step {
        SessionStep::Create => "Failed to create session"@,
        SessionStep::Update => "Failed to update session"@,
        SessionStep::Reload => "Failed to reload session"@,
        SessionStep::InitializeExtensions => "Failed to initialize session extensions"@,
    }
}

/// The internal error for a failed session store operation: what failed,
/// a colon, a space and the cause.
pub fn session_step_error(step: SessionStep, cause: &str) -> (e: agent_client_protocol::Error)
    ensures
        e == internal_error_with(step_failure(step) + ": "@ + cause@),
{
    let mut data = match step {
        SessionStep::Create => String::from_str("Failed to create session"),
        SessionStep::Update => String::from_str("Failed to update session"),
        SessionStep::Reload => String::from_str("Failed to reload session"),
        SessionStep::InitializeExtensions => String::from_str(
            "Failed to initialize session extensions",
        ),
    };
    data.append(": ");
    data.append(cause);
    internal_error(data)
}

/// The internal error that reports a cause as it is.
pub fn session_error(cause: &str) -> (e: agent_client_protocol::Error)
    ensures
        e == internal_error_with(cause@),
{
    internal_error(String::from_str(cause))
}

/// Resolves the provider and model that a session gets when it has none:
/// the configured provider, then the configured model (looked up only once
/// the provider is known), then the model configuration made from both.
/// The first failure is reported as an internal error naming what could
/// not be resolved.
pub fn resolve_default_provider_model_config<M, G, F>(
    provider_lookup: Result<String, String>,
    model_lookup: G,
    model_config_for: F,
) -> (r: Result<(String, M), agent_client_protocol::Error>) where
    G: FnOnce() -> Result<String, String>,
    F: FnOnce(&String, &String) -> Result<M, String>,

    requires
        call_requires(model_lookup, ()),
        forall|p: &String, m: &String| call_requires(model_config_for, (p, m)),
    ensures
        match provider_lookup {
            Err(e) => r == Err::<(String, M), _>(
                internal_error_with("Failed to resolve provider: "@ + e@),
            ),
            Ok(p) => exists|lookup: Result<String, String>|
                #[trigger] call_ensures(model_lookup, (), lookup) && match lookup {
                    Err(e) => r == Err::<(String, M), _>(
                        internal_error_with("Failed to resolve model: "@ + e@),
                    ),
                    Ok(m) => exists|c: Result<M, String>|
                        #[trigger] call_ensures(model_config_for, (&p, &m), c) && match c {
                            Ok(config) => r == Ok::<_, agent_client_protocol::Error>((p, config)),
                            Err(e) => r == Err::<(String, M), _>(
                                internal_error_with("Failed to resolve model: "@ + e@),
                            ),
                        },
                },
        },
{
    let provider = match provider_lookup {
        Ok(p) => p,
        Err(e) => {
            return Err(internal_error_prefixed("Failed to resolve provider: ", e.as_str()));
        },
    };
    let lookup = model_lookup();
    let model = match lookup {
        Ok(m) => m,
        Err(e) => {
            return Err(internal_error_prefixed("Failed to resolve model: ", e.as_str()));
        },
    };
    let config = model_config_for(&provider, &model);
    match config {
        Ok(c) => Ok((provider, c)),
        Err(e) => Err(internal_error_prefixed("Failed to resolve model: ", e.as_str())),
    }
}

/// The per-extension state recorded in a session; `S` is the recorded
/// (serialized) form of the enabled extensions.
pub struct ExtensionData<S> {
    /// The enabled extensions, once they have been recorded.
    pub enabled_extensions: Option<S>,
    /// What other extensions recorded, by key, as serialized text.
    pub other_states: Vec<(String, String)>,
}

/// The session's extension data with the given extensions recorded as the
/// enabled ones. A failure to work out the extensions is passed on; a
/// failure to record them is an internal error saying that the session's
/// extensions could not be initialized.
pub fn build_enabled_extensions_data<E, S, F>(
    extensions: Result<Vec<E>, agent_client_protocol::Error>,
    extension_data: ExtensionData<S>,
    record: F,
) -> (r: Result<ExtensionData<S>, agent_client_protocol::Error>) where
    F: FnOnce(Vec<E>) -> Result<S, String>,

    requires
        forall|v: Vec<E>| call_requires(record, (v,)),
    ensures
        match extensions {
            Err(e) => r == Err::<ExtensionData<S>, _>(e),
            Ok(v) => exists|recorded: Result<S, String>|
                #[trigger] call_ensures(record, (v,), recorded) && match recorded {
                    Ok(state) => r matches Ok(d) && d.enabled_extensions == Some(state)
                        && d.other_states == extension_data.other_states,
                    Err(cause) => r == Err::<ExtensionData<S>, _>(
                        internal_error_with(
                            step_failure(SessionStep::InitializeExtensions) + ": "@ + cause@,
                        ),
                    ),
                },
        },
{
    let extensions = match extensions {
        Ok(v) => v,
        Err(e) => return Err(e),
    };
    let recorded = record(extensions);
    match recorded {
        Ok(state) => {
            let mut data = extension_data;
            data.enabled_extensions = Some(state);
            Ok(data)
        },
        Err(cause) => Err(session_step_error(SessionStep::InitializeExtensions, cause.as_str())),
    }
}

/// Which settings of a session must be rewritten before it is used.
#[derive(Debug, Clone, Copy)]
pub struct ActivationPlan {
    /// The client works in another directory than the session recorded.
    pub set_working_dir: bool,
    /// The session lacks a provider or a model configuration.
    pub resolve_provider_and_model: bool,
    /// The client brought MCP servers, or no enabled extensions are recorded.
    pub rebuild_extensions: bool,
}

pub open spec fn needs_update(plan: ActivationPlan) -> bool {
    plan.set_working_dir || plan.resolve_provider_and_model || plan.rebuild_extensions
}

/// Decides what must change in a session before it is activated.
pub fn plan_session_activation(
    working_dir_differs: bool,
    has_provider_name: bool,
    has_model_config: bool,
    has_mcp_servers: bool,
    has_enabled_extensions: bool,
) -> (p: ActivationPlan)
    ensures
        p.set_working_dir == working_dir_differs,
        p.resolve_provider_and_model == (!has_provider_name || !has_model_config),
        p.rebuild_extensions == (has_mcp_servers || !has_enabled_extensions),
{
    ActivationPlan {
        set_working_dir: working_dir_differs,
        resolve_provider_and_model: !has_provider_name || !has_model_config,
        rebuild_extensions: has_mcp_servers || !has_enabled_extensions,
    }
}

/// The rewrite applied to a session before it is activated.
pub struct SessionUpdate<M, E> {
    /// Record the client's working directory.
    pub set_working_dir: bool,
    pub provider_and_model: Option<(String, M)>,
    pub extension_data: Option<ExtensionData<E>>,
}

/// Where the activation of a session stands.
pub enum ActivationStage<M> {
    /// Waiting for the default provider and model.
    Resolving(ActivationPlan),
    /// Waiting for the extension data, with the defaults resolved so far.
    Building(ActivationPlan, Option<(String, M)>),
    /// Waiting for the session store to apply the rewrite.
    Applying,
    /// Waiting for the rewritten session to be reloaded.
    Reloading,
    Finished,
}

/// What the handler learned while activating a session.
pub enum ActivationEvent<M, E> {
    DefaultsResolved(Result<(String, M), agent_client_protocol::Error>),
    ExtensionsBuilt(Result<ExtensionData<E>, agent_client_protocol::Error>),
    Applied(Result<(), String>),
    Reloaded(Result<(), String>),
}

/// What the handler does next.
pub enum ActivationAction<M, E> {
    /// Resolve the default provider and model.
    ResolveDefaults,
    /// Work out the extension data of the session.
    BuildExtensions,
    /// Have the session store apply this rewrite.
    Apply(SessionUpdate<M, E>),
    /// Reload the session, with its messages when the caller asked for them.
    Reload,
    /// Use the session as it was given.
    KeepSession,
    /// Use the reloaded session.
    UseReloadedSession,
    /// Answer the client with this error.
    Fail(agent_client_protocol::Error),
}

/// What activation does next, given what has been worked out so far: the
/// first of the defaults and the extension data that the plan asks for and
/// that is still missing; once nothing is missing, the rewrite when the
/// plan found anything to change, else nothing.
pub open spec fn activation_pending<M, E>(
    plan: ActivationPlan,
    provider_and_model: Option<(String, M)>,
    extension_data: Option<ExtensionData<E>>,
) -> (ActivationStage<M>, ActivationAction<M, E>) {
    if plan.resolve_provider_and_model && provider_and_model is None {
        (ActivationStage::Resolving(plan), ActivationAction::ResolveDefaults)
    } else if plan.rebuild_extensions && extension_data is None {
        (ActivationStage::Building(plan, provider_and_model), ActivationAction::BuildExtensions)
    } else if needs_update(plan) {
        (
            ActivationStage::Applying,
            ActivationAction::Apply(
                SessionUpdate {
                    set_working_dir: plan.set_working_dir,
                    provider_and_model,
                    extension_data,
                },
            ),
        )
    } else {
        (ActivationStage::Finished, ActivationAction::KeepSession)
    }
}

/// Activation first resolves the defaults when the plan asks for them and
/// they are missing, then builds the extension data when the plan asks for
/// it and it is missing; with nothing missing it rewrites the session with
/// what was worked out when the working directory differs or anything was
/// to be resolved or rebuilt, and otherwise keeps the session as it is.
pub proof fn lemma_activation_order<M, E>(
    plan: ActivationPlan,
    provider_and_model: Option<(String, M)>,
    extension_data: Option<ExtensionData<E>>,
)
    ensures
        ({
            let r = activation_pending::<M, E>(plan, provider_and_model, extension_data);
            &&& plan.resolve_provider_and_model && provider_and_model is None ==> r == (
                ActivationStage::<M>::Resolving(plan),
                ActivationAction::<M, E>::ResolveDefaults,
            )
            &&& !(plan.resolve_provider_and_model && provider_and_model is None)
                && plan.rebuild_extensions && extension_data is None ==> r == (
                ActivationStage::<M>::Building(plan, provider_and_model),
                ActivationAction::<M, E>::BuildExtensions,
            )
            &&& (plan.resolve_provider_and_model ==> provider_and_model is Some) && (
            plan.rebuild_extensions ==> extension_data is Some) ==> (if plan.set_working_dir
                || plan.resolve_provider_and_model || plan.rebuild_extensions {
                r == (
                    ActivationStage::<M>::Applying,
                    ActivationAction::<M, E>::Apply(
                        SessionUpdate {
                            set_working_dir: plan.set_working_dir,
                            provider_and_model,
                            extension_data,
                        },
                    ),
                )
            } else {
                r == (ActivationStage::<M>::Finished, ActivationAction::<M, E>::KeepSession)
            })
        }),
{
}

fn advance_activation<M, E>(
    plan: ActivationPlan,
    provider_and_model: Option<(String, M)>,
    extension_data: Option<ExtensionData<E>>,
) -> (r: (ActivationStage<M>, ActivationAction<M, E>))
    ensures
        r == activation_pending(plan, provider_and_model, extension_data),
{
    if plan.resolve_provider_and_model && provider_and_model.is_none() {
        (ActivationStage::Resolving(plan), ActivationAction::ResolveDefaults)
    } else if plan.rebuild_extensions && extension_data.is_none() {
        (ActivationStage::Building(plan, provider_and_model), ActivationAction::BuildExtensions)
    } else if plan.set_working_dir || plan.resolve_provider_and_model || plan.rebuild_extensions {
        (
            ActivationStage::Applying,
            ActivationAction::Apply(
                SessionUpdate {
                    set_working_dir: plan.set_working_dir,
                    provider_and_model,
                    extension_data,
                },
            ),
        )
    } else {
        (ActivationStage::Finished, ActivationAction::KeepSession)
    }
}

/// The first step of activating a session with the given plan.
pub fn start_activation<M, E>(plan: ActivationPlan) -> (r: (ActivationStage<M>, ActivationAction<M, E>))
    ensures
        r == activation_pending::<M, E>(plan, None, None),
{
    advance_activation(plan, None, None)
}

/// The event is the one the stage waits for.
pub open spec fn activation_expects<M, E>(stage: ActivationStage<M>, event: ActivationEvent<M, E>) -> bool {
    match stage {
        ActivationStage::Resolving(_) => event is DefaultsResolved,
        ActivationStage::Building(_, _) => event is ExtensionsBuilt,
        ActivationStage::Applying => event is Applied,
        ActivationStage::Reloading => event is Reloaded,
        ActivationStage::Finished => false,
    }
}

/// One step of activating a session: a failure to resolve the defaults or
/// to build the extension data is passed on; a failure of the session
/// store becomes an internal error naming the step; otherwise the session
/// is rewritten when the plan found anything to change and then reloaded.
pub open spec fn activation_next<M, E>(stage: ActivationStage<M>, event: ActivationEvent<M, E>) -> (
    ActivationStage<M>,
    ActivationAction<M, E>,
) {
    match (stage, event) {
        (ActivationStage::Resolving(plan), ActivationEvent::DefaultsResolved(Ok(d))) => activation_pending(
            plan,
            Some(d),
            None,
        ),
        (ActivationStage::Building(plan, d), ActivationEvent::ExtensionsBuilt(Ok(x))) => activation_pending(
            plan,
            d,
            Some(x),
        ),
        (_, ActivationEvent::DefaultsResolved(Err(e))) => (
            ActivationStage::Finished,
            ActivationAction::Fail(e),
        ),
        (_, ActivationEvent::ExtensionsBuilt(Err(e))) => (
            ActivationStage::Finished,
            ActivationAction::Fail(e),
        ),
        (_, ActivationEvent::Applied(Err(c))) => (
            ActivationStage::Finished,
            ActivationAction::Fail(
                internal_error_with(step_failure(SessionStep::Update) + ": "@ + c@),
            ),
        ),
        (_, ActivationEvent::Applied(Ok(()))) => (ActivationStage::Reloading, ActivationAction::Reload),
        (_, ActivationEvent::Reloaded(Err(c))) => (
            ActivationStage::Finished,
            ActivationAction::Fail(
                internal_error_with(step_failure(SessionStep::Reload) + ": "@ + c@),
            ),
        ),
        (_, ActivationEvent::Reloaded(Ok(()))) => (
            ActivationStage::Finished,
            ActivationAction::UseReloadedSession,
        ),
        _ => (ActivationStage::Finished, ActivationAction::KeepSession),
    }
}

/// A failure ends activation, and only a failure answers with an error: a
/// failure to resolve the defaults or to build the extension data is
/// passed on as it came, a failure to apply the rewrite or to reload names
/// that step and its cause. The session is never kept as it was after an
/// event of the rewrite, and after an applied rewrite it is reloaded.
pub proof fn lemma_activation_failures_end_it<M, E>(stage: ActivationStage<M>, event: ActivationEvent<M, E>)
    requires
        activation_expects(stage, event),
    ensures
        match event {
            ActivationEvent::DefaultsResolved(Err(e)) => activation_next(stage, event) == (
                ActivationStage::<M>::Finished,
                ActivationAction::<M, E>::Fail(e),
            ),
            ActivationEvent::ExtensionsBuilt(Err(e)) => activation_next(stage, event) == (
                ActivationStage::<M>::Finished,
                ActivationAction::<M, E>::Fail(e),
            ),
            ActivationEvent::Applied(Err(c)) => activation_next(stage, event) == (
                ActivationStage::<M>::Finished,
                ActivationAction::<M, E>::Fail(
                    internal_error_with("Failed to update session: "@ + c@),
                ),
            ),
            ActivationEvent::Reloaded(Err(c)) => activation_next(stage, event) == (
                ActivationStage::<M>::Finished,
                ActivationAction::<M, E>::Fail(
                    internal_error_with("Failed to reload session: "@ + c@),
                ),
            ),
            ActivationEvent::Applied(Ok(())) => activation_next(stage, event) == (
                ActivationStage::<M>::Reloading,
                ActivationAction::<M, E>::Reload,
            ),
            ActivationEvent::Reloaded(Ok(())) => activation_next(stage, event) == (
                ActivationStage::<M>::Finished,
                ActivationAction::<M, E>::UseReloadedSession,
            ),
            _ => !(activation_next(stage, event).1 is Fail),
        },
        activation_next(stage, event).1 is Fail <==> (match event {
            ActivationEvent::DefaultsResolved(r) => r is Err,
            ActivationEvent::ExtensionsBuilt(r) => r is Err,
            ActivationEvent::Applied(r) => r is Err,
            ActivationEvent::Reloaded(r) => r is Err,
        }),
        activation_next(stage, event).1 is KeepSession ==> (match event {
            ActivationEvent::DefaultsResolved(r) => r is Ok,
            ActivationEvent::ExtensionsBuilt(r) => r is Ok,
            _ => false,
        }),
{
    reveal_strlit("Failed to update session");
    reveal_strlit("Failed to reload session");
    reveal_strlit(": ");
    reveal_strlit("Failed to update session: ");
    reveal_strlit("Failed to reload session: ");
    assert("Failed to update session"@ + ": "@ =~= "Failed to update session: "@);
    assert("Failed to reload session"@ + ": "@ =~= "Failed to reload session: "@);
}

pub fn activation_step<M, E>(stage: ActivationStage<M>, event: ActivationEvent<M, E>) -> (r: (
    ActivationStage<M>,
    ActivationAction<M, E>,
))
    requires
        activation_expects(stage, event),
    ensures
        r == activation_next(stage, event),
{
    match (stage, event) {
        (ActivationStage::Resolving(plan), ActivationEvent::DefaultsResolved(Ok(d))) => {
            advance_activation(plan, Some(d), None)
        },
        (ActivationStage::Building(plan, d), ActivationEvent::ExtensionsBuilt(Ok(x))) => {
            advance_activation(plan, d, Some(x))
        },
        (_, ActivationEvent::DefaultsResolved(Err(e))) => (
            ActivationStage::Finished,
            ActivationAction::Fail(e),
        ),
        (_, ActivationEvent::ExtensionsBuilt(Err(e))) => (
            ActivationStage::Finished,
            ActivationAction::Fail(e),
        ),
        (_, ActivationEvent::Applied(Err(c))) => (
            ActivationStage::Finished,
            ActivationAction::Fail(session_step_error(SessionStep::Update, c.as_str())),
        ),
        (_, ActivationEvent::Applied(Ok(()))) => (ActivationStage::Reloading, ActivationAction::Reload),
        (_, ActivationEvent::Reloaded(Err(c))) => (
            ActivationStage::Finished,
            ActivationAction::Fail(session_step_error(SessionStep::Reload, c.as_str())),
        ),
        (_, ActivationEvent::Reloaded(Ok(()))) => (
            ActivationStage::Finished,
            ActivationAction::UseReloadedSession,
        ),
        // Excluded by the precondition: the stage waits for another event.
        _ => (ActivationStage::Finished, ActivationAction::KeepSession),
    }
}

/// Where a session was created from.
#[derive(Debug, Clone, Copy, PartialEq, Eq, Structural)]
pub enum SessionType {
    /// Opened by a user through a client that says who it is.
    User,
    /// Opened over the agent-client protocol by an unnamed client.
    Acp,
}

/// How a new session is set up.
pub struct NewSessionPlan {
    pub name: String,
    pub session_type: SessionType,
    pub mode: GooseMode,
    /// Recorded in the session once it exists.
    pub project_id: Option<String>,
}

/// The name every new session starts with.
pub const NEW_SESSION_NAME: &'static str = "New Chat";

/// Sets up a new session from the request's metadata and the configured
/// mode: a client that names itself makes a user session, else the session
/// belongs to the protocol; the mode falls back to the default one.
pub fn plan_new_session(
    project_id: Option<String>,
    client: Option<String>,
    configured_mode: Option<GooseMode>,
) -> (p: NewSessionPlan)
    ensures
        p.name@ == NEW_SESSION_NAME@,
        p.session_type == (if client is Some {
            SessionType::User
        } else {
            SessionType::Acp
        }),
        p.mode == (match configured_mode {
            Some(m) => m,
            None => GooseMode::Auto,
        }),
        p.project_id == project_id,
{
    let session_type = match client {
        Some(_) => SessionType::User,
        None => SessionType::Acp,
    };
    let mode = match configured_mode {
        Some(m) => m,
        None => GooseMode::default(),
    };
    NewSessionPlan {
        name: String::from_str(NEW_SESSION_NAME),
        session_type,
        mode,
        project_id,
    }
}

/// The name of a fork: the source's name followed by ` (copy)`, or just
/// `(copy)` when the source's name is blank.
pub open spec fn fork_name(source_name: Seq<char>) -> Seq<char> {
    if is_blank_text(source_name) {
        "(copy)"@
    } else {
        source_name + " (copy)"@
    }
}

pub fn fork_session_name(source_name: &str) -> (s: String)
    ensures
        s@ == fork_name(source_name@),
{
    if is_blank(source_name) {
        String::from_str("(copy)")
    } else {
        let mut s = String::from_str(source_name);
        s.append(" (copy)");
        s
    }
}

/// A fork's name always ends in `(copy)`, and a source with a name that is
/// not blank keeps that name in front of it.
pub proof fn lemma_fork_name_marks_the_copy(source_name: Seq<char>)
    ensures
        fork_name(source_name).len() >= "(copy)"@.len(),
        fork_name(source_name).subrange(
            fork_name(source_name).len() - "(copy)"@.len(),
            fork_name(source_name).len() as int,
        ) == "(copy)"@,
        !is_blank_text(source_name) ==> fork_name(source_name).subrange(0, source_name.len() as int)
            == source_name,
        !is_blank_text(source_name) ==> fork_name(source_name) == source_name + " (copy)"@,
        !is_blank_text(source_name) ==> fork_name(source_name).len() == source_name.len() + 7,
        is_blank_text(source_name) ==> fork_name(source_name) == "(copy)"@,
{
    reveal_strlit("(copy)");
    reveal_strlit(" (copy)");
    let f = fork_name(source_name);
    if is_blank_text(source_name) {
        assert(f.subrange(0, f.len() as int) =~= f);
    } else {
        assert(f.subrange(f.len() - 6, f.len() as int) =~= "(copy)"@);
        assert(f.subrange(0, source_name.len() as int) =~= source_name);
    }
}

/// Where the forking of a session stands.
#[derive(Debug, Clone, Copy, PartialEq, Eq, Structural)]
pub enum ForkStage {
    /// Waiting for the check that the client's working directory is absolute.
    CheckingCwd,
    /// Waiting for the session to fork from.
    LoadingSource,
    /// Waiting for the copy of the session.
    Copying,
    /// Waiting for the copy, reloaded from the session store.
    LoadingFork,
    /// Waiting for the copy to be made ready for the client.
    Preparing,
    /// Waiting for the agent of the copy to start.
    Activating,
    /// Waiting for the copy's modes to be described.
    BuildingModeState,
    /// Waiting for the copy's model and configuration options.
    LoadingSessionConfig,
    /// Waiting for the client to be told the commands available in the copy.
    SendingCommands,
    /// Nothing more to do.
    Finished,
}

/// What the handler learned while forking.
pub enum ForkEvent {
    CwdChecked(Result<(), agent_client_protocol::Error>),
    /// The name of the session to fork from, or why it could not be loaded.
    SourceLoaded(Result<String, String>),
    /// The id of the copy, or why it could not be made.
    Copied(Result<String, String>),
    ForkLoaded(Result<(), String>),
    Prepared(Result<(), agent_client_protocol::Error>),
    Activated(Result<(), agent_client_protocol::Error>),
    ModeStateBuilt(Result<(), agent_client_protocol::Error>),
    SessionConfigLoaded,
    CommandsSent(Result<(), agent_client_protocol::Error>),
}

/// What the handler does next.
pub enum ForkAction {
    LoadSource,
    /// Copy the source session under this name.
    CopySession(String),
    /// Reload the copy with this id.
    LoadFork(String),
    Prepare,
    Activate,
    BuildModeState,
    LoadSessionConfig,
    /// Tell the client which commands the copy offers.
    SendCommands,
    /// Answer the client with the copy, its modes, metadata, and the model
    /// and configuration options when there are any.
    Respond,
    /// Answer the client with this error.
    Fail(agent_client_protocol::Error),
}

/// The event is the one the stage waits for.
pub open spec fn fork_expects(stage: ForkStage, event: ForkEvent) -> bool {
    match stage {
        ForkStage::CheckingCwd => event is CwdChecked,
        ForkStage::LoadingSource => event is SourceLoaded,
        ForkStage::Copying => event is Copied,
        ForkStage::LoadingFork => event is ForkLoaded,
        ForkStage::Preparing => event is Prepared,
        ForkStage::Activating => event is Activated,
        ForkStage::BuildingModeState => event is ModeStateBuilt,
        ForkStage::LoadingSessionConfig => event is SessionConfigLoaded,
        ForkStage::SendingCommands => event is CommandsSent,
        ForkStage::Finished => false,
    }
}

/// The event reports a failure.
pub open spec fn fork_event_failed(event: ForkEvent) -> bool {
    match event {
        ForkEvent::CwdChecked(r) => r is Err,
        ForkEvent::SourceLoaded(r) => r is Err,
        ForkEvent::Copied(r) => r is Err,
        ForkEvent::ForkLoaded(r) => r is Err,
        ForkEvent::Prepared(r) => r is Err,
        ForkEvent::Activated(r) => r is Err,
        ForkEvent::ModeStateBuilt(r) => r is Err,
        ForkEvent::SessionConfigLoaded => false,
        ForkEvent::CommandsSent(r) => r is Err,
    }
}

/// One step of forking a session: a failure ends the fork with an error
/// (a protocol error as it came, a session store failure as an internal
/// error carrying its cause); a success moves to the next step, and the
/// copy is named after its source. The client is answered only once it
/// has been told the commands of the copy.
pub fn fork_step(stage: ForkStage, event: ForkEvent) -> (r: (ForkStage, ForkAction))
    requires
        fork_expects(stage, event),
    ensures
        match event {
            ForkEvent::CwdChecked(Err(e)) => r.0 == ForkStage::Finished && r.1 == ForkAction::Fail(e),
            ForkEvent::CwdChecked(Ok(())) => r.0 == ForkStage::LoadingSource && r.1
                == ForkAction::LoadSource,
            ForkEvent::SourceLoaded(Err(c)) => r.0 == ForkStage::Finished && r.1 == ForkAction::Fail(
                internal_error_with(c@),
            ),
            ForkEvent::SourceLoaded(Ok(name)) => r.0 == ForkStage::Copying && (
            r.1 matches ForkAction::CopySession(n) && n@ == fork_name(name@)),
            ForkEvent::Copied(Err(c)) => r.0 == ForkStage::Finished && r.1 == ForkAction::Fail(
                internal_error_with(c@),
            ),
            ForkEvent::Copied(Ok(id)) => r.0 == ForkStage::LoadingFork && r.1 == ForkAction::LoadFork(
                id,
            ),
            ForkEvent::ForkLoaded(Err(c)) => r.0 == ForkStage::Finished && r.1 == ForkAction::Fail(
                internal_error_with(c@),
            ),
            ForkEvent::ForkLoaded(Ok(())) => r.0 == ForkStage::Preparing && r.1 == ForkAction::Prepare,
            ForkEvent::Prepared(Err(e)) => r.0 == ForkStage::Finished && r.1 == ForkAction::Fail(e),
            ForkEvent::Prepared(Ok(())) => r.0 == ForkStage::Activating && r.1 == ForkAction::Activate,
            ForkEvent::Activated(Err(e)) => r.0 == ForkStage::Finished && r.1 == ForkAction::Fail(e),
            ForkEvent::Activated(Ok(())) => r.0 == ForkStage::BuildingModeState && r.1
                == ForkAction::BuildModeState,
            ForkEvent::ModeStateBuilt(Err(e)) => r.0 == ForkStage::Finished && r.1 == ForkAction::Fail(e),
            ForkEvent::ModeStateBuilt(Ok(())) => r.0 == ForkStage::LoadingSessionConfig && r.1
                == ForkAction::LoadSessionConfig,
            ForkEvent::SessionConfigLoaded => r.0 == ForkStage::SendingCommands && r.1
                == ForkAction::SendCommands,
            ForkEvent::CommandsSent(Err(e)) => r.0 == ForkStage::Finished && r.1 == ForkAction::Fail(e),
            ForkEvent::CommandsSent(Ok(())) => r.0 == ForkStage::Finished && r.1 == ForkAction::Respond,
        },
        // Forking ends exactly when it fails or answers; it fails exactly on
        // a failure, and answers only once the client has been told the
        // commands of the copy.
        r.0 == ForkStage::Finished <==> (r.1 is Fail || r.1 is Respond),
        r.1 is Fail <==> fork_event_failed(event),
        r.1 is Respond <==> event matches ForkEvent::CommandsSent(Ok(_)),
        match event {
            ForkEvent::SourceLoaded(Ok(name)) => !is_blank_text(name@) ==> (r.1 matches ForkAction::CopySession(
                n,
            ) && n@ == name@ + " (copy)"@),
            _ => true,
        },
{
    match event {
        ForkEvent::CwdChecked(Err(e)) => (ForkStage::Finished, ForkAction::Fail(e)),
        ForkEvent::CwdChecked(Ok(())) => (ForkStage::LoadingSource, ForkAction::LoadSource),
        ForkEvent::SourceLoaded(Err(c)) => (ForkStage::Finished, ForkAction::Fail(session_error(c.as_str()))),
        ForkEvent::SourceLoaded(Ok(name)) => (
            ForkStage::Copying,
            ForkAction::CopySession(fork_session_name(name.as_str())),
        ),
        ForkEvent::Copied(Err(c)) => (ForkStage::Finished, ForkAction::Fail(session_error(c.as_str()))),
        ForkEvent::Copied(Ok(id)) => (ForkStage::LoadingFork, ForkAction::LoadFork(id)),
        ForkEvent::ForkLoaded(Err(c)) => (ForkStage::Finished, ForkAction::Fail(session_error(c.as_str()))),
        ForkEvent::ForkLoaded(Ok(())) => (ForkStage::Preparing, ForkAction::Prepare),
        ForkEvent::Prepared(Err(e)) => (ForkStage::Finished, ForkAction::Fail(e)),
        ForkEvent::Prepared(Ok(())) => (ForkStage::Activating, ForkAction::Activate),
        ForkEvent::Activated(Err(e)) => (ForkStage::Finished, ForkAction::Fail(e)),
        ForkEvent::Activated(Ok(())) => (ForkStage::BuildingModeState, ForkAction::BuildModeState),
        ForkEvent::ModeStateBuilt(Err(e)) => (ForkStage::Finished, ForkAction::Fail(e)),
        ForkEvent::ModeStateBuilt(Ok(())) => (
            ForkStage::LoadingSessionConfig,
            ForkAction::LoadSessionConfig,
        ),
        ForkEvent::SessionConfigLoaded => (ForkStage::SendingCommands, ForkAction::SendCommands),
        ForkEvent::CommandsSent(Err(e)) => (ForkStage::Finished, ForkAction::Fail(e)),
        ForkEvent::CommandsSent(Ok(())) => (ForkStage::Finished, ForkAction::Respond),
    }
}

/// Where the creation of a new session stands.
pub enum NewSessionStage {
    /// Waiting for the check that the client's working directory is absolute.
    CheckingCwd(NewSessionPlan),
    /// Waiting for the session store to create the session.
    Creating(Option<String>),
    /// Waiting for the project of the session with this id to be recorded.
    Updating(String),
    /// Waiting for the session with this id to be reloaded.
    Reloading,
    /// Waiting for the state the session starts with.
    PreparingInitState,
    Finished,
}

/// What the handler learned while creating a session.
pub enum NewSessionEvent {
    CwdChecked(Result<(), agent_client_protocol::Error>),
    /// The id of the new session, or why it could not be created.
    Created(Result<String, String>),
    Updated(Result<(), String>),
    Reloaded(Result<(), String>),
    InitStatePrepared(Result<(), agent_client_protocol::Error>),
}

/// What the handler does next.
pub enum NewSessionAction {
    /// Create a session with this name, type and mode.
    Create(String, SessionType, GooseMode),
    /// Record the project (when there is one) of the session with this id.
    Update(String, Option<String>),
    /// Reload the session with this id.
    Reload(String),
    PrepareInitState,
    /// Answer the client with this error.
    Fail(agent_client_protocol::Error),
}

/// The event is the one the stage waits for. Once the initial state is
/// prepared, the handler has nothing left that it can do: that event is
/// only expected when it reports a failure.
pub open spec fn new_session_expects(stage: NewSessionStage, event: NewSessionEvent) -> bool {
    match stage {
        NewSessionStage::CheckingCwd(_) => event is CwdChecked,
        NewSessionStage::Creating(_) => event is Created,
        NewSessionStage::Updating(_) => event is Updated,
        NewSessionStage::Reloading => event is Reloaded,
        NewSessionStage::PreparingInitState => event matches NewSessionEvent::InitStatePrepared(Err(_)),
        NewSessionStage::Finished => false,
    }
}

/// The first stage of creating a session, set up by [`plan_new_session`].
pub fn start_new_session(
    project_id: Option<String>,
    client: Option<String>,
    configured_mode: Option<GooseMode>,
) -> (s: NewSessionStage)
    ensures
        s matches NewSessionStage::CheckingCwd(plan) && plan.name@ == NEW_SESSION_NAME@
            && plan.session_type == (if client is Some {
            SessionType::User
        } else {
            SessionType::Acp
        }) && plan.mode == (match configured_mode {
            Some(m) => m,
            None => GooseMode::Auto,
        }) && plan.project_id == project_id,
{
    NewSessionStage::CheckingCwd(plan_new_session(project_id, client, configured_mode))
}

/// One step of creating a session: failures of the session store become
/// internal errors naming the step that failed, protocol errors are passed
/// on as they came; after the store has created the session its project is
/// recorded, then it is reloaded and its initial state prepared.
pub fn new_session_step(stage: NewSessionStage, event: NewSessionEvent) -> (r: (
    NewSessionStage,
    NewSessionAction,
))
    requires
        new_session_expects(stage, event),
    ensures
        match (stage, event) {
            (_, NewSessionEvent::CwdChecked(Err(e))) => r.0 is Finished && r.1 == NewSessionAction::Fail(e),
            (NewSessionStage::CheckingCwd(plan), NewSessionEvent::CwdChecked(Ok(()))) => r.0
                == NewSessionStage::Creating(plan.project_id) && r.1 == NewSessionAction::Create(
                plan.name,
                plan.session_type,
                plan.mode,
            ),
            (_, NewSessionEvent::Created(Err(c))) => r.0 is Finished && r.1 == NewSessionAction::Fail(
                internal_error_with(step_failure(SessionStep::Create) + ": "@ + c@),
            ),
            (NewSessionStage::Creating(project_id), NewSessionEvent::Created(Ok(id))) => r.0
                == NewSessionStage::Updating(id) && r.1 == NewSessionAction::Update(id, project_id),
            (_, NewSessionEvent::Updated(Err(c))) => r.0 is Finished && r.1 == NewSessionAction::Fail(
                internal_error_with(step_failure(SessionStep::Update) + ": "@ + c@),
            ),
            (NewSessionStage::Updating(id), NewSessionEvent::Updated(Ok(()))) => r.0
                == NewSessionStage::Reloading && r.1 == NewSessionAction::Reload(id),
            (_, NewSessionEvent::Reloaded(Err(c))) => r.0 is Finished && r.1 == NewSessionAction::Fail(
                internal_error_with(step_failure(SessionStep::Reload) + ": "@ + c@),
            ),
            (_, NewSessionEvent::Reloaded(Ok(()))) => r.0 == NewSessionStage::PreparingInitState && r.1
                == NewSessionAction::PrepareInitState,
            (_, NewSessionEvent::InitStatePrepared(Err(e))) => r.0 is Finished && r.1
                == NewSessionAction::Fail(e),
            _ => false,
        },
        // The handler never answers with a session: a step ends it exactly
        // when it answers with an error, which it does exactly on a failure.
        r.0 is Finished <==> r.1 is Fail,
        r.1 is Fail <==> match event {
            NewSessionEvent::CwdChecked(x) => x is Err,
            NewSessionEvent::Created(x) => x is Err,
            NewSessionEvent::Updated(x) => x is Err,
            NewSessionEvent::Reloaded(x) => x is Err,
            NewSessionEvent::InitStatePrepared(x) => x is Err,
        },
{
    match (stage, event) {
        (_, NewSessionEvent::CwdChecked(Err(e))) => (NewSessionStage::Finished, NewSessionAction::Fail(e)),
        (NewSessionStage::CheckingCwd(plan), NewSessionEvent::CwdChecked(Ok(()))) => (
            NewSessionStage::Creating(plan.project_id),
            NewSessionAction::Create(plan.name, plan.session_type, plan.mode),
        ),
        (_, NewSessionEvent::Created(Err(c))) => (
            NewSessionStage::Finished,
            NewSessionAction::Fail(session_step_error(SessionStep::Create, c.as_str())),
        ),
        (NewSessionStage::Creating(project_id), NewSessionEvent::Created(Ok(id))) => {
            let id_for_reload = id.clone();
            (NewSessionStage::Updating(id_for_reload), NewSessionAction::Update(id, project_id))
        },
        (_, NewSessionEvent::Updated(Err(c))) => (
            NewSessionStage::Finished,
            NewSessionAction::Fail(session_step_error(SessionStep::Update, c.as_str())),
        ),
        (NewSessionStage::Updating(id), NewSessionEvent::Updated(Ok(()))) => (
            NewSessionStage::Reloading,
            NewSessionAction::Reload(id),
        ),
        (_, NewSessionEvent::Reloaded(Err(c))) => (
            NewSessionStage::Finished,
            NewSessionAction::Fail(session_step_error(SessionStep::Reload, c.as_str())),
        ),
        (_, NewSessionEvent::Reloaded(Ok(()))) => (
            NewSessionStage::PreparingInitState,
            NewSessionAction::PrepareInitState,
        ),
        (_, NewSessionEvent::InitStatePrepared(Err(e))) => (
            NewSessionStage::Finished,
            NewSessionAction::Fail(e),
        ),
        // Excluded by the precondition: the stage waits for another event,
        // or the initial state was prepared.
        _ => (NewSessionStage::Finished, NewSessionAction::PrepareInitState),
    }
}

/// Activating a session whose defaults and extension data were worked out
/// as its plan asked: the session store rewrites the session exactly when
/// the plan found anything to change, with what was worked out, and the
/// session is then reloaded; a session with nothing to change is used as
/// it was.
pub proof fn lemma_activation_rewrites_exactly_when_needed<M, E>(
    plan: ActivationPlan,
    provider_and_model: Option<(String, M)>,
    extension_data: Option<ExtensionData<E>>,
)
    requires
        plan.resolve_provider_and_model <==> provider_and_model is Some,
        plan.rebuild_extensions <==> extension_data is Some,
    ensures
        ({
            let after_resolving = match provider_and_model {
                Some(d) => activation_next(
                    activation_pending::<M, E>(plan, None, None).0,
                    ActivationEvent::<M, E>::DefaultsResolved(Ok(d)),
                ),
                None => activation_pending::<M, E>(plan, None, None),
            };
            let after_building = match extension_data {
                Some(x) => activation_next(
                    after_resolving.0,
                    ActivationEvent::<M, E>::ExtensionsBuilt(Ok(x)),
                ),
                None => after_resolving,
            };
            &&& after_building == activation_pending(plan, provider_and_model, extension_data)
            &&& needs_update(plan) ==> (after_building.1 matches ActivationAction::Apply(update)
                && update.set_working_dir == plan.set_working_dir && update.provider_and_model
                == provider_and_model && update.extension_data == extension_data)
            &&& needs_update(plan) ==> activation_next(
                after_building.0,
                ActivationEvent::<M, E>::Applied(Ok(())),
            ) == (ActivationStage::<M>::Reloading, ActivationAction::<M, E>::Reload)
            &&& !needs_update(plan) ==> after_building == (
                ActivationStage::<M>::Finished,
                ActivationAction::<M, E>::KeepSession,
            )
        }),
{
}

} // verus!
