//! The authenticated API client, as a state machine over plain values: it
//! decides, from the stored token and each network outcome, whether to
//! authenticate, which request to send, and what the fetch returns. A request
//! rejected with 401 triggers exactly one re-authentication and one retried
//! request; a second rejection is surfaced, never retried again. The caller
//! performs the network actions and feeds the outcomes back in.

use vstd::prelude::*;
use vstd::string::StringExecFns;
use crate::error::APIError;
use crate::text::push_str;

verus! {

/// Whether an HTTP status reports success.
pub open spec fn is_success(status: u16) -> bool {
    200 <= status < 300
}

/// Executable mirror of `is_success`.
pub fn status_is_success(status: u16) -> (r: bool)
    ensures
        r == is_success(status),
{
    200 <= status && status < 300
}

/// The client: where to log in, with what, and the cached bearer token.
/// `token: None` means "not yet authenticated".
pub struct MarzbanAPI {
    pub base_url: String,
    pub username: String,
    pub password: String,
    pub token: Option<String>,
}

/// Where one fetch stands.
pub enum FetchPhase {
    /// Waiting for the first authentication (no cached token existed).
    AwaitingInitialAuth,
    /// The request was sent with the token in hand.
    AwaitingGet,
    /// The request came back 401; waiting for the re-authentication.
    AwaitingReauth,
    /// The retried request was sent with the fresh token.
    AwaitingRetryGet,
    /// The fetch returned a result.
    Done,
}

/// One in-flight fetch: its phase, the request URL, and the login URL used
/// for error reporting.
pub struct FetchFlow {
    pub phase: FetchPhase,
    pub url: String,
    pub login_url: String,
}

/// What the network handed back.
pub enum FetchEvent {
    /// The credential exchange completed with this status and body; `token`
    /// is the parsed token field of a success body, or the parse failure.
    AuthResult { status: u16, body: String, token: Result<String, String> },
    /// The authenticated request completed with this status and body.
    GetResult { status: u16, body: String },
    /// The transport failed; `detail` describes the failure.
    TransportFailed { detail: String },
}

/// What the caller must do next.
pub enum FetchAction {
    /// Exchange the stored credentials for a fresh token at the login URL.
    Authenticate,
    /// Send the request to `url` with `token` as bearer credential.
    SendGet { url: String, token: String },
    /// The fetch is over: a success body to parse, or the error.
    Finish(Result<String, APIError>),
    /// The event does not belong to this phase; nothing to do.
    Ignore,
}

/// The whole decision rule of one fetch: from the stored token, the flow's
/// phase and one event, the new stored token, the new flow, and the action.
pub open spec fn flow_step_spec(
    token: Option<String>,
    flow: FetchFlow,
    event: FetchEvent,
) -> (Option<String>, FetchFlow, FetchAction) {
    match (flow.phase, event) {
        (FetchPhase::AwaitingInitialAuth, FetchEvent::AuthResult { status, body, token: parsed })
        | (FetchPhase::AwaitingReauth, FetchEvent::AuthResult { status, body, token: parsed }) => {
            let retrying = flow.phase is AwaitingReauth;
            if !is_success(status) {
                (
                    token,
                    FetchFlow { phase: FetchPhase::Done, ..flow },
                    FetchAction::Finish(
                        Err(
                            APIError::RequestFailed {
                                url: flow.login_url,
                                status: status,
                                body: body,
                            },
                        ),
                    ),
                )
            } else {
                match parsed {
                    Ok(t) => (
                        Some(t),
                        FetchFlow {
                            phase: if retrying {
                                FetchPhase::AwaitingRetryGet
                            } else {
                                FetchPhase::AwaitingGet
                            },
                            ..flow
                        },
                        FetchAction::SendGet { url: flow.url, token: t },
                    ),
                    Err(detail) => (
                        token,
                        FetchFlow { phase: FetchPhase::Done, ..flow },
                        FetchAction::Finish(Err(APIError::InvalidResponse(detail))),
                    ),
                }
            }
        },
        (FetchPhase::AwaitingInitialAuth, FetchEvent::TransportFailed { detail })
        | (FetchPhase::AwaitingReauth, FetchEvent::TransportFailed { detail }) => (
            token,
            FetchFlow { phase: FetchPhase::Done, ..flow },
            FetchAction::Finish(
                Err(APIError::ReqwestError { url: flow.login_url, error: detail }),
            ),
        ),
        (FetchPhase::AwaitingGet, FetchEvent::GetResult { status, body }) => {
            if status == 401 {
                (token, FetchFlow { phase: FetchPhase::AwaitingReauth, ..flow }, FetchAction::Authenticate)
            } else if is_success(status) {
                (
                    token,
                    FetchFlow { phase: FetchPhase::Done, ..flow },
                    FetchAction::Finish(Ok(body)),
                )
            } else {
                (
                    token,
                    FetchFlow { phase: FetchPhase::Done, ..flow },
                    FetchAction::Finish(
                        Err(APIError::RequestFailed { url: flow.url, status: status, body: body }),
                    ),
                )
            }
        },
        (FetchPhase::AwaitingRetryGet, FetchEvent::GetResult { status, body }) => {
            if is_success(status) {
                (
                    token,
                    FetchFlow { phase: FetchPhase::Done, ..flow },
                    FetchAction::Finish(Ok(body)),
                )
            } else {
                (
                    token,
                    FetchFlow { phase: FetchPhase::Done, ..flow },
                    FetchAction::Finish(
                        Err(APIError::RequestFailed { url: flow.url, status: status, body: body }),
                    ),
                )
            }
        },
        (FetchPhase::AwaitingGet, FetchEvent::TransportFailed { detail })
        | (FetchPhase::AwaitingRetryGet, FetchEvent::TransportFailed { detail }) => (
            token,
            FetchFlow { phase: FetchPhase::Done, ..flow },
            FetchAction::Finish(Err(APIError::ReqwestError { url: flow.url, error: detail })),
        ),
        (_, _) => (token, flow, FetchAction::Ignore),
    }
}

impl MarzbanAPI {
    /// Validates the three required configuration values, in the order the
    /// process reads them; a missing one is the startup error that names it,
    /// and no client is produced.
    pub fn new(url: Option<String>, username: Option<String>, password: Option<String>) -> (r:
        Result<MarzbanAPI, APIError>)
        ensures
            url is None ==> r is Err && r->Err_0 is EnvVarError && r->Err_0->EnvVarError_0@
                == "URL"@,
            url is Some && username is None ==> r is Err && r->Err_0 is EnvVarError
                && r->Err_0->EnvVarError_0@ == "USERNAME"@,
            url is Some && username is Some && password is None ==> r is Err
                && r->Err_0 is EnvVarError && r->Err_0->EnvVarError_0@ == "PASSWORD"@,
            url is Some && username is Some && password is Some ==> r is Ok && r->Ok_0
                == (MarzbanAPI {
                base_url: url->Some_0,
                username: username->Some_0,
                password: password->Some_0,
                token: None::<String>,
            }),
    {
        let base_url = match url {
            Some(v) => v,
            None => { return Err(APIError::EnvVarError(String::from_str("URL"))); },
        };
        let username = match username {
            Some(v) => v,
            None => { return Err(APIError::EnvVarError(String::from_str("USERNAME"))); },
        };
        let password = match password {
            Some(v) => v,
            None => { return Err(APIError::EnvVarError(String::from_str("PASSWORD"))); },
        };
        Ok(MarzbanAPI { base_url, username, password, token: None })
    }

    /// The credential-exchange endpoint.
    pub fn login_url(&self) -> (r: String)
        ensures
            r@ == self.base_url@ + "/api/admin/token"@,
    {
        let mut r = self.base_url.clone();
        push_str(&mut r, "/api/admin/token");
        r
    }

    /// Begins one fetch of `endpoint`: with a cached token the request goes
    /// out at once; without one, the flow starts by authenticating.
    pub fn fetch(&self, endpoint: &str) -> (r: (FetchFlow, FetchAction))
        ensures
            r.0.url@ == self.base_url@ + "/api"@ + endpoint@,
            r.0.login_url@ == self.base_url@ + "/api/admin/token"@,
            self.token is Some ==> r.0.phase is AwaitingGet && (r.1 matches
                FetchAction::SendGet { url, token } && url == r.0.url && token
                == self.token->Some_0),
            self.token is None ==> r.0.phase is AwaitingInitialAuth
                && r.1 is Authenticate,
    {
        let mut url = self.base_url.clone();
        push_str(&mut url, "/api");
        push_str(&mut url, endpoint);
        let login_url = self.login_url();
        match &self.token {
            Some(t) => {
                let flow = FetchFlow { phase: FetchPhase::AwaitingGet, url: url.clone(), login_url };
                (flow, FetchAction::SendGet { url, token: t.clone() })
            },
            None => {
                let flow = FetchFlow { phase: FetchPhase::AwaitingInitialAuth, url, login_url };
                (flow, FetchAction::Authenticate)
            },
        }
    }

    /// Advances one fetch by one network outcome; the exact decision is
    /// `flow_step_spec`. A successful authentication replaces the stored
    /// token (last writer wins); nothing else touches it.
    pub fn fetch_step(&mut self, flow: FetchFlow, event: FetchEvent) -> (r: (FetchFlow, FetchAction))
        ensures
            (final(self).token, r.0, r.1) == flow_step_spec(old(self).token, flow, event),
            final(self).base_url == old(self).base_url,
            final(self).username == old(self).username,
            final(self).password == old(self).password,
    {
        match flow.phase {
            FetchPhase::AwaitingInitialAuth | FetchPhase::AwaitingReauth => {
                let retrying = match flow.phase {
                    FetchPhase::AwaitingReauth => true,
                    _ => false,
                };
                match event {
                    FetchEvent::AuthResult { status, body, token: parsed } => {
                        if !status_is_success(status) {
                            let f = FetchFlow { phase: FetchPhase::Done, url: flow.url, login_url: flow.login_url.clone() };
                            (
                                f,
                                FetchAction::Finish(
                                    Err(
                                        APIError::RequestFailed {
                                            url: flow.login_url,
                                            status,
                                            body,
                                        },
                                    ),
                                ),
                            )
                        } else {
                            match parsed {
                                Ok(t) => {
                                    self.token = Some(t.clone());
                                    let f = FetchFlow {
                                        phase: if retrying {
                                            FetchPhase::AwaitingRetryGet
                                        } else {
                                            FetchPhase::AwaitingGet
                                        },
                                        url: flow.url.clone(),
                                        login_url: flow.login_url,
                                    };
                                    (f, FetchAction::SendGet { url: flow.url, token: t })
                                },
                                Err(detail) => {
                                    let f = FetchFlow { phase: FetchPhase::Done, url: flow.url, login_url: flow.login_url };
                                    (f, FetchAction::Finish(Err(APIError::InvalidResponse(detail))))
                                },
                            }
                        }
                    },
                    FetchEvent::TransportFailed { detail } => {
                        let f = FetchFlow { phase: FetchPhase::Done, url: flow.url, login_url: flow.login_url.clone() };
                        (
                            f,
                            FetchAction::Finish(
                                Err(APIError::ReqwestError { url: flow.login_url, error: detail }),
                            ),
                        )
                    },
                    _ => (flow, FetchAction::Ignore),
                }
            },
            FetchPhase::AwaitingGet => {
                match event {
                    FetchEvent::GetResult { status, body } => {
                        if status == 401 {
                            let f = FetchFlow { phase: FetchPhase::AwaitingReauth, url: flow.url, login_url: flow.login_url };
                            (f, FetchAction::Authenticate)
                        } else if status_is_success(status) {
                            let f = FetchFlow { phase: FetchPhase::Done, url: flow.url, login_url: flow.login_url };
                            (f, FetchAction::Finish(Ok(body)))
                        } else {
                            let f = FetchFlow { phase: FetchPhase::Done, url: flow.url.clone(), login_url: flow.login_url };
                            (
                                f,
                                FetchAction::Finish(
                                    Err(APIError::RequestFailed { url: flow.url, status, body }),
                                ),
                            )
                        }
                    },
                    FetchEvent::TransportFailed { detail } => {
                        let f = FetchFlow { phase: FetchPhase::Done, url: flow.url.clone(), login_url: flow.login_url };
                        (
                            f,
                            FetchAction::Finish(
                                Err(APIError::ReqwestError { url: flow.url, error: detail }),
                            ),
                        )
                    },
                    _ => (flow, FetchAction::Ignore),
                }
            },
            FetchPhase::AwaitingRetryGet => {
                match event {
                    FetchEvent::GetResult { status, body } => {
                        if status_is_success(status) {
                            let f = FetchFlow { phase: FetchPhase::Done, url: flow.url, login_url: flow.login_url };
                            (f, FetchAction::Finish(Ok(body)))
                        } else {
                            let f = FetchFlow { phase: FetchPhase::Done, url: flow.url.clone(), login_url: flow.login_url };
                            (
                                f,
                                FetchAction::Finish(
                                    Err(APIError::RequestFailed { url: flow.url, status, body }),
                                ),
                            )
                        }
                    },
                    FetchEvent::TransportFailed { detail } => {
                        let f = FetchFlow { phase: FetchPhase::Done, url: flow.url.clone(), login_url: flow.login_url };
                        (
                            f,
                            FetchAction::Finish(
                                Err(APIError::ReqwestError { url: flow.url, error: detail }),
                            ),
                        )
                    },
                    _ => (flow, FetchAction::Ignore),
                }
            },
            FetchPhase::Done => (flow, FetchAction::Ignore),
        }
    }

    /// Begins the fetch of the node list.
    pub fn fetch_nodes_data(&self) -> (r: (FetchFlow, FetchAction))
        ensures
            r.0.url@ == self.base_url@ + "/api"@ + "/nodes"@,
            self.token is None ==> r.0.phase is AwaitingInitialAuth && r.1 is Authenticate,
            self.token is Some ==> r.0.phase is AwaitingGet,
    {
        self.fetch("/nodes")
    }

    /// Begins the fetch of the per-node traffic list.
    pub fn fetch_nodes_usage_data(&self) -> (r: (FetchFlow, FetchAction))
        ensures
            r.0.url@ == self.base_url@ + "/api"@ + "/nodes/usage"@,
            self.token is None ==> r.0.phase is AwaitingInitialAuth && r.1 is Authenticate,
            self.token is Some ==> r.0.phase is AwaitingGet,
    {
        self.fetch("/nodes/usage")
    }

    /// Begins the fetch of the system statistics.
    pub fn fetch_system_data(&self) -> (r: (FetchFlow, FetchAction))
        ensures
            r.0.url@ == self.base_url@ + "/api"@ + "/system"@,
            self.token is None ==> r.0.phase is AwaitingInitialAuth && r.1 is Authenticate,
            self.token is Some ==> r.0.phase is AwaitingGet,
    {
        self.fetch("/system")
    }

    /// Begins the fetch of the core status.
    pub fn fetch_core_data(&self) -> (r: (FetchFlow, FetchAction))
        ensures
            r.0.url@ == self.base_url@ + "/api"@ + "/core"@,
            self.token is None ==> r.0.phase is AwaitingInitialAuth && r.1 is Authenticate,
            self.token is Some ==> r.0.phase is AwaitingGet,
    {
        self.fetch("/core")
    }

    /// Begins the fetch of the user list.
    pub fn fetch_users_data(&self) -> (r: (FetchFlow, FetchAction))
        ensures
            r.0.url@ == self.base_url@ + "/api"@ + "/users"@,
            self.token is None ==> r.0.phase is AwaitingInitialAuth && r.1 is Authenticate,
            self.token is Some ==> r.0.phase is AwaitingGet,
    {
        self.fetch("/users")
    }
}

/// The actions a flow takes over a sequence of events.
pub open spec fn run_flow(
    token: Option<String>,
    flow: FetchFlow,
    events: Seq<FetchEvent>,
) -> Seq<FetchAction>
    decreases events.len(),
{
    if events.len() == 0 {
        Seq::empty()
    } else {
        let step = flow_step_spec(token, flow, events[0]);
        seq![step.2] + run_flow(step.0, step.1, events.skip(1))
    }
}

/// How many requests a sequence of actions sends.
pub open spec fn count_gets(actions: Seq<FetchAction>) -> nat
    decreases actions.len(),
{
    if actions.len() == 0 {
        0
    } else {
        count_gets(actions.drop_last()) + if actions.last() is SendGet {
            1nat
        } else {
            0nat
        }
    }
}

/// How many authentications a sequence of actions performs.
pub open spec fn count_auths(actions: Seq<FetchAction>) -> nat
    decreases actions.len(),
{
    if actions.len() == 0 {
        0
    } else {
        count_auths(actions.drop_last()) + if actions.last() is Authenticate {
            1nat
        } else {
            0nat
        }
    }
}

/// A fetch whose request is rejected once with 401 and whose retried request
/// succeeds performs exactly one re-authentication and one further send — two
/// sends in all, counting the one that put the flow in front of the 401 — and
/// hands the caller the body of the retried request.
pub proof fn lemma_retry_after_unauthorized(
    token: Option<String>,
    flow: FetchFlow,
    b1: String,
    auth_status: u16,
    auth_body: String,
    tok2: String,
    st: u16,
    body: String,
)
    requires
        flow.phase is AwaitingGet,
        is_success(auth_status),
        is_success(st),
    ensures
        ({
            let events = seq![
                FetchEvent::GetResult { status: 401, body: b1 },
                FetchEvent::AuthResult {
                    status: auth_status,
                    body: auth_body,
                    token: Ok::<String, String>(tok2),
                },
                FetchEvent::GetResult { status: st, body: body },
            ];
            let actions = run_flow(token, flow, events);
            &&& actions.len() == 3
            &&& actions[0] is Authenticate
            &&& actions[1] is SendGet
            &&& actions[2] == FetchAction::Finish(Ok::<String, APIError>(body))
            &&& count_gets(actions) == 1
            &&& count_auths(actions) == 1
        }),
{
    let events = seq![
        FetchEvent::GetResult { status: 401, body: b1 },
        FetchEvent::AuthResult {
            status: auth_status,
            body: auth_body,
            token: Ok::<String, String>(tok2),
        },
        FetchEvent::GetResult { status: st, body: body },
    ];
    let actions = run_flow(token, flow, events);
    reveal_with_fuel(run_flow, 5);
    assert(events.skip(1).skip(1).skip(1) =~= Seq::<FetchEvent>::empty());
    assert(events.skip(1).skip(1)[0] == events[2]);
    assert(events.skip(1)[0] == events[1]);
    assert(actions =~= seq![actions[0], actions[1], actions[2]]);
    assert(actions[0] is Authenticate);
    assert(actions[1] is SendGet);
    assert(actions[2] is Finish);
    assert(count_gets(actions) == 1) by {
        reveal_with_fuel(count_gets, 5);
        assert(actions.drop_last().drop_last() =~= seq![actions[0]]);
        assert(seq![actions[0]].drop_last() =~= Seq::<FetchAction>::empty());
        assert(actions.drop_last() =~= seq![actions[0], actions[1]]);
    }
    assert(count_auths(actions) == 1) by {
        reveal_with_fuel(count_auths, 5);
        assert(actions.drop_last().drop_last() =~= seq![actions[0]]);
        assert(seq![actions[0]].drop_last() =~= Seq::<FetchAction>::empty());
        assert(actions.drop_last() =~= seq![actions[0], actions[1]]);
    }
}

/// A fetch rejected with 401 on both the original and the retried request
/// fails with the retry's `RequestFailed`, after exactly one
/// re-authentication and one further send: there is no third request.
pub proof fn lemma_second_unauthorized_fails(
    token: Option<String>,
    flow: FetchFlow,
    b1: String,
    auth_status: u16,
    auth_body: String,
    tok2: String,
    st: u16,
    b2: String,
)
    requires
        flow.phase is AwaitingGet,
        is_success(auth_status),
        !is_success(st),
    ensures
        ({
            let events = seq![
                FetchEvent::GetResult { status: 401, body: b1 },
                FetchEvent::AuthResult {
                    status: auth_status,
                    body: auth_body,
                    token: Ok::<String, String>(tok2),
                },
                FetchEvent::GetResult { status: st, body: b2 },
            ];
            let actions = run_flow(token, flow, events);
            &&& actions.len() == 3
            &&& actions[2] == FetchAction::Finish(
                Err::<String, APIError>(
                    APIError::RequestFailed { url: flow.url, status: st, body: b2 },
                ),
            )
            &&& count_gets(actions) == 1
            &&& count_auths(actions) == 1
        }),
{
    let events = seq![
        FetchEvent::GetResult { status: 401, body: b1 },
        FetchEvent::AuthResult {
            status: auth_status,
            body: auth_body,
            token: Ok::<String, String>(tok2),
        },
        FetchEvent::GetResult { status: st, body: b2 },
    ];
    let actions = run_flow(token, flow, events);
    reveal_with_fuel(run_flow, 5);
    assert(events.skip(1).skip(1).skip(1) =~= Seq::<FetchEvent>::empty());
    assert(events.skip(1).skip(1)[0] == events[2]);
    assert(events.skip(1)[0] == events[1]);
    assert(actions =~= seq![actions[0], actions[1], actions[2]]);
    assert(actions[0] is Authenticate);
    assert(actions[1] is SendGet);
    assert(actions[2] is Finish);
    assert(count_gets(actions) == 1) by {
        reveal_with_fuel(count_gets, 5);
        assert(actions.drop_last().drop_last() =~= seq![actions[0]]);
        assert(seq![actions[0]].drop_last() =~= Seq::<FetchAction>::empty());
        assert(actions.drop_last() =~= seq![actions[0], actions[1]]);
    }
    assert(count_auths(actions) == 1) by {
        reveal_with_fuel(count_auths, 5);
        assert(actions.drop_last().drop_last() =~= seq![actions[0]]);
        assert(seq![actions[0]].drop_last() =~= Seq::<FetchAction>::empty());
        assert(actions.drop_last() =~= seq![actions[0], actions[1]]);
    }
}

/// Once the retried request is in flight, no event makes the flow send or
/// authenticate again: every response or transport outcome finishes it.
pub proof fn lemma_no_third_attempt(token: Option<String>, flow: FetchFlow, event: FetchEvent)
    requires
        flow.phase is AwaitingRetryGet,
    ensures
        !(flow_step_spec(token, flow, event).2 is SendGet),
        !(flow_step_spec(token, flow, event).2 is Authenticate),
        (event is GetResult || event is TransportFailed) ==> flow_step_spec(
            token,
            flow,
            event,
        ).2 is Finish && flow_step_spec(token, flow, event).1.phase is Done,
{
}

} // verus!
