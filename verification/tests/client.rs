use marzban_exporter::api::{FetchAction, FetchEvent, FetchPhase, MarzbanAPI};
use marzban_exporter::error::APIError;

fn client() -> MarzbanAPI {
    MarzbanAPI::new(
        Some(String::from("http://upstream")),
        Some(String::from("admin")),
        Some(String::from("SECRET-REDACTED")),
    )
    .unwrap()
}

#[test]
fn missing_url_is_fatal_before_any_request() {
    let r = MarzbanAPI::new(None, Some(String::from("admin")), Some(String::from("pw")));
    match r {
        Err(APIError::EnvVarError(v)) => assert_eq!(v, "URL"),
        _ => panic!("expected the URL configuration error"),
    }
}

#[test]
fn missing_username_is_fatal() {
    let r = MarzbanAPI::new(Some(String::from("http://u")), None, Some(String::from("pw")));
    match r {
        Err(APIError::EnvVarError(v)) => assert_eq!(v, "USERNAME"),
        _ => panic!("expected the USERNAME configuration error"),
    }
}

#[test]
fn missing_password_is_fatal() {
    let r = MarzbanAPI::new(Some(String::from("http://u")), Some(String::from("admin")), None);
    match r {
        Err(APIError::EnvVarError(v)) => assert_eq!(v, "PASSWORD"),
        _ => panic!("expected the PASSWORD configuration error"),
    }
}

#[test]
fn error_messages_carry_context() {
    let e = APIError::RequestFailed {
        url: String::from("http://upstream/api/nodes"),
        status: 500,
        body: String::from("boom"),
    };
    assert_eq!(
        e.message(),
        "Request to http://upstream/api/nodes failed with status 500. Response body: boom"
    );
    let e = APIError::EnvVarError(String::from("URL"));
    assert_eq!(e.message(), "Environment variable URL is not set");
    let e = APIError::InvalidResponse(String::from("bad json"));
    assert_eq!(e.message(), "Invalid response: bad json");
    let e = APIError::ReqwestError { url: String::from("GET request"), error: String::from("dns") };
    assert_eq!(e.message(), "Network error during request to GET request: dns");
}

#[test]
fn first_fetch_authenticates_then_sends() {
    let mut api = client();
    let (flow, action) = api.fetch_nodes_data();
    assert!(matches!(action, FetchAction::Authenticate));
    assert!(matches!(flow.phase, FetchPhase::AwaitingInitialAuth));
    assert_eq!(flow.url, "http://upstream/api/nodes");
    assert_eq!(flow.login_url, "http://upstream/api/admin/token");
    let (flow, action) = api.fetch_step(
        flow,
        FetchEvent::AuthResult {
            status: 200,
            body: String::from("{}"),
            token: Ok(String::from("tok-1")),
        },
    );
    match action {
        FetchAction::SendGet { url, token } => {
            assert_eq!(url, "http://upstream/api/nodes");
            assert_eq!(token, "tok-1");
        },
        _ => panic!("expected the request to go out"),
    }
    let (_, action) = api.fetch_step(
        flow,
        FetchEvent::GetResult { status: 200, body: String::from("[]") },
    );
    match action {
        FetchAction::Finish(Ok(body)) => assert_eq!(body, "[]"),
        _ => panic!("expected the fetch to finish with the body"),
    }
}

#[test]
fn cached_token_skips_authentication() {
    let mut api = client();
    let (flow, _) = api.fetch_nodes_data();
    let (_, _) = api.fetch_step(
        flow,
        FetchEvent::AuthResult {
            status: 200,
            body: String::from("{}"),
            token: Ok(String::from("tok-1")),
        },
    );
    // a later fetch finds the stored token and sends at once
    let (flow, action) = api.fetch_users_data();
    assert!(matches!(flow.phase, FetchPhase::AwaitingGet));
    match action {
        FetchAction::SendGet { token, .. } => assert_eq!(token, "tok-1"),
        _ => panic!("expected an immediate send"),
    }
}

#[test]
fn unauthorized_once_reauthenticates_and_retries_once() {
    let mut api = client();
    let (flow, _) = api.fetch_nodes_data();
    let (flow, _) = api.fetch_step(
        flow,
        FetchEvent::AuthResult {
            status: 200,
            body: String::from("{}"),
            token: Ok(String::from("tok-1")),
        },
    );
    let mut gets = 1;  // the send that just went out
    let mut auths = 1;  // the initial authentication
    let (flow, action) = api.fetch_step(
        flow,
        FetchEvent::GetResult { status: 401, body: String::from("expired") },
    );
    assert!(matches!(action, FetchAction::Authenticate));
    auths += 1;
    let (flow, action) = api.fetch_step(
        flow,
        FetchEvent::AuthResult {
            status: 200,
            body: String::from("{}"),
            token: Ok(String::from("tok-2")),
        },
    );
    match action {
        FetchAction::SendGet { token, .. } => {
            assert_eq!(token, "tok-2");
            gets += 1;
        },
        _ => panic!("expected the retried request"),
    }
    let (_, action) = api.fetch_step(
        flow,
        FetchEvent::GetResult { status: 200, body: String::from("[1]") },
    );
    match action {
        FetchAction::Finish(Ok(body)) => assert_eq!(body, "[1]"),
        _ => panic!("expected success after the retry"),
    }
    assert_eq!(gets, 2);
    assert_eq!(auths, 2);  // one initial authentication, one re-authentication
}

#[test]
fn unauthorized_twice_fails_without_third_attempt() {
    let mut api = client();
    let (flow, _) = api.fetch_nodes_data();
    let (flow, _) = api.fetch_step(
        flow,
        FetchEvent::AuthResult {
            status: 200,
            body: String::from("{}"),
            token: Ok(String::from("tok-1")),
        },
    );
    let (flow, _) = api.fetch_step(
        flow,
        FetchEvent::GetResult { status: 401, body: String::from("expired") },
    );
    let (flow, _) = api.fetch_step(
        flow,
        FetchEvent::AuthResult {
            status: 200,
            body: String::from("{}"),
            token: Ok(String::from("tok-2")),
        },
    );
    let (flow, action) = api.fetch_step(
        flow,
        FetchEvent::GetResult { status: 401, body: String::from("still expired") },
    );
    match action {
        FetchAction::Finish(Err(APIError::RequestFailed { url, status, body })) => {
            assert_eq!(url, "http://upstream/api/nodes");
            assert_eq!(status, 401);
            assert_eq!(body, "still expired");
        },
        _ => panic!("expected the retry's failure to surface"),
    }
    assert!(matches!(flow.phase, FetchPhase::Done));
    // any further outcome is ignored: no third request can be produced
    let (_, action) = api.fetch_step(
        flow,
        FetchEvent::GetResult { status: 200, body: String::from("late") },
    );
    assert!(matches!(action, FetchAction::Ignore));
}

#[test]
fn transport_failure_maps_to_network_error() {
    let mut api = client();
    let (flow, _) = api.fetch_system_data();
    let (flow, _) = api.fetch_step(
        flow,
        FetchEvent::AuthResult {
            status: 200,
            body: String::from("{}"),
            token: Ok(String::from("tok-1")),
        },
    );
    let (_, action) = api.fetch_step(
        flow,
        FetchEvent::TransportFailed { detail: String::from("connection refused") },
    );
    match action {
        FetchAction::Finish(Err(APIError::ReqwestError { url, error })) => {
            assert_eq!(url, "http://upstream/api/system");
            assert_eq!(error, "connection refused");
        },
        _ => panic!("expected a transport error"),
    }
}

#[test]
fn failed_login_surfaces_status_and_body() {
    let mut api = client();
    let (flow, _) = api.fetch_core_data();
    let (_, action) = api.fetch_step(
        flow,
        FetchEvent::AuthResult {
            status: 403,
            body: String::from("bad credentials"),
            token: Err(String::from("unused")),
        },
    );
    match action {
        FetchAction::Finish(Err(APIError::RequestFailed { url, status, body })) => {
            assert_eq!(url, "http://upstream/api/admin/token");
            assert_eq!(status, 403);
            assert_eq!(body, "bad credentials");
        },
        _ => panic!("expected the login failure"),
    }
}

#[test]
fn malformed_token_body_is_invalid_response() {
    let mut api = client();
    let (flow, _) = api.fetch_core_data();
    let (_, action) = api.fetch_step(
        flow,
        FetchEvent::AuthResult {
            status: 200,
            body: String::from("not json"),
            token: Err(String::from("Token JSON parse error: expected value")),
        },
    );
    match action {
        FetchAction::Finish(Err(APIError::InvalidResponse(detail))) => {
            assert_eq!(detail, "Token JSON parse error: expected value");
        },
        _ => panic!("expected a malformed-response failure"),
    }
}
