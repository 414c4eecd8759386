use oauth_listener::config::OauthConfig;
use oauth_listener::config::default_response;
use oauth_listener::config::effective_response;
use oauth_listener::response::response_message;
use oauth_listener::server::PortSearch;
use oauth_listener::server::ServerError;
use oauth_listener::server::cancel_result;
use oauth_listener::server::exit_magic;

#[test]
fn port_search_walks_candidates_in_order() {
    let mut search = PortSearch::new(vec![8001, 8002, 8003]);
    assert_eq!(search.next_port(), Some(8001));
    assert_eq!(search.next_port(), Some(8002));
    assert_eq!(search.next_port(), Some(8003));
    assert_eq!(search.next_port(), None);
    assert_eq!(search.next_port(), None);
}

#[test]
fn port_search_over_no_candidates_is_exhausted_at_once() {
    let mut search = PortSearch::new(Vec::new());
    assert_eq!(search.next_port(), None);
}

#[test]
fn response_is_the_fixed_cors_enabled_ok() {
    let msg = response_message();
    assert!(msg.starts_with("HTTP/1.1 200 OK\r\n"));
    assert!(msg.contains("\r\nAccess-Control-Allow-Origin: *\r\n"));
    assert!(msg.contains("\r\nContent-Length: 4\r\n"));
    assert!(msg.contains("\r\nAccess-Control-Allow-Headers: *\r\n"));
    assert!(msg.contains("\r\nAccess-Control-Allow-Methods: POST, GET, OPTIONS\r\n"));
    assert!(msg.contains("\r\nAccess-Control-Allow-Credentials: true\r\n"));
    assert!(msg.contains("\r\nContent-Type: application/json; charset=utf-8\r\n"));
    assert!(msg.contains("\r\ncache-control: max-age=0, private, must-revalidate\r\n"));
    assert!(msg.ends_with("\r\n\r\ntrue"));
    let body = &msg[msg.len() - 4..];
    assert_eq!(body, "true");
    assert_eq!(body.len(), 4);
}

#[test]
fn cancellation_failure_is_reported_not_fatal() {
    assert_eq!(
        cancel_result(false),
        Err(ServerError::CancellationUnreachable)
    );
    assert_eq!(cancel_result(true), Ok(()));
}

#[test]
fn exit_magic_is_the_fixed_four_bytes() {
    assert_eq!(exit_magic(), vec![1, 3, 3, 7]);
}

#[test]
fn default_config_is_empty() {
    let c = OauthConfig::default();
    assert!(c.ports.is_none());
    assert!(c.response.is_none());
}

#[test]
fn effective_response_prefers_the_override() {
    let r = effective_response(Some("mine".to_string()), Some("hosts".to_string()));
    assert_eq!(r, "mine");
}

#[test]
fn effective_response_falls_back_to_the_host_default() {
    let r = effective_response(None, Some("hosts".to_string()));
    assert_eq!(r, "hosts");
}

#[test]
fn effective_response_falls_back_to_the_built_in_page() {
    let r = effective_response(None, None);
    assert_eq!(r, "<html><body>Please return to the app.</body></html>");
    assert_eq!(r, default_response());
}

#[test]
fn error_messages_name_their_fault() {
    assert_eq!(
        ServerError::BindError.message(),
        "no candidate port could be bound"
    );
    assert_eq!(
        ServerError::CancellationUnreachable.message(),
        "the cancellation target port could not be reached"
    );
    assert_eq!(
        ServerError::ConnectionReadFault.message(),
        "reading the connection failed"
    );
    assert_eq!(
        ServerError::IncompleteBodyStall.message(),
        "the declared body never arrived"
    );
    assert_eq!(
        ServerError::ResponseWriteFault.message(),
        "writing the response failed"
    );
}
