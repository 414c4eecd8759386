use oauth_listener::connection::Classification;
use oauth_listener::connection::ConnectionOutcome;
use oauth_listener::connection::assemble_body;
use oauth_listener::connection::classify;
use oauth_listener::connection::conclude;
use oauth_listener::server::LoopAction;
use oauth_listener::server::loop_decision;

fn classify_bytes(bytes: &[u8]) -> Classification {
    classify(&bytes.to_vec())
}

#[test]
fn get_without_content_length_captures_nothing() {
    let c = classify_bytes(b"GET /submit HTTP/1.1\r\nHost: localhost\r\n\r\n");
    assert!(matches!(c, Classification::Unrecognized));
    let (out, respond) = conclude(c, None);
    assert!(matches!(out, ConnectionOutcome::NoCapture));
    assert!(respond);
    assert!(matches!(loop_decision(out), LoopAction::Continue));
}

#[test]
fn content_length_zero_captures_nothing() {
    let c = classify_bytes(b"POST /submit HTTP/1.1\r\nContent-Length: 0\r\n\r\n");
    assert!(matches!(c, Classification::Unrecognized));
}

#[test]
fn whole_body_in_first_read_is_captured() {
    let c = classify_bytes(b"POST /submit HTTP/1.1\r\nContent-Length: 5\r\n\r\nhello");
    let plan = match c {
        Classification::Submission(ref plan) => plan,
        _ => panic!("expected a submission"),
    };
    assert_eq!(plan.body_prefix, b"hello".to_vec());
    assert_eq!(plan.missing, 0);
    let (out, respond) = conclude(c, Some(Vec::new()));
    assert!(respond);
    match out {
        ConnectionOutcome::Captured(ref body) => assert_eq!(body, &b"hello".to_vec()),
        _ => panic!("expected a captured body"),
    }
    match loop_decision(out) {
        LoopAction::Deliver(content) => assert_eq!(content, b"hello".to_vec()),
        _ => panic!("expected delivery to the handler"),
    }
}

#[test]
fn split_body_needs_exactly_the_shortfall() {
    let c = classify_bytes(b"POST /submit HTTP/1.1\r\nContent-Length: 5\r\n\r\nhel");
    let plan = match c {
        Classification::Submission(ref plan) => plan,
        _ => panic!("expected a submission"),
    };
    assert_eq!(plan.body_prefix, b"hel".to_vec());
    assert_eq!(plan.missing, 2);
    let (out, _) = conclude(c, Some(b"lo".to_vec()));
    match out {
        ConnectionOutcome::Captured(body) => assert_eq!(body, b"hello".to_vec()),
        _ => panic!("expected a captured body"),
    }
}

#[test]
fn body_wholly_missing_from_first_read() {
    let c = classify_bytes(b"POST /submit HTTP/1.1\r\nContent-Length: 4\r\n\r\n");
    let plan = match c {
        Classification::Submission(ref plan) => plan,
        _ => panic!("expected a submission"),
    };
    assert_eq!(plan.body_prefix, Vec::<u8>::new());
    assert_eq!(plan.missing, 4);
    let (out, _) = conclude(c, Some(b"code".to_vec()));
    match out {
        ConnectionOutcome::Captured(body) => assert_eq!(body, b"code".to_vec()),
        _ => panic!("expected a captured body"),
    }
}

#[test]
fn body_beyond_declared_length_is_cut_at_declaration() {
    let c = classify_bytes(b"POST /submit HTTP/1.1\r\nContent-Length: 2\r\n\r\nhello");
    match c {
        Classification::Submission(plan) => {
            assert_eq!(plan.body_prefix, b"he".to_vec());
            assert_eq!(plan.missing, 0);
        },
        _ => panic!("expected a submission"),
    }
}

#[test]
fn last_content_length_header_wins() {
    let c = classify_bytes(
        b"POST /submit HTTP/1.1\r\nContent-Length: 9\r\nContent-Length: 3\r\n\r\nabc",
    );
    match c {
        Classification::Submission(plan) => {
            assert_eq!(plan.body_prefix, b"abc".to_vec());
            assert_eq!(plan.missing, 0);
        },
        _ => panic!("expected a submission"),
    }
}

#[test]
fn content_length_name_is_case_sensitive() {
    let c = classify_bytes(b"POST /submit HTTP/1.1\r\ncontent-length: 5\r\n\r\nhello");
    assert!(matches!(c, Classification::Unrecognized));
}

#[test]
fn non_numeric_content_length_counts_as_zero() {
    let c = classify_bytes(b"POST /submit HTTP/1.1\r\nContent-Length: five\r\n\r\nhello");
    assert!(matches!(c, Classification::Unrecognized));
}

#[test]
fn overlong_content_length_counts_as_zero() {
    let c = classify_bytes(b"POST /submit HTTP/1.1\r\nContent-Length: 1000000000\r\n\r\nx");
    assert!(matches!(c, Classification::Unrecognized));
}

#[test]
fn other_paths_never_extract_a_body() {
    let c = classify_bytes(b"POST /elsewhere HTTP/1.1\r\nContent-Length: 5\r\n\r\nhello");
    assert!(matches!(c, Classification::Unrecognized));
}

#[test]
fn malformed_bytes_are_tagged_distinctly() {
    let c = classify_bytes(b"\x00\x01garbage without structure");
    assert!(matches!(c, Classification::Malformed));
    let (out, respond) = conclude(c, None);
    assert!(matches!(out, ConnectionOutcome::NoCapture));
    assert!(respond);
}

#[test]
fn exit_path_terminates_without_response() {
    let c = classify_bytes(b"GET /exit HTTP/1.1\r\nHost: localhost\r\n\r\n");
    assert!(matches!(c, Classification::TerminatePath));
    let (out, respond) = conclude(c, None);
    assert!(matches!(out, ConnectionOutcome::Terminated));
    assert!(!respond);
    assert!(matches!(loop_decision(out), LoopAction::Stop));
}

#[test]
fn cancellation_magic_terminates_without_response() {
    let c = classify_bytes(&[1, 3, 3, 7]);
    assert!(matches!(c, Classification::TerminateMagic));
    let (out, respond) = conclude(c, None);
    assert!(matches!(out, ConnectionOutcome::Terminated));
    assert!(!respond);
    assert!(matches!(loop_decision(out), LoopAction::Stop));
}

#[test]
fn exit_path_with_query_does_not_terminate() {
    let c = classify_bytes(b"GET /exit?now=1 HTTP/1.1\r\n\r\n");
    assert!(matches!(c, Classification::Unrecognized));
}

#[test]
fn submit_prefix_path_is_not_the_submission_path() {
    let c = classify_bytes(b"POST /submitting HTTP/1.1\r\nContent-Length: 2\r\n\r\nok");
    assert!(matches!(c, Classification::Unrecognized));
}

#[test]
fn assemble_empty_parts_captures_nothing() {
    assert!(assemble_body(Vec::new(), &Vec::new()).is_none());
}

#[test]
fn faults_keep_the_loop_running() {
    assert!(matches!(
        loop_decision(ConnectionOutcome::Fault),
        LoopAction::Continue
    ));
}
