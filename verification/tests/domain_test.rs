use backlog::domain::Status;
use backlog::error::{http_errors, http_status_code, Error};

#[test]
fn status_labels_are_the_two_wire_values() {
    assert_eq!(Status::Incomplete.label(), "Incomplete");
    assert_eq!(Status::Complete.label(), "Complete");
}

#[test]
fn status_parse_round_trips() {
    assert_eq!(Status::parse("Incomplete").unwrap(), Status::Incomplete);
    assert_eq!(Status::parse("Complete").unwrap(), Status::Complete);
    assert_eq!(
        Status::parse(&Status::Complete.label()).unwrap(),
        Status::Complete
    );
}

#[test]
fn status_parse_is_case_sensitive_and_rejects_corruption() {
    for bad in ["incomplete", "COMPLETE", "Done", "", "Complete "] {
        match Status::parse(bad) {
            Err(Error::Internal { .. }) => {}
            other => panic!("expected internal error for {:?}, got {:?}", bad, other),
        }
    }
}

#[test]
fn status_codes_follow_the_error_kind() {
    assert_eq!(http_status_code(&Error::not_found("missing")), 404);
    assert_eq!(http_status_code(&Error::invalid_args("bad input")), 400);
    assert_eq!(http_status_code(&Error::internal("boom")), 500);
}

#[test]
fn http_errors_carries_the_messages() {
    let e = http_errors(&Error::not_found("story not found"));
    assert_eq!(e.errors, vec!["story not found".to_string()]);

    let e = http_errors(&Error::invalid_args("no task updates provided"));
    assert_eq!(e.errors, vec!["no task updates provided".to_string()]);

    let e = http_errors(&Error::internal("connection lost"));
    assert_eq!(e.errors, vec!["connection lost".to_string()]);
}

#[test]
fn error_constructors_build_their_kind() {
    assert!(matches!(
        Error::not_found("x"),
        Error::NotFound { .. }
    ));
    assert!(matches!(
        Error::invalid_args("x"),
        Error::InvalidArgs { .. }
    ));
    assert!(matches!(Error::internal("x"), Error::Internal { .. }));
}
