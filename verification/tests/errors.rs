use bycat_http::error::Error;
use bycat_http::geenie::error::GeenieError;
use bycat_http::geenie::process::process_outcome;
use bycat_http::matcher::or_not_found;
use bycat_http::serve::work_error_line;

#[test]
fn not_found_answers_404() {
    let e = Error::not_found();
    assert!(!e.has_source());
    assert_eq!(e.message(), "Not Found");
    let r = e.into_response();
    assert_eq!(r.status, 404);
    assert!(r.headers.is_empty());
    assert_eq!(r.body, b"Not Found".to_vec());
}

#[test]
fn max_size_answers_413() {
    let e = Error::max_size_reached();
    assert_eq!(e.message(), "Maximum Size Reached");
    let r = e.into_response();
    assert_eq!(r.status, 413);
    assert_eq!(r.body, b"Maximum Size Reached".to_vec());
}

#[test]
fn custom_error_hides_its_message_from_the_client() {
    let e = Error::custom("database down".to_string());
    assert!(e.has_source());
    assert_eq!(e.message(), "database down");
    let r = e.into_response();
    assert_eq!(r.status, 500);
    assert_eq!(r.body, b"Internal Server Error".to_vec());
}

#[test]
fn http_error_shows_its_message() {
    let e = Error::http("invalid header".to_string());
    assert!(e.has_source());
    assert_eq!(e.message(), "HTTP Error: invalid header");
    let r = e.into_response();
    assert_eq!(r.status, 500);
    assert_eq!(r.body, b"HTTP Error: invalid header".to_vec());
}

#[test]
fn or_fails_with_not_found() {
    let r = or_not_found().into_response();
    assert_eq!(r.status, 404);
    assert_eq!(r.body, b"Not Found".to_vec());
}

#[test]
fn work_error_is_logged_with_its_message() {
    assert_eq!(work_error_line(&Error::not_found()), "Error Not Found");
}

#[test]
fn geenie_error_messages() {
    assert_eq!(GeenieError::Io("disk full".to_string()).message(), "io error: disk full");
    assert_eq!(GeenieError::duplicate("a.rs".to_string()).message(), "duplicate path: a.rs");
    assert_eq!(
        GeenieError::already_exists("b.rs".to_string()).message(),
        "file already exists: b.rs"
    );
    assert_eq!(GeenieError::command("boom".to_string()).message(), "command failed: boom");
    assert_eq!(GeenieError::backend("x".to_string()).message(), "backend: x");
    assert_eq!(GeenieError::Prompt("cancelled".to_string()).message(), "cancelled");
    assert!(GeenieError::Io(String::new()).is_io());
    assert!(!GeenieError::Prompt(String::new()).is_io());
}

#[test]
fn process_outcome_follows_exit_status() {
    assert!(process_outcome(true, "ignored".to_string()).is_ok());
    match process_outcome(false, "no such file".to_string()) {
        Err(GeenieError::Process { error }) => assert_eq!(error, "no such file"),
        _ => panic!("expected a command error"),
    }
}
