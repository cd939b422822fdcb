use chunkwire::response::{Response, ResponseStatus};

#[test]
fn plain_ok_is_success() {
    let r = Response::from_data(String::from("10.0.0.2:8686"), "ok\r\n");
    assert_eq!(r.status, ResponseStatus::Success);
    assert_eq!(r.body, "ok");
    assert_eq!(r.address, "10.0.0.2:8686");
}

#[test]
fn error_text_beats_trailing_ok() {
    // failure has priority even though the trimmed text ends with "ok"
    let r = Response::from_data(String::new(), "error: bad block ok\r\n");
    assert_eq!(r.status, ResponseStatus::Failure);
}

#[test]
fn error_anywhere_is_failure() {
    let r = Response::from_data(String::new(), "line one\nsome error here\n");
    assert_eq!(r.status, ResponseStatus::Failure);
}

#[test]
fn unrecognised_text_is_unknown() {
    let r = Response::from_data(String::new(), "hello device\r\n");
    assert_eq!(r.status, ResponseStatus::Unknown);
    assert_eq!(r.body, "hello device");
}

#[test]
fn empty_input_is_unknown_with_empty_body() {
    let r = Response::from_data(String::new(), "");
    assert_eq!(r.status, ResponseStatus::Unknown);
    assert_eq!(r.body, "");
}

#[test]
fn body_stops_before_last_newline() {
    let r = Response::from_data(String::new(), "FIRMWARE:1.2\nMACHINE:x\nok\r\n");
    assert_eq!(r.status, ResponseStatus::Success);
    assert_eq!(r.body, "FIRMWARE:1.2\nMACHINE:x");
}

#[test]
fn whitespace_is_trimmed_before_classifying() {
    let r = Response::from_data(String::new(), "  \t ok \r\n");
    // trailing whitespace goes before the suffix test
    assert_eq!(r.status, ResponseStatus::Success);
    assert_eq!(r.body, "ok");
}
