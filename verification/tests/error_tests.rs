use blindtally::errors::AppError;
use blindtally::routes::{
    not_open, ApiError, STATUS_BAD_REQUEST, STATUS_CONFLICT, STATUS_INTERNAL_SERVER_ERROR,
};

#[test]
fn app_error_texts_name_the_kind_of_failure() {
    assert_eq!(AppError::Io("gone".to_string()).text(), "io: gone");
    assert_eq!(AppError::Tfhe("bad".to_string()).text(), "tfhe: bad");
    assert_eq!(AppError::Encode("x".to_string()).text(), "serialization (encode): x");
    assert_eq!(AppError::Decode("y".to_string()).text(), "serialization (decode): y");
    assert_eq!(AppError::UnknownCandidate("carol".to_string()).text(), "unknown candidate: carol");
}

#[test]
fn undecodable_bodies_are_the_clients_fault() {
    let e = ApiError::from(AppError::Decode("eof".to_string()));
    assert_eq!(e.status(), STATUS_BAD_REQUEST);
    assert_eq!(e.status(), 400);
    assert_eq!(e.message(), "serialization (decode): eof");
}

#[test]
fn other_errors_are_the_servers() {
    for err in [
        AppError::Io("a".to_string()),
        AppError::Tfhe("b".to_string()),
        AppError::Encode("c".to_string()),
        AppError::UnknownCandidate("d".to_string()),
    ] {
        let text = err.text();
        let e = ApiError::from(err);
        assert_eq!(e.status(), STATUS_INTERNAL_SERVER_ERROR);
        assert_eq!(e.status(), 500);
        assert_eq!(e.message(), &text);
    }
}

#[test]
fn api_error_keeps_status_and_message() {
    let e = ApiError::new(418, "teapot");
    assert_eq!(e.status(), 418);
    assert_eq!(e.message(), "teapot");
}

#[test]
fn not_open_is_a_conflict() {
    let e = not_open();
    assert_eq!(e.status(), STATUS_CONFLICT);
    assert_eq!(e.status(), 409);
    assert_eq!(e.message(), "election not open: upload a server key first");
}
