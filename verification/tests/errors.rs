use rustiq::errors::json_error_is_io_failure;
use rustiq::RustiqError;

#[test]
fn test_serde_json_error_conversion() {
    let invalid_json = "{ invalid }";
    let result: Result<serde_json::Value, serde_json::Error> = serde_json::from_str(invalid_json);
    assert!(result.is_err());

    let err = result.unwrap_err();
    let rustiq_err: RustiqError = err.into();

    match rustiq_err {
        RustiqError::SerializationError(msg) => {
            assert!(msg.contains("key") || msg.contains("expected") || msg.contains("line 1"));
        }
        _ => panic!("Expected SerializationError"),
    }
}

#[test]
fn uuid_error_becomes_invalid_payload() {
    let err = uuid::Uuid::parse_str("not-a-uuid").unwrap_err();
    let text = err.to_string();
    let rustiq_err: RustiqError = err.into();
    match &rustiq_err {
        RustiqError::InvalidPayload(msg) => assert_eq!(msg, &format!("Invalid UUID: {}", text)),
        _ => panic!("Expected InvalidPayload"),
    }
    assert!(!rustiq_err.is_recoverable());
}

#[test]
fn invalid_uuid_prefixes_detail() {
    match RustiqError::invalid_uuid("bad length".to_string()) {
        RustiqError::InvalidPayload(msg) => assert_eq!(msg, "Invalid UUID: bad length"),
        _ => panic!("Expected InvalidPayload"),
    }
}

#[test]
fn only_storage_errors_are_recoverable() {
    assert!(RustiqError::StorageError("disk".to_string()).is_recoverable());
    assert!(!RustiqError::QueueNotFound("q".to_string()).is_recoverable());
    assert!(!RustiqError::SerializationError("s".to_string()).is_recoverable());
    assert!(!RustiqError::InvalidPayload("p".to_string()).is_recoverable());
    assert!(!RustiqError::JobNotFound(0).is_recoverable());
}

#[test]
fn messages_name_the_error() {
    assert_eq!(RustiqError::StorageError("disk full".to_string()).message(), "Storage error: disk full");
    assert_eq!(RustiqError::QueueNotFound("mail".to_string()).message(), "Queue not found: mail");
    assert_eq!(
        RustiqError::SerializationError("bad".to_string()).message(),
        "Serialization error: bad"
    );
    assert_eq!(RustiqError::InvalidPayload("big".to_string()).message(), "Invalid payload: big");
}

#[test]
fn job_not_found_message_shows_hyphenated_id() {
    let id = 0x67e5504410b1426f9247bb680e5fe0c8u128;
    assert_eq!(
        RustiqError::JobNotFound(id).message(),
        "Job not found: 67e55044-10b1-426f-9247-bb680e5fe0c8"
    );
    assert_eq!(
        RustiqError::JobNotFound(0).message(),
        "Job not found: 00000000-0000-0000-0000-000000000000"
    );
}

#[test]
fn json_error_keeps_its_own_text() {
    let err = serde_json::from_str::<serde_json::Value>("[1, 2").unwrap_err();
    let text = err.to_string();
    match RustiqError::from(err) {
        RustiqError::SerializationError(msg) => assert_eq!(msg, text),
        _ => panic!("Expected SerializationError"),
    }
}

#[test]
fn parse_errors_are_not_io_failures() {
    let err = serde_json::from_str::<serde_json::Value>("{ invalid }").unwrap_err();
    assert!(!json_error_is_io_failure(&err));
    let io = serde_json::Error::io(std::io::Error::new(std::io::ErrorKind::Other, "gone"));
    assert!(json_error_is_io_failure(&io));
}
