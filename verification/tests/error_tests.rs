use hearth_engine::error::{EngineError, ErrorContext, OptionExt};
use hearth_engine::persistence::PersistenceError;
use hearth_engine::text::parse_u32;

#[test]
fn test_error_display() {
    let err = EngineError::BufferAccess { index: 10, size: 5 };
    assert_eq!(
        err.to_string(),
        "Buffer access out of bounds: index 10 >= size 5"
    );
}

#[test]
fn test_option_ext() {
    let opt: Option<i32> = None;
    let result = opt.ok_or_engine(|| EngineError::Internal {
        message: "test".to_string(),
    });
    assert!(result.is_err());
}

#[test]
fn test_error_context() {
    let result: Result<i32, std::io::Error> = Err(std::io::Error::new(
        std::io::ErrorKind::NotFound,
        "file not found",
    ));
    let with_context = result.context("loading config");
    assert!(with_context.is_err());
}

#[test]
fn option_ext_keeps_present_value() {
    let opt: Option<i32> = Some(7);
    let result = opt.ok_or_engine(|| EngineError::DeviceNotFound);
    assert_eq!(result.ok(), Some(7));
}

#[test]
fn context_message_is_the_given_text() {
    let result: Result<i32, String> = Err("inner".to_string());
    match result.context("loading config") {
        Err(e) => assert_eq!(e.to_string(), "Internal error: loading config"),
        Ok(_) => panic!("expected an error"),
    }
}

#[test]
fn with_context_uses_the_closure() {
    let result: Result<u8, ()> = Err(());
    match result.with_context(|| "built later".to_string()) {
        Err(EngineError::Internal { message }) => assert_eq!(message, "built later"),
        _ => panic!("expected an internal error"),
    }
}

#[test]
fn coordinates_are_written_as_a_tuple() {
    let err = EngineError::ChunkNotLoaded { pos: (1, -2, 30) };
    assert_eq!(err.to_string(), "Chunk not loaded at position (1, -2, 30)");
    let err = EngineError::BlockOutOfBounds { pos: (-7, 0, 4), chunk_size: 50 };
    assert_eq!(
        err.to_string(),
        "Block position (-7, 0, 4) out of bounds for chunk size 50"
    );
}

#[test]
fn messages_of_several_variants() {
    assert_eq!(EngineError::DeviceNotFound.to_string(), "GPU device not found");
    assert_eq!(
        EngineError::PacketTooLarge { size: 2048, max_size: 1024 }.to_string(),
        "Packet too large: 2048 bytes (max: 1024)"
    );
    assert_eq!(
        EngineError::InvalidConfig {
            field: "fps".to_string(),
            value: "0".to_string(),
            reason: "must be positive".to_string(),
        }
        .to_string(),
        "Invalid config: fps = 0 (must be positive)"
    );
    assert_eq!(
        EngineError::ResourceNotFound {
            resource_type: "texture".to_string(),
            id: "stone".to_string(),
        }
        .to_string(),
        "Resource not found: texture 'stone'"
    );
    assert_eq!(
        EngineError::PlayerNotFound { id: 18446744073709551615 }.to_string(),
        "Player not found: 18446744073709551615"
    );
    assert_eq!(
        EngineError::ParseError { value: "x".to_string(), expected_type: "u32".to_string() }
            .to_string(),
        "Parse error: 'x' is not a valid u32"
    );
}

#[test]
fn persistence_version_texts_become_numbers() {
    let e = EngineError::from_persistence(PersistenceError::VersionMismatch {
        expected: "+3".to_string(),
        found: "x1".to_string(),
    });
    match e {
        EngineError::VersionMismatch { expected, found } => {
            assert_eq!(expected, 3);
            assert_eq!(found, 0);
        }
        _ => panic!("expected a version mismatch"),
    }
}

#[test]
fn persistence_errors_keep_their_message() {
    let e: EngineError = PersistenceError::CompressionError("bad zlib".to_string()).into();
    assert_eq!(e.to_string(), "Internal error: Compression error: bad zlib");
    let e = EngineError::from_persistence(PersistenceError::SerializationError("eof".to_string()));
    assert_eq!(e.to_string(), "Serialization error in persistence: eof");
    let e = EngineError::from_persistence(PersistenceError::LockPoisoned("world".to_string()));
    assert_eq!(e.to_string(), "Lock poisoned for resource: world");
}

#[test]
fn u32_text_is_read_as_from_str_reads_it() {
    assert_eq!(parse_u32("12"), Some(12));
    assert_eq!(parse_u32("+12"), Some(12));
    assert_eq!(parse_u32("007"), Some(7));
    assert_eq!(parse_u32("4294967295"), Some(u32::MAX));
    assert_eq!(parse_u32("4294967296"), None);
    assert_eq!(parse_u32("99999999999999999999"), None);
    assert_eq!(parse_u32(""), None);
    assert_eq!(parse_u32("+"), None);
    assert_eq!(parse_u32("-1"), None);
    assert_eq!(parse_u32("1a"), None);
    assert_eq!(parse_u32(" 1"), None);
}
