use bayard::cluster::message::{Message, MessageErrorKind, MessageKind};

#[test]
fn new() {
    let kind = MessageKind::Unknown;
    let message = Message::new(kind);

    assert_eq!(message.kind().unwrap(), MessageKind::Unknown);
}

#[test]
fn with_body() {
    let kind = MessageKind::Unknown;
    let body = b"test";
    let message = Message::with_body(kind, body);

    assert_eq!(message.kind().unwrap(), MessageKind::Unknown);
    assert_eq!(message.body(), body);
}

#[test]
fn with_body_version() {
    let kind = MessageKind::Unknown;
    let body = b"test";
    let version = 1;
    let message = Message::with_body_version(kind, body, version);

    assert_eq!(message.kind().unwrap(), MessageKind::Unknown);
    assert_eq!(message.body(), body);
    assert_eq!(message.version(), version);
}

#[test]
fn wire_format_is_big_endian() {
    let message = Message::with_body_version(MessageKind::ModifyIndex, b"ab", -2);
    assert_eq!(
        message.as_bytes(),
        &[0xff, 0xff, 0xff, 0xff, 0xff, 0xff, 0xff, 0xfe, 5, 0, 0, 0, 0, 0, 0, 0, 2, b'a', b'b']
    );
    let read = Message::from_bytes(message.as_bytes()).unwrap();
    assert_eq!(read.version(), -2);
    assert_eq!(read.kind().unwrap(), MessageKind::ModifyIndex);
    assert_eq!(read.body(), b"ab");
}

#[test]
fn unknown_kind_code_is_rejected() {
    let mut bytes = Message::with_body_version(MessageKind::CreateIndex, b"", 7)
        .as_bytes()
        .to_vec();
    bytes[8] = 1;
    let message = Message::from_bytes(&bytes).unwrap();
    assert!(matches!(
        message.kind().unwrap_err().kind(),
        MessageErrorKind::InvalidMessageKind
    ));
}

#[test]
fn kind_codes_and_names() {
    for kind in [
        MessageKind::Unknown,
        MessageKind::CreateIndex,
        MessageKind::DeleteIndex,
        MessageKind::ModifyIndex,
    ] {
        assert_eq!(MessageKind::from_u8(kind.to_u8()).unwrap(), kind);
        assert_eq!(MessageKind::from_str(kind.name()).unwrap(), kind);
    }
    assert_eq!(MessageKind::CreateIndex.to_u8(), 3);
    assert_eq!(MessageKind::ModifyIndex.name(), "modify_index");
    assert!(MessageKind::from_u8(2).is_err());
    assert_eq!(MessageKind::from_u8(200).unwrap_err().source_text(), "Unknown message kind: 200");
    assert_eq!(MessageKind::from_str("drop").unwrap_err().source_text(), "Unknown message kind: drop");
    assert!(matches!(
        MessageKind::from_str("create").unwrap_err().kind(),
        MessageErrorKind::InvalidMessageKind
    ));
}

#[test]
fn higher_version_of_same_kind_invalidates() {
    let old = Message::with_body_version(MessageKind::CreateIndex, b"x", 1);
    let new = Message::with_body_version(MessageKind::CreateIndex, b"y", 2);
    let other = Message::with_body_version(MessageKind::DeleteIndex, b"y", 3);
    assert!(new.invalidates(&old));
    assert!(!old.invalidates(&new));
    assert!(!new.invalidates(&new));
    assert!(!other.invalidates(&old));
}

#[test]
fn error_context_becomes_the_description() {
    let error = MessageErrorKind::ReadError
        .with_error("broken pipe".to_string())
        .add_context("reading message");
    assert!(matches!(error.kind(), MessageErrorKind::ReadError));
    assert_eq!(error.source_text(), "reading message");
    assert_eq!(error.cause_texts(), ["broken pipe"]);
}
