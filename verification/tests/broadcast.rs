use bayard::cluster::broadcast::{MessageHandler, MessageHandlerErrorKind};
use bayard::cluster::message::{Message, MessageKind};

#[test]
fn newer_versions_are_handed_on_and_older_ones_dropped() {
    let mut handler = MessageHandler::new();

    let first = Message::with_body_version(MessageKind::CreateIndex, b"a", 10);
    let handed = handler.receive_item(first.as_bytes()).unwrap().unwrap();
    assert_eq!(handed.as_bytes(), first.as_bytes());

    // The same message again, and an older one, are dropped.
    assert!(handler.receive_item(first.as_bytes()).unwrap().is_none());
    let older = Message::with_body_version(MessageKind::CreateIndex, b"b", 9);
    assert!(handler.receive_item(older.as_bytes()).unwrap().is_none());

    // A newer one of the same kind is handed on.
    let newer = Message::with_body_version(MessageKind::CreateIndex, b"c", 11);
    assert!(handler.receive_item(newer.as_bytes()).unwrap().is_some());

    // Kinds are tracked apart.
    let other_kind = Message::with_body_version(MessageKind::DeleteIndex, b"d", 1);
    assert!(handler.receive_item(other_kind.as_bytes()).unwrap().is_some());
}

#[test]
fn messages_of_unknown_kind_are_dropped() {
    let mut handler = MessageHandler::new();
    let mut bytes = Message::with_body_version(MessageKind::ModifyIndex, b"", 3)
        .as_bytes()
        .to_vec();
    bytes[8] = 42;
    assert!(handler.receive_item(&bytes).unwrap().is_none());
    // The dropped message did not count as seen.
    let valid = Message::with_body_version(MessageKind::ModifyIndex, b"", 3);
    assert!(handler.receive_item(valid.as_bytes()).unwrap().is_some());
}

#[test]
fn handler_errors_keep_their_kind_under_context() {
    let error = MessageHandlerErrorKind::SendError.with_error("channel closed".to_string());
    let error = error.add_context("broadcast");
    assert_eq!(error.kind(), MessageHandlerErrorKind::SendError);
    assert_eq!(error.source_text(), "broadcast");
    assert_eq!(error.cause_texts(), ["channel closed"]);
}
