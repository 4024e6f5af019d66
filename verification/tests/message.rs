use zellij_attention::host::PipeMessage;
use zellij_attention::message::{interpret, kind_named, read_message, Message, MessageError};
use zellij_attention::state::NotificationType;

fn named(name: &str) -> Message {
    read_message(&PipeMessage { name: name.to_string(), payload: None })
}

fn sent(payload: &str) -> Message {
    read_message(&PipeMessage {
        name: "b7f4a1d2".to_string(),
        payload: Some(payload.to_string()),
    })
}

#[test]
fn message_in_the_documented_format() {
    let expected = Message::Notify { pane: 5, kind: NotificationType::Waiting };
    assert_eq!(named("zellij-attention::waiting::5"), expected);
    assert_eq!(sent("zellij-attention::waiting::5"), expected);
    assert_eq!(
        named("zellij-attention::completed::4294967295"),
        Message::Notify { pane: 4294967295, kind: NotificationType::Completed }
    );
}

#[test]
fn name_counts_before_payload() {
    let message = PipeMessage {
        name: "zellij-attention::waiting::1".to_string(),
        payload: Some("zellij-attention::completed::2".to_string()),
    };
    assert_eq!(
        read_message(&message),
        Message::Notify { pane: 1, kind: NotificationType::Waiting }
    );
}

#[test]
fn messages_with_another_address_are_ignored() {
    assert_eq!(named("zellij-attention:waiting:5"), Message::Ignored);
    assert_eq!(named("waiting::5"), Message::Ignored);
    assert_eq!(sent("waiting::5"), Message::Ignored);
    assert_eq!(named(""), Message::Ignored);
}

#[test]
fn event_types_do_not_depend_on_case() {
    assert_eq!(
        named("zellij-attention::WAITING::3"),
        Message::Notify { pane: 3, kind: NotificationType::Waiting }
    );
    assert_eq!(
        named("zellij-attention::CompleTed::3"),
        Message::Notify { pane: 3, kind: NotificationType::Completed }
    );
}

#[test]
fn unknown_event_is_reported_in_lower_case() {
    assert_eq!(
        named("zellij-attention::Éteint::3"),
        Message::Rejected(MessageError::UnknownEvent("éteint".to_string()))
    );
    assert_eq!(
        named("zellij-attention::::3"),
        Message::Rejected(MessageError::UnknownEvent("".to_string()))
    );
}

#[test]
fn bad_pane_id_is_reported() {
    assert_eq!(
        named("zellij-attention::waiting::x"),
        Message::Rejected(MessageError::InvalidPaneId("x".to_string()))
    );
    assert_eq!(
        named("zellij-attention::nonsense::4294967296"),
        Message::Rejected(MessageError::InvalidPaneId("4294967296".to_string()))
    );
    assert_eq!(
        named("zellij-attention::waiting::"),
        Message::Rejected(MessageError::InvalidPaneId("".to_string()))
    );
}

#[test]
fn missing_field_is_reported() {
    assert_eq!(
        named("zellij-attention::waiting"),
        Message::Rejected(MessageError::InvalidFormat)
    );
    assert_eq!(named("zellij-attention::"), Message::Rejected(MessageError::InvalidFormat));
}

#[test]
fn fields_behind_the_third_do_not_count() {
    assert_eq!(
        named("zellij-attention::waiting::7::more::fields"),
        Message::Notify { pane: 7, kind: NotificationType::Waiting }
    );
}

#[test]
fn interpreting_fields() {
    let fields = vec!["zellij-attention".to_string(), "ANY".to_string(), "8".to_string()];
    assert_eq!(
        interpret(&fields, "completed"),
        Message::Notify { pane: 8, kind: NotificationType::Completed }
    );
    assert_eq!(kind_named("waiting"), Some(NotificationType::Waiting));
    assert_eq!(kind_named("Waiting"), None);
}
