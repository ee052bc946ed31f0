use hanode::message::{Message, MessageType};

#[test]
fn a_text_message_carries_its_text() {
    let m = Message::from("hello everyone".to_string());
    assert_eq!(m.type_, MessageType::Text);
    assert_eq!(m.message, "hello everyone");
}

#[test]
fn a_stop_message_carries_nothing() {
    let m = Message::stop_message();
    assert_eq!(m.type_, MessageType::Stop);
    assert_eq!(m.message, "");
}

#[test]
fn message_types_are_written_in_lower_case() {
    assert_eq!(MessageType::Text.to_string(), "text");
    assert_eq!(MessageType::Stop.to_string(), "stop");
}
