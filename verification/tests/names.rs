use dbcc::checked::{try_message_const, try_to_enum_name};
use dbcc::ident::{is_ident, is_kept_char, is_prefixed};
use dbcc::model::{Message, MessageId};
use dbcc::naming::{
    decimal_text, message_const_name, message_names, raw_field_name, signal_enum_name,
};
use dbcc::TypeName;

fn message(name: &str) -> Message {
    Message {
        message_id: MessageId(291),
        message_name: name.to_string(),
        signals: Vec::new(),
    }
}

#[test]
fn type_name_keeps_letters_digits_and_underscores() {
    assert_eq!("Abc_1é".to_type_name(), "Abc_1é");
    assert_eq!("a_b".to_type_name(), "a_b");
    assert_eq!("".to_type_name(), "");
}

#[test]
fn type_name_prefixes_what_starts_with_no_letter() {
    assert_eq!("1abc".to_type_name(), "X1abc");
    assert_eq!("_ab".to_type_name(), "X_ab");
    assert_eq!("_".to_type_name(), "X_");
}

#[test]
fn type_name_replaces_what_cannot_stand() {
    assert_eq!("Can't".to_type_name(), "CanXt");
    assert_eq!("A b.c٣".to_type_name(), "AXbXcX");
    // The first character too, behind the prefix.
    assert_eq!("-a".to_type_name(), "XXa");
    assert_eq!("-".to_type_name(), "XX");
    assert_eq!("٣".to_type_name(), "XX");
}

#[test]
fn type_name_is_stable() {
    for text in ["", "-a", "1a-b", "Low Idle", "_x y", "Größe 1"] {
        let once = text.to_type_name();
        assert_eq!(once.to_type_name(), once);
    }
}

#[test]
fn type_name_of_ascii_text_is_ident() {
    for text in ["0 = off", "-1", "_", " ", "'"] {
        assert!(is_ident(&text.to_type_name()), "{}", text);
    }
    assert!(!is_ident(&"".to_type_name()));
}

#[test]
fn characters_of_a_type_name() {
    for c in ['a', 'Z', 'é'] {
        assert!(!is_prefixed(c) && is_kept_char(c), "{}", c);
    }
    for c in ['0', '_'] {
        assert!(is_prefixed(c) && is_kept_char(c), "{}", c);
    }
    for c in ['-', ' ', '٣'] {
        assert!(is_prefixed(c) && !is_kept_char(c), "{}", c);
    }
}

#[test]
fn identifiers() {
    for text in ["a", "_", "self", "A1_b", "größe", "东"] {
        assert!(is_ident(text), "{}", text);
    }
    for text in ["", "1", "1a", "a-b", "a b", "a'", "r#a", "Ⓐ", "٣"] {
        assert!(!is_ident(text), "{}", text);
    }
    assert!(is_ident("a٣"));
}

#[test]
fn decimals() {
    for n in [0, 7, 9, 10, 99, 100, 2365194522, u32::MAX] {
        assert_eq!(decimal_text(n), n.to_string());
    }
}

#[test]
fn item_names() {
    assert_eq!(raw_field_name("engine_speed"), "engine_speed_raw_value");
    assert_eq!(raw_field_name(""), "_raw_value");
    assert_ne!(raw_field_name("a"), raw_field_name("a_raw_value"));
    assert_eq!(signal_enum_name("Mode", MessageId(42)), "Mode42");
    assert_eq!(message_const_name("EEC1"), "MESSAGE_ID_EEC1");
}

#[test]
fn converted_names() {
    let names = message_names(&message("HelloWorld XMLHttp_request"));
    assert_eq!(names.camel, "HelloWorldXmlHttpRequest");
    assert_eq!(names.shouty, "HELLO_WORLD_XML_HTTP_REQUEST");
}

#[test]
fn enum_names_from_signal_names() {
    let id = MessageId(2000);
    let name = try_to_enum_name(&id, "Eng_torque_mode").unwrap();
    assert_eq!(name.to_string(), "EngTorqueMode2000");
    assert!(try_to_enum_name(&id, "1st").is_none());
    assert!(try_to_enum_name(&id, "").is_none());
}

#[test]
fn message_constant() {
    let tokens = try_message_const(&message("WebData_291")).unwrap();
    assert_eq!(
        tokens.to_string(),
        "# [allow (dead_code)] pub const MESSAGE_ID_WEB_DATA_291 : u32 = 291u32 ;"
    );
    // An empty name still makes a constant.
    assert_eq!(
        try_message_const(&message("")).unwrap().to_string(),
        "# [allow (dead_code)] pub const MESSAGE_ID_ : u32 = 291u32 ;"
    );
    assert!(try_message_const(&message("it's")).is_none());
}
