use exodus_term::input::{translate_key, KeyInput, NamedKey};

#[test]
fn release_sends_nothing() {
    assert_eq!(translate_key(&KeyInput::Character(b"a".to_vec()), false, false), None);
}

#[test]
fn text_is_sent_as_typed() {
    assert_eq!(translate_key(&KeyInput::Character("é".as_bytes().to_vec()), true, false), Some("é".as_bytes().to_vec()));
    assert_eq!(translate_key(&KeyInput::Character(b"x".to_vec()), true, false), Some(vec![b'x']));
}

#[test]
fn control_letters_become_control_codes() {
    assert_eq!(translate_key(&KeyInput::Character(b"c".to_vec()), true, true), Some(vec![3]));
    assert_eq!(translate_key(&KeyInput::Character(b"A".to_vec()), true, true), Some(vec![1]));
    assert_eq!(translate_key(&KeyInput::Character(b"z".to_vec()), true, true), Some(vec![26]));
    assert_eq!(translate_key(&KeyInput::Character(b"1".to_vec()), true, true), Some(vec![b'1']));
    assert_eq!(translate_key(&KeyInput::Character(Vec::new()), true, true), None);
}

#[test]
fn named_keys_have_sequences() {
    assert_eq!(translate_key(&KeyInput::Named(NamedKey::Enter), true, false), Some(vec![b'\n']));
    assert_eq!(translate_key(&KeyInput::Named(NamedKey::Backspace), true, true), Some(vec![0x7f]));
    assert_eq!(translate_key(&KeyInput::Named(NamedKey::ArrowLeft), true, false), Some(vec![0x1b, b'[', b'D']));
    assert_eq!(translate_key(&KeyInput::Named(NamedKey::Delete), true, false), Some(vec![0x1b, b'[', b'3', b'~']));
    assert_eq!(translate_key(&KeyInput::Unmapped, true, false), None);
}
