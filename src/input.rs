//! Translation of key presses into the byte sequences a shell expects.
use vstd::prelude::*;

verus! {

/// The named keys that have a byte sequence of their own.
#[derive(Clone, Copy, PartialEq, Eq, Structural, Debug)]
pub enum NamedKey {
    Space,
    Enter,
    Backspace,
    Tab,
    Escape,
    ArrowUp,
    ArrowDown,
    ArrowRight,
    ArrowLeft,
    Home,
    End,
    PageUp,
    PageDown,
    Delete,
    Insert,
}

/// A logical key: the UTF-8 text it types, a named key, or any other key.
pub enum KeyInput {
    Character(Vec<u8>),
    Named(NamedKey),
    Unmapped,
}

/// The bytes sent for a named key.
pub open spec fn named_bytes(k: NamedKey) -> Seq<u8> {
    match k {
        NamedKey::Space => seq![0x20u8],
        NamedKey::Enter => seq![0x0au8],
        NamedKey::Backspace => seq![0x7fu8],
        NamedKey::Tab => seq![0x09u8],
        NamedKey::Escape => seq![0x1bu8],
        NamedKey::ArrowUp => seq![0x1bu8, 0x5bu8, 0x41u8],
        NamedKey::ArrowDown => seq![0x1bu8, 0x5bu8, 0x42u8],
        NamedKey::ArrowRight => seq![0x1bu8, 0x5bu8, 0x43u8],
        NamedKey::ArrowLeft => seq![0x1bu8, 0x5bu8, 0x44u8],
        NamedKey::Home => seq![0x1bu8, 0x5bu8, 0x48u8],
        NamedKey::End => seq![0x1bu8, 0x5bu8, 0x46u8],
        NamedKey::PageUp => seq![0x1bu8, 0x5bu8, 0x35u8, 0x7eu8],
        NamedKey::PageDown => seq![0x1bu8, 0x5bu8, 0x36u8, 0x7eu8],
        NamedKey::Delete => seq![0x1bu8, 0x5bu8, 0x33u8, 0x7eu8],
        NamedKey::Insert => seq![0x1bu8, 0x5bu8, 0x32u8, 0x7eu8],
    }
}

/// An ASCII letter. In UTF-8 text only a one-byte character can be one.
pub open spec fn is_ascii_letter(b: u8) -> bool {
    (0x41 <= b <= 0x5a) || (0x61 <= b <= 0x7a)
}

/// Control code of an ASCII letter: Ctrl-A is 1, ..., Ctrl-Z is 26.
pub open spec fn control_code(b: u8) -> u8 {
    if b <= 0x5a { (b - 0x40) as u8 } else { (b - 0x60) as u8 }
}

/// What a key event sends: nothing on release; with Control held, the
/// control code of a typed letter (nothing for empty text); otherwise the
/// typed text or the named key's sequence.
pub open spec fn key_bytes(key: KeyInput, pressed: bool, ctrl: bool) -> Option<Seq<u8>> {
    if !pressed {
        None
    } else {
        match key {
            KeyInput::Character(s) => if ctrl && s@.len() == 0 {
                None
            } else if ctrl && is_ascii_letter(s@[0]) {
                Some(seq![control_code(s@[0])])
            } else {
                Some(s@)
            },
            KeyInput::Named(k) => Some(named_bytes(k)),
            KeyInput::Unmapped => None,
        }
    }
}

/// The contents of an optional byte vector.
pub open spec fn opt_view(r: Option<Vec<u8>>) -> Option<Seq<u8>> {
    match r {
        Some(v) => Some(v@),
        None => None,
    }
}

fn named_sequence(k: NamedKey) -> (r: Vec<u8>)
    ensures
        r@ == named_bytes(k),
{
    let r: Vec<u8> = match k {
        NamedKey::Space => vec![0x20u8],
        NamedKey::Enter => vec![0x0au8],
        NamedKey::Backspace => vec![0x7fu8],
        NamedKey::Tab => vec![0x09u8],
        NamedKey::Escape => vec![0x1bu8],
        NamedKey::ArrowUp => vec![0x1bu8, 0x5bu8, 0x41u8],
        NamedKey::ArrowDown => vec![0x1bu8, 0x5bu8, 0x42u8],
        NamedKey::ArrowRight => vec![0x1bu8, 0x5bu8, 0x43u8],
        NamedKey::ArrowLeft => vec![0x1bu8, 0x5bu8, 0x44u8],
        NamedKey::Home => vec![0x1bu8, 0x5bu8, 0x48u8],
        NamedKey::End => vec![0x1bu8, 0x5bu8, 0x46u8],
        NamedKey::PageUp => vec![0x1bu8, 0x5bu8, 0x35u8, 0x7eu8],
        NamedKey::PageDown => vec![0x1bu8, 0x5bu8, 0x36u8, 0x7eu8],
        NamedKey::Delete => vec![0x1bu8, 0x5bu8, 0x33u8, 0x7eu8],
        NamedKey::Insert => vec![0x1bu8, 0x5bu8, 0x32u8, 0x7eu8],
    };
    assert(r@ =~= named_bytes(k));
    r
}

/// The bytes to send for a key event, as `key_bytes` states.
pub fn translate_key(key: &KeyInput, pressed: bool, modifiers_ctrl: bool) -> (r: Option<Vec<u8>>)
    ensures
        opt_view(r) == key_bytes(*key, pressed, modifiers_ctrl),
{
    if !pressed {
        return None;
    }
    match key {
        KeyInput::Character(s) => {
            if modifiers_ctrl {
                if s.len() == 0 {
                    return None;
                }
                let c: u8 = s[0];
                if (0x41 <= c && c <= 0x5a) || (0x61 <= c && c <= 0x7a) {
                    let code: u8 = if c <= 0x5a { c - 0x40 } else { c - 0x60 };
                    let v: Vec<u8> = vec![code];
                    assert(v@ =~= seq![control_code(c)]);
                    return Some(v);
                }
            }
            let mut v: Vec<u8> = Vec::new();
            let mut i: usize = 0;
            while i < s.len()
                invariant
                    i <= s@.len(),
                    v@ == s@.subrange(0, i as int),
                decreases s@.len() - i,
            {
                v.push(s[i]);
                i = i + 1;
                assert(v@ =~= s@.subrange(0, i as int));
            }
            assert(v@ =~= s@);
            Some(v)
        },
        KeyInput::Named(k) => Some(named_sequence(*k)),
        KeyInput::Unmapped => None,
    }
}

} // verus!
