//! Key symbols: the closed set of keys that an input event can name.

use crate::text::{ascii, same_bytes};
use vstd::prelude::*;
use vstd::string::*;
use vstd::utf8::is_ascii_chars;

verus! {

/// A key of the keyboard, named by its place on a US layout.
#[derive(Clone, Copy, Debug, PartialEq, Eq, Hash, Structural)]
pub enum KeySymbol {
    Key0,
    Key1,
    Key2,
    Key3,
    Key4,
    Key5,
    Key6,
    Key7,
    Key8,
    Key9,
    A,
    B,
    C,
    D,
    E,
    F,
    G,
    H,
    I,
    J,
    K,
    L,
    M,
    N,
    O,
    P,
    Q,
    R,
    S,
    T,
    U,
    V,
    W,
    X,
    Y,
    Z,
    F1,
    F2,
    F3,
    F4,
    F5,
    F6,
    F7,
    F8,
    F9,
    F10,
    F11,
    F12,
    Escape,
    Space,
    LControl,
    RControl,
    LShift,
    RShift,
    LAlt,
    RAlt,
    Meta,
    Enter,
    Up,
    Down,
    Left,
    Right,
    Backspace,
    CapsLock,
    Tab,
    Home,
    End,
    PageUp,
    PageDown,
    Insert,
    Delete,
    Numpad0,
    Numpad1,
    Numpad2,
    Numpad3,
    Numpad4,
    Numpad5,
    Numpad6,
    Numpad7,
    Numpad8,
    Numpad9,
    NumpadSubtract,
    NumpadAdd,
    NumpadDivide,
    NumpadMultiply,
    Grave,
    Minus,
    Equal,
    LeftBracket,
    RightBracket,
    BackSlash,
    Semicolon,
    Apostrophe,
    Comma,
    Dot,
    Slash,
}

/// The number of key symbols.
pub const KEY_COUNT: usize = 96;

impl KeySymbol {
    /// The name under which the key stands in an event record.
    pub open spec fn name(self) -> Seq<char> {
        match self {
            KeySymbol::Key0 => "Key0"@,
            KeySymbol::Key1 => "Key1"@,
            KeySymbol::Key2 => "Key2"@,
            KeySymbol::Key3 => "Key3"@,
            KeySymbol::Key4 => "Key4"@,
            KeySymbol::Key5 => "Key5"@,
            KeySymbol::Key6 => "Key6"@,
            KeySymbol::Key7 => "Key7"@,
            KeySymbol::Key8 => "Key8"@,
            KeySymbol::Key9 => "Key9"@,
            KeySymbol::A => "A"@,
            KeySymbol::B => "B"@,
            KeySymbol::C => "C"@,
            KeySymbol::D => "D"@,
            KeySymbol::E => "E"@,
            KeySymbol::F => "F"@,
            KeySymbol::G => "G"@,
            KeySymbol::H => "H"@,
            KeySymbol::I => "I"@,
            KeySymbol::J => "J"@,
            KeySymbol::K => "K"@,
            KeySymbol::L => "L"@,
            KeySymbol::M => "M"@,
            KeySymbol::N => "N"@,
            KeySymbol::O => "O"@,
            KeySymbol::P => "P"@,
            KeySymbol::Q => "Q"@,
            KeySymbol::R => "R"@,
            KeySymbol::S => "S"@,
            KeySymbol::T => "T"@,
            KeySymbol::U => "U"@,
            KeySymbol::V => "V"@,
            KeySymbol::W => "W"@,
            KeySymbol::X => "X"@,
            KeySymbol::Y => "Y"@,
            KeySymbol::Z => "Z"@,
            KeySymbol::F1 => "F1"@,
            KeySymbol::F2 => "F2"@,
            KeySymbol::F3 => "F3"@,
            KeySymbol::F4 => "F4"@,
            KeySymbol::F5 => "F5"@,
            KeySymbol::F6 => "F6"@,
            KeySymbol::F7 => "F7"@,
            KeySymbol::F8 => "F8"@,
            KeySymbol::F9 => "F9"@,
            KeySymbol::F10 => "F10"@,
            KeySymbol::F11 => "F11"@,
            KeySymbol::F12 => "F12"@,
            KeySymbol::Escape => "Escape"@,
            KeySymbol::Space => "Space"@,
            KeySymbol::LControl => "LControl"@,
            KeySymbol::RControl => "RControl"@,
            KeySymbol::LShift => "LShift"@,
            KeySymbol::RShift => "RShift"@,
            KeySymbol::LAlt => "LAlt"@,
            KeySymbol::RAlt => "RAlt"@,
            KeySymbol::Meta => "Meta"@,
            KeySymbol::Enter => "Enter"@,
            KeySymbol::Up => "Up"@,
            KeySymbol::Down => "Down"@,
            KeySymbol::Left => "Left"@,
            KeySymbol::Right => "Right"@,
            KeySymbol::Backspace => "Backspace"@,
            KeySymbol::CapsLock => "CapsLock"@,
            KeySymbol::Tab => "Tab"@,
            KeySymbol::Home => "Home"@,
            KeySymbol::End => "End"@,
            KeySymbol::PageUp => "PageUp"@,
            KeySymbol::PageDown => "PageDown"@,
            KeySymbol::Insert => "Insert"@,
            KeySymbol::Delete => "Delete"@,
            KeySymbol::Numpad0 => "Numpad0"@,
            KeySymbol::Numpad1 => "Numpad1"@,
            KeySymbol::Numpad2 => "Numpad2"@,
            KeySymbol::Numpad3 => "Numpad3"@,
            KeySymbol::Numpad4 => "Numpad4"@,
            KeySymbol::Numpad5 => "Numpad5"@,
            KeySymbol::Numpad6 => "Numpad6"@,
            KeySymbol::Numpad7 => "Numpad7"@,
            KeySymbol::Numpad8 => "Numpad8"@,
            KeySymbol::Numpad9 => "Numpad9"@,
            KeySymbol::NumpadSubtract => "NumpadSubtract"@,
            KeySymbol::NumpadAdd => "NumpadAdd"@,
            KeySymbol::NumpadDivide => "NumpadDivide"@,
            KeySymbol::NumpadMultiply => "NumpadMultiply"@,
            KeySymbol::Grave => "Grave"@,
            KeySymbol::Minus => "Minus"@,
            KeySymbol::Equal => "Equal"@,
            KeySymbol::LeftBracket => "LeftBracket"@,
            KeySymbol::RightBracket => "RightBracket"@,
            KeySymbol::BackSlash => "BackSlash"@,
            KeySymbol::Semicolon => "Semicolon"@,
            KeySymbol::Apostrophe => "Apostrophe"@,
            KeySymbol::Comma => "Comma"@,
            KeySymbol::Dot => "Dot"@,
            KeySymbol::Slash => "Slash"@,
        }
    }

    /// The key's place in the enumeration, counted from zero.
    pub open spec fn index(self) -> int {
        match self {
            KeySymbol::Key0 => 0,
            KeySymbol::Key1 => 1,
            KeySymbol::Key2 => 2,
            KeySymbol::Key3 => 3,
            KeySymbol::Key4 => 4,
            KeySymbol::Key5 => 5,
            KeySymbol::Key6 => 6,
            KeySymbol::Key7 => 7,
            KeySymbol::Key8 => 8,
            KeySymbol::Key9 => 9,
            KeySymbol::A => 10,
            KeySymbol::B => 11,
            KeySymbol::C => 12,
            KeySymbol::D => 13,
            KeySymbol::E => 14,
            KeySymbol::F => 15,
            KeySymbol::G => 16,
            KeySymbol::H => 17,
            KeySymbol::I => 18,
            KeySymbol::J => 19,
            KeySymbol::K => 20,
            KeySymbol::L => 21,
            KeySymbol::M => 22,
            KeySymbol::N => 23,
            KeySymbol::O => 24,
            KeySymbol::P => 25,
            KeySymbol::Q => 26,
            KeySymbol::R => 27,
            KeySymbol::S => 28,
            KeySymbol::T => 29,
            KeySymbol::U => 30,
            KeySymbol::V => 31,
            KeySymbol::W => 32,
            KeySymbol::X => 33,
            KeySymbol::Y => 34,
            KeySymbol::Z => 35,
            KeySymbol::F1 => 36,
            KeySymbol::F2 => 37,
            KeySymbol::F3 => 38,
            KeySymbol::F4 => 39,
            KeySymbol::F5 => 40,
            KeySymbol::F6 => 41,
            KeySymbol::F7 => 42,
            KeySymbol::F8 => 43,
            KeySymbol::F9 => 44,
            KeySymbol::F10 => 45,
            KeySymbol::F11 => 46,
            KeySymbol::F12 => 47,
            KeySymbol::Escape => 48,
            KeySymbol::Space => 49,
            KeySymbol::LControl => 50,
            KeySymbol::RControl => 51,
            KeySymbol::LShift => 52,
            KeySymbol::RShift => 53,
            KeySymbol::LAlt => 54,
            KeySymbol::RAlt => 55,
            KeySymbol::Meta => 56,
            KeySymbol::Enter => 57,
            KeySymbol::Up => 58,
            KeySymbol::Down => 59,
            KeySymbol::Left => 60,
            KeySymbol::Right => 61,
            KeySymbol::Backspace => 62,
            KeySymbol::CapsLock => 63,
            KeySymbol::Tab => 64,
            KeySymbol::Home => 65,
            KeySymbol::End => 66,
            KeySymbol::PageUp => 67,
            KeySymbol::PageDown => 68,
            KeySymbol::Insert => 69,
            KeySymbol::Delete => 70,
            KeySymbol::Numpad0 => 71,
            KeySymbol::Numpad1 => 72,
            KeySymbol::Numpad2 => 73,
            KeySymbol::Numpad3 => 74,
            KeySymbol::Numpad4 => 75,
            KeySymbol::Numpad5 => 76,
            KeySymbol::Numpad6 => 77,
            KeySymbol::Numpad7 => 78,
            KeySymbol::Numpad8 => 79,
            KeySymbol::Numpad9 => 80,
            KeySymbol::NumpadSubtract => 81,
            KeySymbol::NumpadAdd => 82,
            KeySymbol::NumpadDivide => 83,
            KeySymbol::NumpadMultiply => 84,
            KeySymbol::Grave => 85,
            KeySymbol::Minus => 86,
            KeySymbol::Equal => 87,
            KeySymbol::LeftBracket => 88,
            KeySymbol::RightBracket => 89,
            KeySymbol::BackSlash => 90,
            KeySymbol::Semicolon => 91,
            KeySymbol::Apostrophe => 92,
            KeySymbol::Comma => 93,
            KeySymbol::Dot => 94,
            KeySymbol::Slash => 95,
        }
    }

    /// The key's name as text.
    pub fn as_str(self) -> (s: &'static str)
        ensures
            s@ == self.name(),
            is_ascii(s),
    {
        proof {
            lemma_key_name_chars(self);
        }
        match self {
            KeySymbol::Key0 => "Key0",
            KeySymbol::Key1 => "Key1",
            KeySymbol::Key2 => "Key2",
            KeySymbol::Key3 => "Key3",
            KeySymbol::Key4 => "Key4",
            KeySymbol::Key5 => "Key5",
            KeySymbol::Key6 => "Key6",
            KeySymbol::Key7 => "Key7",
            KeySymbol::Key8 => "Key8",
            KeySymbol::Key9 => "Key9",
            KeySymbol::A => "A",
            KeySymbol::B => "B",
            KeySymbol::C => "C",
            KeySymbol::D => "D",
            KeySymbol::E => "E",
            KeySymbol::F => "F",
            KeySymbol::G => "G",
            KeySymbol::H => "H",
            KeySymbol::I => "I",
            KeySymbol::J => "J",
            KeySymbol::K => "K",
            KeySymbol::L => "L",
            KeySymbol::M => "M",
            KeySymbol::N => "N",
            KeySymbol::O => "O",
            KeySymbol::P => "P",
            KeySymbol::Q => "Q",
            KeySymbol::R => "R",
            KeySymbol::S => "S",
            KeySymbol::T => "T",
            KeySymbol::U => "U",
            KeySymbol::V => "V",
            KeySymbol::W => "W",
            KeySymbol::X => "X",
            KeySymbol::Y => "Y",
            KeySymbol::Z => "Z",
            KeySymbol::F1 => "F1",
            KeySymbol::F2 => "F2",
            KeySymbol::F3 => "F3",
            KeySymbol::F4 => "F4",
            KeySymbol::F5 => "F5",
            KeySymbol::F6 => "F6",
            KeySymbol::F7 => "F7",
            KeySymbol::F8 => "F8",
            KeySymbol::F9 => "F9",
            KeySymbol::F10 => "F10",
            KeySymbol::F11 => "F11",
            KeySymbol::F12 => "F12",
            KeySymbol::Escape => "Escape",
            KeySymbol::Space => "Space",
            KeySymbol::LControl => "LControl",
            KeySymbol::RControl => "RControl",
            KeySymbol::LShift => "LShift",
            KeySymbol::RShift => "RShift",
            KeySymbol::LAlt => "LAlt",
            KeySymbol::RAlt => "RAlt",
            KeySymbol::Meta => "Meta",
            KeySymbol::Enter => "Enter",
            KeySymbol::Up => "Up",
            KeySymbol::Down => "Down",
            KeySymbol::Left => "Left",
            KeySymbol::Right => "Right",
            KeySymbol::Backspace => "Backspace",
            KeySymbol::CapsLock => "CapsLock",
            KeySymbol::Tab => "Tab",
            KeySymbol::Home => "Home",
            KeySymbol::End => "End",
            KeySymbol::PageUp => "PageUp",
            KeySymbol::PageDown => "PageDown",
            KeySymbol::Insert => "Insert",
            KeySymbol::Delete => "Delete",
            KeySymbol::Numpad0 => "Numpad0",
            KeySymbol::Numpad1 => "Numpad1",
            KeySymbol::Numpad2 => "Numpad2",
            KeySymbol::Numpad3 => "Numpad3",
            KeySymbol::Numpad4 => "Numpad4",
            KeySymbol::Numpad5 => "Numpad5",
            KeySymbol::Numpad6 => "Numpad6",
            KeySymbol::Numpad7 => "Numpad7",
            KeySymbol::Numpad8 => "Numpad8",
            KeySymbol::Numpad9 => "Numpad9",
            KeySymbol::NumpadSubtract => "NumpadSubtract",
            KeySymbol::NumpadAdd => "NumpadAdd",
            KeySymbol::NumpadDivide => "NumpadDivide",
            KeySymbol::NumpadMultiply => "NumpadMultiply",
            KeySymbol::Grave => "Grave",
            KeySymbol::Minus => "Minus",
            KeySymbol::Equal => "Equal",
            KeySymbol::LeftBracket => "LeftBracket",
            KeySymbol::RightBracket => "RightBracket",
            KeySymbol::BackSlash => "BackSlash",
            KeySymbol::Semicolon => "Semicolon",
            KeySymbol::Apostrophe => "Apostrophe",
            KeySymbol::Comma => "Comma",
            KeySymbol::Dot => "Dot",
            KeySymbol::Slash => "Slash",
        }
    }

    /// The key at place `i` of the enumeration, if there is one.
    pub fn from_index(i: usize) -> (r: Option<KeySymbol>)
        ensures
            match r {
                Some(k) => k.index() == i,
                None => i >= KEY_COUNT,
            },
    {
        match i {
            0 => Some(KeySymbol::Key0),
            1 => Some(KeySymbol::Key1),
            2 => Some(KeySymbol::Key2),
            3 => Some(KeySymbol::Key3),
            4 => Some(KeySymbol::Key4),
            5 => Some(KeySymbol::Key5),
            6 => Some(KeySymbol::Key6),
            7 => Some(KeySymbol::Key7),
            8 => Some(KeySymbol::Key8),
            9 => Some(KeySymbol::Key9),
            10 => Some(KeySymbol::A),
            11 => Some(KeySymbol::B),
            12 => Some(KeySymbol::C),
            13 => Some(KeySymbol::D),
            14 => Some(KeySymbol::E),
            15 => Some(KeySymbol::F),
            16 => Some(KeySymbol::G),
            17 => Some(KeySymbol::H),
            18 => Some(KeySymbol::I),
            19 => Some(KeySymbol::J),
            20 => Some(KeySymbol::K),
            21 => Some(KeySymbol::L),
            22 => Some(KeySymbol::M),
            23 => Some(KeySymbol::N),
            24 => Some(KeySymbol::O),
            25 => Some(KeySymbol::P),
            26 => Some(KeySymbol::Q),
            27 => Some(KeySymbol::R),
            28 => Some(KeySymbol::S),
            29 => Some(KeySymbol::T),
            30 => Some(KeySymbol::U),
            31 => Some(KeySymbol::V),
            32 => Some(KeySymbol::W),
            33 => Some(KeySymbol::X),
            34 => Some(KeySymbol::Y),
            35 => Some(KeySymbol::Z),
            36 => Some(KeySymbol::F1),
            37 => Some(KeySymbol::F2),
            38 => Some(KeySymbol::F3),
            39 => Some(KeySymbol::F4),
            40 => Some(KeySymbol::F5),
            41 => Some(KeySymbol::F6),
            42 => Some(KeySymbol::F7),
            43 => Some(KeySymbol::F8),
            44 => Some(KeySymbol::F9),
            45 => Some(KeySymbol::F10),
            46 => Some(KeySymbol::F11),
            47 => Some(KeySymbol::F12),
            48 => Some(KeySymbol::Escape),
            49 => Some(KeySymbol::Space),
            50 => Some(KeySymbol::LControl),
            51 => Some(KeySymbol::RControl),
            52 => Some(KeySymbol::LShift),
            53 => Some(KeySymbol::RShift),
            54 => Some(KeySymbol::LAlt),
            55 => Some(KeySymbol::RAlt),
            56 => Some(KeySymbol::Meta),
            57 => Some(KeySymbol::Enter),
            58 => Some(KeySymbol::Up),
            59 => Some(KeySymbol::Down),
            60 => Some(KeySymbol::Left),
            61 => Some(KeySymbol::Right),
            62 => Some(KeySymbol::Backspace),
            63 => Some(KeySymbol::CapsLock),
            64 => Some(KeySymbol::Tab),
            65 => Some(KeySymbol::Home),
            66 => Some(KeySymbol::End),
            67 => Some(KeySymbol::PageUp),
            68 => Some(KeySymbol::PageDown),
            69 => Some(KeySymbol::Insert),
            70 => Some(KeySymbol::Delete),
            71 => Some(KeySymbol::Numpad0),
            72 => Some(KeySymbol::Numpad1),
            73 => Some(KeySymbol::Numpad2),
            74 => Some(KeySymbol::Numpad3),
            75 => Some(KeySymbol::Numpad4),
            76 => Some(KeySymbol::Numpad5),
            77 => Some(KeySymbol::Numpad6),
            78 => Some(KeySymbol::Numpad7),
            79 => Some(KeySymbol::Numpad8),
            80 => Some(KeySymbol::Numpad9),
            81 => Some(KeySymbol::NumpadSubtract),
            82 => Some(KeySymbol::NumpadAdd),
            83 => Some(KeySymbol::NumpadDivide),
            84 => Some(KeySymbol::NumpadMultiply),
            85 => Some(KeySymbol::Grave),
            86 => Some(KeySymbol::Minus),
            87 => Some(KeySymbol::Equal),
            88 => Some(KeySymbol::LeftBracket),
            89 => Some(KeySymbol::RightBracket),
            90 => Some(KeySymbol::BackSlash),
            91 => Some(KeySymbol::Semicolon),
            92 => Some(KeySymbol::Apostrophe),
            93 => Some(KeySymbol::Comma),
            94 => Some(KeySymbol::Dot),
            95 => Some(KeySymbol::Slash),
            _ => None,
        }
    }

    /// The key whose name is `bytes`.
    ///
    /// `Some(k)` exactly when `bytes` is the name of `k`; `None` when no key
    /// has that name.
    pub fn from_name(bytes: &[u8]) -> (r: Option<KeySymbol>)
        ensures
            match r {
                Some(k) => ascii(k.name()) == bytes@,
                None => forall|k: KeySymbol| ascii(#[trigger] k.name()) != bytes@,
            },
    {
        broadcast use is_ascii_spec_bytes;

        let mut i: usize = 0;
        while i < KEY_COUNT
            invariant
                i <= KEY_COUNT,
                forall|k: KeySymbol| k.index() < i ==> ascii(#[trigger] k.name()) != bytes@,
            decreases KEY_COUNT - i,
        {
            match KeySymbol::from_index(i) {
                Some(k) => {
                    let name = k.as_str().as_bytes();
                    assert(name@ =~= ascii(k.name()));
                    if same_bytes(name, bytes) {
                        return Some(k);
                    }
                    assert forall|other: KeySymbol| other.index() < i + 1 implies ascii(
                        #[trigger] other.name(),
                    ) != bytes@ by {
                        if other.index() == i {
                            lemma_key_index_injective(other, k);
                        }
                    }
                },
                None => {},
            }
            i += 1;
        }
        assert forall|k: KeySymbol| ascii(#[trigger] k.name()) != bytes@ by {
            assert(k.index() < KEY_COUNT);
        }
        None
    }
}

/// Whether `c` is an ASCII letter or digit.
pub open spec fn is_name_char(c: char) -> bool {
    ('0' <= c && c <= '9') || ('A' <= c && c <= 'Z') || ('a' <= c && c <= 'z')
}

/// Two keys at the same place of the enumeration are the same key.
pub proof fn lemma_key_index_injective(a: KeySymbol, b: KeySymbol)
    requires
        a.index() == b.index(),
    ensures
        a == b,
{
}

/// A key's name is not empty and holds letters and digits only.
pub proof fn lemma_key_name_chars(k: KeySymbol)
    ensures
        0 < k.name().len() <= 14,
        is_ascii_chars(k.name()),
        forall|i: int| 0 <= i < k.name().len() ==> is_name_char(#[trigger] k.name()[i]),
{
    reveal_key_names();
}

/// Two keys with the same name are the same key.
pub proof fn lemma_key_name_injective(a: KeySymbol, b: KeySymbol)
    requires
        a.name() == b.name(),
    ensures
        a == b,
{
    reveal_key_names();
    let (x, y) = (a.name(), b.name());
    assert(x.len() == y.len());
    assert(x[0] == y[0] && x[1] == y[1] && x[2] == y[2] && x[3] == y[3]);
    assert(x[4] == y[4] && x[5] == y[5] && x[6] == y[6] && x[7] == y[7]);
    assert(x[8] == y[8] && x[9] == y[9] && x[10] == y[10] && x[11] == y[11]);
    assert(x[12] == y[12] && x[13] == y[13]);
}

/// Makes the characters of every key name known to the verifier.
proof fn reveal_key_names()
    ensures
        "Key0"@.len() == 4 && "Key0"@[0] == 'K' && "Key0"@[1] == 'e' && "Key0"@[2] == 'y' && "Key0"@[3] == '0',
        "Key1"@.len() == 4 && "Key1"@[0] == 'K' && "Key1"@[1] == 'e' && "Key1"@[2] == 'y' && "Key1"@[3] == '1',
        "Key2"@.len() == 4 && "Key2"@[0] == 'K' && "Key2"@[1] == 'e' && "Key2"@[2] == 'y' && "Key2"@[3] == '2',
        "Key3"@.len() == 4 && "Key3"@[0] == 'K' && "Key3"@[1] == 'e' && "Key3"@[2] == 'y' && "Key3"@[3] == '3',
        "Key4"@.len() == 4 && "Key4"@[0] == 'K' && "Key4"@[1] == 'e' && "Key4"@[2] == 'y' && "Key4"@[3] == '4',
        "Key5"@.len() == 4 && "Key5"@[0] == 'K' && "Key5"@[1] == 'e' && "Key5"@[2] == 'y' && "Key5"@[3] == '5',
        "Key6"@.len() == 4 && "Key6"@[0] == 'K' && "Key6"@[1] == 'e' && "Key6"@[2] == 'y' && "Key6"@[3] == '6',
        "Key7"@.len() == 4 && "Key7"@[0] == 'K' && "Key7"@[1] == 'e' && "Key7"@[2] == 'y' && "Key7"@[3] == '7',
        "Key8"@.len() == 4 && "Key8"@[0] == 'K' && "Key8"@[1] == 'e' && "Key8"@[2] == 'y' && "Key8"@[3] == '8',
        "Key9"@.len() == 4 && "Key9"@[0] == 'K' && "Key9"@[1] == 'e' && "Key9"@[2] == 'y' && "Key9"@[3] == '9',
        "A"@.len() == 1 && "A"@[0] == 'A',
        "B"@.len() == 1 && "B"@[0] == 'B',
        "C"@.len() == 1 && "C"@[0] == 'C',
        "D"@.len() == 1 && "D"@[0] == 'D',
        "E"@.len() == 1 && "E"@[0] == 'E',
        "F"@.len() == 1 && "F"@[0] == 'F',
        "G"@.len() == 1 && "G"@[0] == 'G',
        "H"@.len() == 1 && "H"@[0] == 'H',
        "I"@.len() == 1 && "I"@[0] == 'I',
        "J"@.len() == 1 && "J"@[0] == 'J',
        "K"@.len() == 1 && "K"@[0] == 'K',
        "L"@.len() == 1 && "L"@[0] == 'L',
        "M"@.len() == 1 && "M"@[0] == 'M',
        "N"@.len() == 1 && "N"@[0] == 'N',
        "O"@.len() == 1 && "O"@[0] == 'O',
        "P"@.len() == 1 && "P"@[0] == 'P',
        "Q"@.len() == 1 && "Q"@[0] == 'Q',
        "R"@.len() == 1 && "R"@[0] == 'R',
        "S"@.len() == 1 && "S"@[0] == 'S',
        "T"@.len() == 1 && "T"@[0] == 'T',
        "U"@.len() == 1 && "U"@[0] == 'U',
        "V"@.len() == 1 && "V"@[0] == 'V',
        "W"@.len() == 1 && "W"@[0] == 'W',
        "X"@.len() == 1 && "X"@[0] == 'X',
        "Y"@.len() == 1 && "Y"@[0] == 'Y',
        "Z"@.len() == 1 && "Z"@[0] == 'Z',
        "F1"@.len() == 2 && "F1"@[0] == 'F' && "F1"@[1] == '1',
        "F2"@.len() == 2 && "F2"@[0] == 'F' && "F2"@[1] == '2',
        "F3"@.len() == 2 && "F3"@[0] == 'F' && "F3"@[1] == '3',
        "F4"@.len() == 2 && "F4"@[0] == 'F' && "F4"@[1] == '4',
        "F5"@.len() == 2 && "F5"@[0] == 'F' && "F5"@[1] == '5',
        "F6"@.len() == 2 && "F6"@[0] == 'F' && "F6"@[1] == '6',
        "F7"@.len() == 2 && "F7"@[0] == 'F' && "F7"@[1] == '7',
        "F8"@.len() == 2 && "F8"@[0] == 'F' && "F8"@[1] == '8',
        "F9"@.len() == 2 && "F9"@[0] == 'F' && "F9"@[1] == '9',
        "F10"@.len() == 3 && "F10"@[0] == 'F' && "F10"@[1] == '1' && "F10"@[2] == '0',
        "F11"@.len() == 3 && "F11"@[0] == 'F' && "F11"@[1] == '1' && "F11"@[2] == '1',
        "F12"@.len() == 3 && "F12"@[0] == 'F' && "F12"@[1] == '1' && "F12"@[2] == '2',
        "Escape"@.len() == 6 && "Escape"@[0] == 'E' && "Escape"@[1] == 's' && "Escape"@[2] == 'c' && "Escape"@[3] == 'a' && "Escape"@[4] == 'p' && "Escape"@[5] == 'e',
        "Space"@.len() == 5 && "Space"@[0] == 'S' && "Space"@[1] == 'p' && "Space"@[2] == 'a' && "Space"@[3] == 'c' && "Space"@[4] == 'e',
        "LControl"@.len() == 8 && "LControl"@[0] == 'L' && "LControl"@[1] == 'C' && "LControl"@[2] == 'o' && "LControl"@[3] == 'n' && "LControl"@[4] == 't' && "LControl"@[5] == 'r' && "LControl"@[6] == 'o' && "LControl"@[7] == 'l',
        "RControl"@.len() == 8 && "RControl"@[0] == 'R' && "RControl"@[1] == 'C' && "RControl"@[2] == 'o' && "RControl"@[3] == 'n' && "RControl"@[4] == 't' && "RControl"@[5] == 'r' && "RControl"@[6] == 'o' && "RControl"@[7] == 'l',
        "LShift"@.len() == 6 && "LShift"@[0] == 'L' && "LShift"@[1] == 'S' && "LShift"@[2] == 'h' && "LShift"@[3] == 'i' && "LShift"@[4] == 'f' && "LShift"@[5] == 't',
        "RShift"@.len() == 6 && "RShift"@[0] == 'R' && "RShift"@[1] == 'S' && "RShift"@[2] == 'h' && "RShift"@[3] == 'i' && "RShift"@[4] == 'f' && "RShift"@[5] == 't',
        "LAlt"@.len() == 4 && "LAlt"@[0] == 'L' && "LAlt"@[1] == 'A' && "LAlt"@[2] == 'l' && "LAlt"@[3] == 't',
        "RAlt"@.len() == 4 && "RAlt"@[0] == 'R' && "RAlt"@[1] == 'A' && "RAlt"@[2] == 'l' && "RAlt"@[3] == 't',
        "Meta"@.len() == 4 && "Meta"@[0] == 'M' && "Meta"@[1] == 'e' && "Meta"@[2] == 't' && "Meta"@[3] == 'a',
        "Enter"@.len() == 5 && "Enter"@[0] == 'E' && "Enter"@[1] == 'n' && "Enter"@[2] == 't' && "Enter"@[3] == 'e' && "Enter"@[4] == 'r',
        "Up"@.len() == 2 && "Up"@[0] == 'U' && "Up"@[1] == 'p',
        "Down"@.len() == 4 && "Down"@[0] == 'D' && "Down"@[1] == 'o' && "Down"@[2] == 'w' && "Down"@[3] == 'n',
        "Left"@.len() == 4 && "Left"@[0] == 'L' && "Left"@[1] == 'e' && "Left"@[2] == 'f' && "Left"@[3] == 't',
        "Right"@.len() == 5 && "Right"@[0] == 'R' && "Right"@[1] == 'i' && "Right"@[2] == 'g' && "Right"@[3] == 'h' && "Right"@[4] == 't',
        "Backspace"@.len() == 9 && "Backspace"@[0] == 'B' && "Backspace"@[1] == 'a' && "Backspace"@[2] == 'c' && "Backspace"@[3] == 'k' && "Backspace"@[4] == 's' && "Backspace"@[5] == 'p' && "Backspace"@[6] == 'a' && "Backspace"@[7] == 'c' && "Backspace"@[8] == 'e',
        "CapsLock"@.len() == 8 && "CapsLock"@[0] == 'C' && "CapsLock"@[1] == 'a' && "CapsLock"@[2] == 'p' && "CapsLock"@[3] == 's' && "CapsLock"@[4] == 'L' && "CapsLock"@[5] == 'o' && "CapsLock"@[6] == 'c' && "CapsLock"@[7] == 'k',
        "Tab"@.len() == 3 && "Tab"@[0] == 'T' && "Tab"@[1] == 'a' && "Tab"@[2] == 'b',
        "Home"@.len() == 4 && "Home"@[0] == 'H' && "Home"@[1] == 'o' && "Home"@[2] == 'm' && "Home"@[3] == 'e',
        "End"@.len() == 3 && "End"@[0] == 'E' && "End"@[1] == 'n' && "End"@[2] == 'd',
        "PageUp"@.len() == 6 && "PageUp"@[0] == 'P' && "PageUp"@[1] == 'a' && "PageUp"@[2] == 'g' && "PageUp"@[3] == 'e' && "PageUp"@[4] == 'U' && "PageUp"@[5] == 'p',
        "PageDown"@.len() == 8 && "PageDown"@[0] == 'P' && "PageDown"@[1] == 'a' && "PageDown"@[2] == 'g' && "PageDown"@[3] == 'e' && "PageDown"@[4] == 'D' && "PageDown"@[5] == 'o' && "PageDown"@[6] == 'w' && "PageDown"@[7] == 'n',
        "Insert"@.len() == 6 && "Insert"@[0] == 'I' && "Insert"@[1] == 'n' && "Insert"@[2] == 's' && "Insert"@[3] == 'e' && "Insert"@[4] == 'r' && "Insert"@[5] == 't',
        "Delete"@.len() == 6 && "Delete"@[0] == 'D' && "Delete"@[1] == 'e' && "Delete"@[2] == 'l' && "Delete"@[3] == 'e' && "Delete"@[4] == 't' && "Delete"@[5] == 'e',
        "Numpad0"@.len() == 7 && "Numpad0"@[0] == 'N' && "Numpad0"@[1] == 'u' && "Numpad0"@[2] == 'm' && "Numpad0"@[3] == 'p' && "Numpad0"@[4] == 'a' && "Numpad0"@[5] == 'd' && "Numpad0"@[6] == '0',
        "Numpad1"@.len() == 7 && "Numpad1"@[0] == 'N' && "Numpad1"@[1] == 'u' && "Numpad1"@[2] == 'm' && "Numpad1"@[3] == 'p' && "Numpad1"@[4] == 'a' && "Numpad1"@[5] == 'd' && "Numpad1"@[6] == '1',
        "Numpad2"@.len() == 7 && "Numpad2"@[0] == 'N' && "Numpad2"@[1] == 'u' && "Numpad2"@[2] == 'm' && "Numpad2"@[3] == 'p' && "Numpad2"@[4] == 'a' && "Numpad2"@[5] == 'd' && "Numpad2"@[6] == '2',
        "Numpad3"@.len() == 7 && "Numpad3"@[0] == 'N' && "Numpad3"@[1] == 'u' && "Numpad3"@[2] == 'm' && "Numpad3"@[3] == 'p' && "Numpad3"@[4] == 'a' && "Numpad3"@[5] == 'd' && "Numpad3"@[6] == '3',
        "Numpad4"@.len() == 7 && "Numpad4"@[0] == 'N' && "Numpad4"@[1] == 'u' && "Numpad4"@[2] == 'm' && "Numpad4"@[3] == 'p' && "Numpad4"@[4] == 'a' && "Numpad4"@[5] == 'd' && "Numpad4"@[6] == '4',
        "Numpad5"@.len() == 7 && "Numpad5"@[0] == 'N' && "Numpad5"@[1] == 'u' && "Numpad5"@[2] == 'm' && "Numpad5"@[3] == 'p' && "Numpad5"@[4] == 'a' && "Numpad5"@[5] == 'd' && "Numpad5"@[6] == '5',
        "Numpad6"@.len() == 7 && "Numpad6"@[0] == 'N' && "Numpad6"@[1] == 'u' && "Numpad6"@[2] == 'm' && "Numpad6"@[3] == 'p' && "Numpad6"@[4] == 'a' && "Numpad6"@[5] == 'd' && "Numpad6"@[6] == '6',
        "Numpad7"@.len() == 7 && "Numpad7"@[0] == 'N' && "Numpad7"@[1] == 'u' && "Numpad7"@[2] == 'm' && "Numpad7"@[3] == 'p' && "Numpad7"@[4] == 'a' && "Numpad7"@[5] == 'd' && "Numpad7"@[6] == '7',
        "Numpad8"@.len() == 7 && "Numpad8"@[0] == 'N' && "Numpad8"@[1] == 'u' && "Numpad8"@[2] == 'm' && "Numpad8"@[3] == 'p' && "Numpad8"@[4] == 'a' && "Numpad8"@[5] == 'd' && "Numpad8"@[6] == '8',
        "Numpad9"@.len() == 7 && "Numpad9"@[0] == 'N' && "Numpad9"@[1] == 'u' && "Numpad9"@[2] == 'm' && "Numpad9"@[3] == 'p' && "Numpad9"@[4] == 'a' && "Numpad9"@[5] == 'd' && "Numpad9"@[6] == '9',
        "NumpadSubtract"@.len() == 14 && "NumpadSubtract"@[0] == 'N' && "NumpadSubtract"@[1] == 'u' && "NumpadSubtract"@[2] == 'm' && "NumpadSubtract"@[3] == 'p' && "NumpadSubtract"@[4] == 'a' && "NumpadSubtract"@[5] == 'd' && "NumpadSubtract"@[6] == 'S' && "NumpadSubtract"@[7] == 'u' && "NumpadSubtract"@[8] == 'b' && "NumpadSubtract"@[9] == 't' && "NumpadSubtract"@[10] == 'r' && "NumpadSubtract"@[11] == 'a' && "NumpadSubtract"@[12] == 'c' && "NumpadSubtract"@[13] == 't',
        "NumpadAdd"@.len() == 9 && "NumpadAdd"@[0] == 'N' && "NumpadAdd"@[1] == 'u' && "NumpadAdd"@[2] == 'm' && "NumpadAdd"@[3] == 'p' && "NumpadAdd"@[4] == 'a' && "NumpadAdd"@[5] == 'd' && "NumpadAdd"@[6] == 'A' && "NumpadAdd"@[7] == 'd' && "NumpadAdd"@[8] == 'd',
        "NumpadDivide"@.len() == 12 && "NumpadDivide"@[0] == 'N' && "NumpadDivide"@[1] == 'u' && "NumpadDivide"@[2] == 'm' && "NumpadDivide"@[3] == 'p' && "NumpadDivide"@[4] == 'a' && "NumpadDivide"@[5] == 'd' && "NumpadDivide"@[6] == 'D' && "NumpadDivide"@[7] == 'i' && "NumpadDivide"@[8] == 'v' && "NumpadDivide"@[9] == 'i' && "NumpadDivide"@[10] == 'd' && "NumpadDivide"@[11] == 'e',
        "NumpadMultiply"@.len() == 14 && "NumpadMultiply"@[0] == 'N' && "NumpadMultiply"@[1] == 'u' && "NumpadMultiply"@[2] == 'm' && "NumpadMultiply"@[3] == 'p' && "NumpadMultiply"@[4] == 'a' && "NumpadMultiply"@[5] == 'd' && "NumpadMultiply"@[6] == 'M' && "NumpadMultiply"@[7] == 'u' && "NumpadMultiply"@[8] == 'l' && "NumpadMultiply"@[9] == 't' && "NumpadMultiply"@[10] == 'i' && "NumpadMultiply"@[11] == 'p' && "NumpadMultiply"@[12] == 'l' && "NumpadMultiply"@[13] == 'y',
        "Grave"@.len() == 5 && "Grave"@[0] == 'G' && "Grave"@[1] == 'r' && "Grave"@[2] == 'a' && "Grave"@[3] == 'v' && "Grave"@[4] == 'e',
        "Minus"@.len() == 5 && "Minus"@[0] == 'M' && "Minus"@[1] == 'i' && "Minus"@[2] == 'n' && "Minus"@[3] == 'u' && "Minus"@[4] == 's',
        "Equal"@.len() == 5 && "Equal"@[0] == 'E' && "Equal"@[1] == 'q' && "Equal"@[2] == 'u' && "Equal"@[3] == 'a' && "Equal"@[4] == 'l',
        "LeftBracket"@.len() == 11 && "LeftBracket"@[0] == 'L' && "LeftBracket"@[1] == 'e' && "LeftBracket"@[2] == 'f' && "LeftBracket"@[3] == 't' && "LeftBracket"@[4] == 'B' && "LeftBracket"@[5] == 'r' && "LeftBracket"@[6] == 'a' && "LeftBracket"@[7] == 'c' && "LeftBracket"@[8] == 'k' && "LeftBracket"@[9] == 'e' && "LeftBracket"@[10] == 't',
        "RightBracket"@.len() == 12 && "RightBracket"@[0] == 'R' && "RightBracket"@[1] == 'i' && "RightBracket"@[2] == 'g' && "RightBracket"@[3] == 'h' && "RightBracket"@[4] == 't' && "RightBracket"@[5] == 'B' && "RightBracket"@[6] == 'r' && "RightBracket"@[7] == 'a' && "RightBracket"@[8] == 'c' && "RightBracket"@[9] == 'k' && "RightBracket"@[10] == 'e' && "RightBracket"@[11] == 't',
        "BackSlash"@.len() == 9 && "BackSlash"@[0] == 'B' && "BackSlash"@[1] == 'a' && "BackSlash"@[2] == 'c' && "BackSlash"@[3] == 'k' && "BackSlash"@[4] == 'S' && "BackSlash"@[5] == 'l' && "BackSlash"@[6] == 'a' && "BackSlash"@[7] == 's' && "BackSlash"@[8] == 'h',
        "Semicolon"@.len() == 9 && "Semicolon"@[0] == 'S' && "Semicolon"@[1] == 'e' && "Semicolon"@[2] == 'm' && "Semicolon"@[3] == 'i' && "Semicolon"@[4] == 'c' && "Semicolon"@[5] == 'o' && "Semicolon"@[6] == 'l' && "Semicolon"@[7] == 'o' && "Semicolon"@[8] == 'n',
        "Apostrophe"@.len() == 10 && "Apostrophe"@[0] == 'A' && "Apostrophe"@[1] == 'p' && "Apostrophe"@[2] == 'o' && "Apostrophe"@[3] == 's' && "Apostrophe"@[4] == 't' && "Apostrophe"@[5] == 'r' && "Apostrophe"@[6] == 'o' && "Apostrophe"@[7] == 'p' && "Apostrophe"@[8] == 'h' && "Apostrophe"@[9] == 'e',
        "Comma"@.len() == 5 && "Comma"@[0] == 'C' && "Comma"@[1] == 'o' && "Comma"@[2] == 'm' && "Comma"@[3] == 'm' && "Comma"@[4] == 'a',
        "Dot"@.len() == 3 && "Dot"@[0] == 'D' && "Dot"@[1] == 'o' && "Dot"@[2] == 't',
        "Slash"@.len() == 5 && "Slash"@[0] == 'S' && "Slash"@[1] == 'l' && "Slash"@[2] == 'a' && "Slash"@[3] == 's' && "Slash"@[4] == 'h',
{
    reveal_strlit("Key0");
    reveal_strlit("Key1");
    reveal_strlit("Key2");
    reveal_strlit("Key3");
    reveal_strlit("Key4");
    reveal_strlit("Key5");
    reveal_strlit("Key6");
    reveal_strlit("Key7");
    reveal_strlit("Key8");
    reveal_strlit("Key9");
    reveal_strlit("A");
    reveal_strlit("B");
    reveal_strlit("C");
    reveal_strlit("D");
    reveal_strlit("E");
    reveal_strlit("F");
    reveal_strlit("G");
    reveal_strlit("H");
    reveal_strlit("I");
    reveal_strlit("J");
    reveal_strlit("K");
    reveal_strlit("L");
    reveal_strlit("M");
    reveal_strlit("N");
    reveal_strlit("O");
    reveal_strlit("P");
    reveal_strlit("Q");
    reveal_strlit("R");
    reveal_strlit("S");
    reveal_strlit("T");
    reveal_strlit("U");
    reveal_strlit("V");
    reveal_strlit("W");
    reveal_strlit("X");
    reveal_strlit("Y");
    reveal_strlit("Z");
    reveal_strlit("F1");
    reveal_strlit("F2");
    reveal_strlit("F3");
    reveal_strlit("F4");
    reveal_strlit("F5");
    reveal_strlit("F6");
    reveal_strlit("F7");
    reveal_strlit("F8");
    reveal_strlit("F9");
    reveal_strlit("F10");
    reveal_strlit("F11");
    reveal_strlit("F12");
    reveal_strlit("Escape");
    reveal_strlit("Space");
    reveal_strlit("LControl");
    reveal_strlit("RControl");
    reveal_strlit("LShift");
    reveal_strlit("RShift");
    reveal_strlit("LAlt");
    reveal_strlit("RAlt");
    reveal_strlit("Meta");
    reveal_strlit("Enter");
    reveal_strlit("Up");
    reveal_strlit("Down");
    reveal_strlit("Left");
    reveal_strlit("Right");
    reveal_strlit("Backspace");
    reveal_strlit("CapsLock");
    reveal_strlit("Tab");
    reveal_strlit("Home");
    reveal_strlit("End");
    reveal_strlit("PageUp");
    reveal_strlit("PageDown");
    reveal_strlit("Insert");
    reveal_strlit("Delete");
    reveal_strlit("Numpad0");
    reveal_strlit("Numpad1");
    reveal_strlit("Numpad2");
    reveal_strlit("Numpad3");
    reveal_strlit("Numpad4");
    reveal_strlit("Numpad5");
    reveal_strlit("Numpad6");
    reveal_strlit("Numpad7");
    reveal_strlit("Numpad8");
    reveal_strlit("Numpad9");
    reveal_strlit("NumpadSubtract");
    reveal_strlit("NumpadAdd");
    reveal_strlit("NumpadDivide");
    reveal_strlit("NumpadMultiply");
    reveal_strlit("Grave");
    reveal_strlit("Minus");
    reveal_strlit("Equal");
    reveal_strlit("LeftBracket");
    reveal_strlit("RightBracket");
    reveal_strlit("BackSlash");
    reveal_strlit("Semicolon");
    reveal_strlit("Apostrophe");
    reveal_strlit("Comma");
    reveal_strlit("Dot");
    reveal_strlit("Slash");
}

} // verus!
