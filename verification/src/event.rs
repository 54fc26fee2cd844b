//! Input events and their records on the wire.
//!
//! A record is the event's variant names wrapped round its value, for example
//! `{"Mouse":{"MouseMove":[5,-3]}}` or `{"Keyboard":{"KeyClick":"A"}}`. Every
//! event has exactly one record, and only that byte string is read back as the
//! event: no spaces, no other spelling of a number.

use crate::decimal::{dec_int, lemma_dec_int_bytes, lemma_dec_int_injective, parse_i32, write_i32};
use crate::error::ProtocolError;
use crate::keys::{lemma_key_name_chars, lemma_key_name_injective, KeySymbol};
use crate::text::{ascii, matches_at, put_text, same_bytes, text_at, COMMA, MINUS, SEPARATOR, ZERO};
use vstd::prelude::*;
use vstd::slice::slice_subrange;
use vstd::string::*;
use vstd::utf8::is_ascii_chars;

verus! {

/// A button of the mouse.
#[derive(Clone, Copy, Debug, PartialEq, Eq, Hash, Structural)]
pub enum ButtonMouse {
    Left,
    Middle,
    Right,
}

/// What happened to a key.
#[derive(Clone, Copy, Debug, PartialEq, Eq, Hash, Structural)]
pub enum KeyboardState {
    KeyDown(KeySymbol),
    KeyClick(KeySymbol),
    KeyUp(KeySymbol),
}

/// What happened to the mouse. A move carries absolute screen coordinates.
#[derive(Clone, Copy, Debug, PartialEq, Eq, Hash)]
pub enum MouseState {
    MouseUp(ButtonMouse),
    MouseDown(ButtonMouse),
    MouseClick(ButtonMouse),
    MouseMove((i32, i32)),
}

/// One input event.
#[derive(Clone, Copy, Debug, PartialEq, Eq, Hash)]
pub enum DeviceInput {
    Keyboard(KeyboardState),
    Mouse(MouseState),
}

/// The seven shapes of a record, one for each kind of event.
#[derive(Clone, Copy, Debug, PartialEq, Eq, Hash, Structural)]
pub enum RecordKind {
    KeyDown,
    KeyClick,
    KeyUp,
    MouseUp,
    MouseDown,
    MouseClick,
    MouseMove,
}

impl ButtonMouse {
    /// The name under which the button stands in a record.
    pub open spec fn name(self) -> Seq<char> {
        match self {
            ButtonMouse::Left => "Left"@,
            ButtonMouse::Middle => "Middle"@,
            ButtonMouse::Right => "Right"@,
        }
    }

    /// The button's name as text.
    pub fn as_str(self) -> (s: &'static str)
        ensures
            s@ == self.name(),
            is_ascii(s),
    {
        proof {
            lemma_button_name_chars(self);
        }
        match self {
            ButtonMouse::Left => "Left",
            ButtonMouse::Middle => "Middle",
            ButtonMouse::Right => "Right",
        }
    }

    /// The button whose name is `bytes`.
    ///
    /// `Some(b)` exactly when `bytes` is the name of `b`; `None` when no
    /// button has that name.
    pub fn from_name(bytes: &[u8]) -> (r: Option<ButtonMouse>)
        ensures
            match r {
                Some(b) => ascii(b.name()) == bytes@,
                None => forall|b: ButtonMouse| ascii(#[trigger] b.name()) != bytes@,
            },
    {
        broadcast use is_ascii_spec_bytes;

        if same_bytes(ButtonMouse::Left.as_str().as_bytes(), bytes) {
            Some(ButtonMouse::Left)
        } else if same_bytes(ButtonMouse::Middle.as_str().as_bytes(), bytes) {
            Some(ButtonMouse::Middle)
        } else if same_bytes(ButtonMouse::Right.as_str().as_bytes(), bytes) {
            Some(ButtonMouse::Right)
        } else {
            None
        }
    }
}

impl RecordKind {
    /// The text of a record before its value.
    pub open spec fn head(self) -> Seq<char> {
        match self {
            RecordKind::KeyDown => "{\"Keyboard\":{\"KeyDown\":\""@,
            RecordKind::KeyClick => "{\"Keyboard\":{\"KeyClick\":\""@,
            RecordKind::KeyUp => "{\"Keyboard\":{\"KeyUp\":\""@,
            RecordKind::MouseUp => "{\"Mouse\":{\"MouseUp\":\""@,
            RecordKind::MouseDown => "{\"Mouse\":{\"MouseDown\":\""@,
            RecordKind::MouseClick => "{\"Mouse\":{\"MouseClick\":\""@,
            RecordKind::MouseMove => "{\"Mouse\":{\"MouseMove\":["@,
        }
    }

    /// The text of a record after its value.
    pub open spec fn tail(self) -> Seq<char> {
        match self {
            RecordKind::MouseMove => "]}}"@,
            _ => "\"}}"@,
        }
    }

    /// The text of a record before its value.
    pub fn head_str(self) -> (s: &'static str)
        ensures
            s@ == self.head(),
            is_ascii(s),
    {
        proof {
            lemma_kind_text(self);
        }
        match self {
            RecordKind::KeyDown => "{\"Keyboard\":{\"KeyDown\":\"",
            RecordKind::KeyClick => "{\"Keyboard\":{\"KeyClick\":\"",
            RecordKind::KeyUp => "{\"Keyboard\":{\"KeyUp\":\"",
            RecordKind::MouseUp => "{\"Mouse\":{\"MouseUp\":\"",
            RecordKind::MouseDown => "{\"Mouse\":{\"MouseDown\":\"",
            RecordKind::MouseClick => "{\"Mouse\":{\"MouseClick\":\"",
            RecordKind::MouseMove => "{\"Mouse\":{\"MouseMove\":[",
        }
    }

    /// The text of a record after its value.
    pub fn tail_str(self) -> (s: &'static str)
        ensures
            s@ == self.tail(),
            is_ascii(s),
    {
        proof {
            lemma_kind_text(self);
        }
        match self {
            RecordKind::MouseMove => "]}}",
            _ => "\"}}",
        }
    }

    /// The bytes of a record of this kind round the value `value`.
    pub open spec fn wrap(self, value: Seq<u8>) -> Seq<u8> {
        ascii(self.head()) + value + ascii(self.tail())
    }
}

impl DeviceInput {
    /// The kind of record that spells this event.
    pub open spec fn kind(self) -> RecordKind {
        match self {
            DeviceInput::Keyboard(KeyboardState::KeyDown(_)) => RecordKind::KeyDown,
            DeviceInput::Keyboard(KeyboardState::KeyClick(_)) => RecordKind::KeyClick,
            DeviceInput::Keyboard(KeyboardState::KeyUp(_)) => RecordKind::KeyUp,
            DeviceInput::Mouse(MouseState::MouseUp(_)) => RecordKind::MouseUp,
            DeviceInput::Mouse(MouseState::MouseDown(_)) => RecordKind::MouseDown,
            DeviceInput::Mouse(MouseState::MouseClick(_)) => RecordKind::MouseClick,
            DeviceInput::Mouse(MouseState::MouseMove(_)) => RecordKind::MouseMove,
        }
    }

    /// The value inside the record: a key's or a button's name, or the two
    /// coordinates with a comma between them.
    pub open spec fn value(self) -> Seq<u8> {
        match self {
            DeviceInput::Keyboard(KeyboardState::KeyDown(k)) => ascii(k.name()),
            DeviceInput::Keyboard(KeyboardState::KeyClick(k)) => ascii(k.name()),
            DeviceInput::Keyboard(KeyboardState::KeyUp(k)) => ascii(k.name()),
            DeviceInput::Mouse(MouseState::MouseUp(b)) => ascii(b.name()),
            DeviceInput::Mouse(MouseState::MouseDown(b)) => ascii(b.name()),
            DeviceInput::Mouse(MouseState::MouseClick(b)) => ascii(b.name()),
            DeviceInput::Mouse(MouseState::MouseMove(p)) => point_value(p.0 as int, p.1 as int),
        }
    }

    /// The record of this event: the bytes that stand for it on the wire.
    pub open spec fn wire(self) -> Seq<u8> {
        self.kind().wrap(self.value())
    }

    /// Appends the record of this event to `out`.
    pub fn write_record(&self, out: &mut Vec<u8>)
        ensures
            final(out)@ == old(out)@ + self.wire(),
    {
        match *self {
            DeviceInput::Keyboard(KeyboardState::KeyDown(k)) => {
                put_named(out, RecordKind::KeyDown, k.as_str())
            },
            DeviceInput::Keyboard(KeyboardState::KeyClick(k)) => {
                put_named(out, RecordKind::KeyClick, k.as_str())
            },
            DeviceInput::Keyboard(KeyboardState::KeyUp(k)) => {
                put_named(out, RecordKind::KeyUp, k.as_str())
            },
            DeviceInput::Mouse(MouseState::MouseUp(b)) => {
                put_named(out, RecordKind::MouseUp, b.as_str())
            },
            DeviceInput::Mouse(MouseState::MouseDown(b)) => {
                put_named(out, RecordKind::MouseDown, b.as_str())
            },
            DeviceInput::Mouse(MouseState::MouseClick(b)) => {
                put_named(out, RecordKind::MouseClick, b.as_str())
            },
            DeviceInput::Mouse(MouseState::MouseMove((x, y))) => {
                put_text(out, RecordKind::MouseMove.head_str());
                write_i32(x, out);
                out.push(COMMA);
                write_i32(y, out);
                put_text(out, RecordKind::MouseMove.tail_str());
                assert(out@ =~= old(out)@ + RecordKind::MouseMove.wrap(
                    point_value(x as int, y as int),
                ));
            },
        }
    }

    /// The record of this event.
    pub fn to_record(&self) -> (r: Vec<u8>)
        ensures
            r@ == self.wire(),
    {
        let mut r: Vec<u8> = Vec::new();
        self.write_record(&mut r);
        assert(r@ =~= self.wire());
        r
    }

    /// Reads the event that `bytes` is the record of.
    ///
    /// `Ok(e)` exactly when `bytes` is the record of `e`; `MalformedEvent`
    /// when it is the record of no event.
    pub fn parse_record(bytes: &[u8]) -> (r: Result<DeviceInput, ProtocolError>)
        ensures
            r == read_record(bytes@),
            match r {
                Ok(e) => e.wire() == bytes@,
                Err(err) => err == ProtocolError::MalformedEvent && forall|e: DeviceInput|
                    #[trigger] e.wire() != bytes@,
            },
    {
        let r = parse_any(bytes);
        proof {
            match r {
                Ok(e) => {
                    assert forall|other: DeviceInput| other.wire() == bytes@ implies other == e by {
                        lemma_wire_injective(other, e);
                    }
                },
                Err(_) => {},
            }
        }
        r
    }
}

/// Appends a record of the given kind round the name `name`.
fn put_named(out: &mut Vec<u8>, kind: RecordKind, name: &str)
    requires
        is_ascii(name),
    ensures
        final(out)@ == old(out)@ + kind.wrap(ascii(name@)),
{
    put_text(out, kind.head_str());
    put_text(out, name);
    put_text(out, kind.tail_str());
    assert(out@ =~= old(out)@ + kind.wrap(ascii(name@)));
}

/// The value of a move record: both coordinates, a comma between them.
pub open spec fn point_value(x: int, y: int) -> Seq<u8> {
    dec_int(x) + seq![COMMA] + dec_int(y)
}

/// What a byte string is read as: the event whose record it is, or
/// `MalformedEvent` when it is the record of none.
pub open spec fn read_record(bytes: Seq<u8>) -> Result<DeviceInput, ProtocolError> {
    if exists|e: DeviceInput| e.wire() == bytes {
        Ok(choose|e: DeviceInput| e.wire() == bytes)
    } else {
        Err(ProtocolError::MalformedEvent)
    }
}

/// Finds the value inside a record of the given kind.
///
/// `Some((from, to))` are the bounds of the value when `bytes` starts with the
/// kind's head and ends with its tail; `None` when it is no record of that
/// kind whatever the value.
fn strip(bytes: &[u8], kind: RecordKind) -> (r: Option<(usize, usize)>)
    ensures
        match r {
            Some((from, to)) => from <= to <= bytes@.len() && bytes@ == kind.wrap(
                bytes@.subrange(from as int, to as int),
            ),
            None => forall|value: Seq<u8>| #[trigger] kind.wrap(value) != bytes@,
        },
{
    let head = kind.head_str();
    let tail = kind.tail_str();
    let n = bytes.len();
    let ghost h = ascii(head@);
    let ghost t = ascii(tail@);
    proof {
        assert forall|value: Seq<u8>| #[trigger] kind.wrap(value) == bytes@ implies matches_at(
            bytes@,
            0,
            h,
        ) && matches_at(bytes@, n - t.len(), t) && h.len() + t.len() <= n by {
            assert(kind.wrap(value).subrange(0, h.len() as int) =~= h);
            assert(kind.wrap(value).subrange(n - t.len(), n as int) =~= t);
        }
    }
    if !text_at(bytes, 0, head) {
        return None;
    }
    let head_bytes = head.as_bytes();
    let tail_bytes = tail.as_bytes();
    let from = head_bytes.len();
    let m = tail_bytes.len();
    proof {
        broadcast use is_ascii_spec_bytes;

        assert(head_bytes@ =~= h);
        assert(tail_bytes@ =~= t);
    }
    if n - from < m {
        return None;
    }
    let to = n - m;
    if !text_at(bytes, to, tail) {
        return None;
    }
    assert(bytes@ =~= kind.wrap(bytes@.subrange(from as int, to as int)));
    Some((from, to))
}

/// Reads two coordinates with a comma between them.
fn parse_point(bytes: &[u8]) -> (r: Option<(i32, i32)>)
    ensures
        match r {
            Some(p) => point_value(p.0 as int, p.1 as int) == bytes@,
            None => forall|x: int, y: int|
                i32::MIN <= x <= i32::MAX && i32::MIN <= y <= i32::MAX ==> #[trigger] point_value(
                    x,
                    y,
                ) != bytes@,
        },
{
    let n = bytes.len();
    let mut i: usize = 0;
    while i < n && bytes[i] != COMMA
        invariant
            i <= n,
            n == bytes@.len(),
            forall|j: int| 0 <= j < i ==> bytes@[j] != COMMA,
        decreases n - i,
    {
        i += 1;
    }
    proof {
        // Whatever pair spells `bytes` has its comma at `i`.
        assert forall|x: int, y: int| #[trigger] point_value(x, y) == bytes@ implies i < n
            && dec_int(x) == bytes@.subrange(0, i as int) && dec_int(y) == bytes@.subrange(
            i + 1,
            n as int,
        ) by {
            lemma_dec_int_bytes(x);
            let dx = dec_int(x);
            let k = dx.len() as int;
            assert(point_value(x, y)[k] == COMMA);
            if i < k {
                assert(point_value(x, y)[i as int] == dx[i as int]);
            }
            assert(i == k);
            assert(point_value(x, y).subrange(0, k) =~= dx);
            assert(point_value(x, y).subrange(k + 1, n as int) =~= dec_int(y));
        }
    }
    if i == n {
        return None;
    }
    let left = slice_subrange(bytes, 0, i);
    let right = slice_subrange(bytes, i + 1, n);
    match (parse_i32(left), parse_i32(right)) {
        (Some(x), Some(y)) => {
            assert(point_value(x as int, y as int) =~= bytes@);
            Some((x, y))
        },
        _ => None,
    }
}

/// Reads a record of a key event of the given kind.
fn parse_key(bytes: &[u8], kind: RecordKind) -> (r: Option<KeySymbol>)
    ensures
        match r {
            Some(k) => kind.wrap(ascii(k.name())) == bytes@,
            None => forall|k: KeySymbol| kind.wrap(ascii(#[trigger] k.name())) != bytes@,
        },
{
    match strip(bytes, kind) {
        Some((from, to)) => {
            let r = KeySymbol::from_name(slice_subrange(bytes, from, to));
            proof {
                let value = bytes@.subrange(from as int, to as int);
                assert forall|k: KeySymbol|
                    kind.wrap(ascii(#[trigger] k.name())) == bytes@ implies ascii(k.name())
                    == value by {
                    lemma_wrap_injective(kind, ascii(k.name()), value);
                }
            }
            r
        },
        None => None,
    }
}

/// Reads a record of a button event of the given kind.
fn parse_button(bytes: &[u8], kind: RecordKind) -> (r: Option<ButtonMouse>)
    ensures
        match r {
            Some(b) => kind.wrap(ascii(b.name())) == bytes@,
            None => forall|b: ButtonMouse| kind.wrap(ascii(#[trigger] b.name())) != bytes@,
        },
{
    match strip(bytes, kind) {
        Some((from, to)) => {
            let r = ButtonMouse::from_name(slice_subrange(bytes, from, to));
            proof {
                let value = bytes@.subrange(from as int, to as int);
                assert forall|b: ButtonMouse|
                    kind.wrap(ascii(#[trigger] b.name())) == bytes@ implies ascii(b.name())
                    == value by {
                    lemma_wrap_injective(kind, ascii(b.name()), value);
                }
            }
            r
        },
        None => None,
    }
}

/// Reads a record of a move event.
fn parse_move(bytes: &[u8]) -> (r: Option<(i32, i32)>)
    ensures
        match r {
            Some(p) => RecordKind::MouseMove.wrap(point_value(p.0 as int, p.1 as int)) == bytes@,
            None => forall|x: int, y: int|
                i32::MIN <= x <= i32::MAX && i32::MIN <= y <= i32::MAX
                    ==> RecordKind::MouseMove.wrap(#[trigger] point_value(x, y)) != bytes@,
        },
{
    match strip(bytes, RecordKind::MouseMove) {
        Some((from, to)) => {
            let r = parse_point(slice_subrange(bytes, from, to));
            proof {
                let value = bytes@.subrange(from as int, to as int);
                assert forall|x: int, y: int|
                    RecordKind::MouseMove.wrap(#[trigger] point_value(x, y))
                        == bytes@ implies point_value(x, y) == value by {
                    lemma_wrap_injective(RecordKind::MouseMove, point_value(x, y), value);
                }
            }
            r
        },
        None => None,
    }
}

/// Tries each kind of record in turn.
fn parse_any(bytes: &[u8]) -> (r: Result<DeviceInput, ProtocolError>)
    ensures
        match r {
            Ok(e) => e.wire() == bytes@,
            Err(err) => err == ProtocolError::MalformedEvent && forall|e: DeviceInput|
                #[trigger] e.wire() != bytes@,
        },
{
    if let Some(k) = parse_key(bytes, RecordKind::KeyDown) {
        return Ok(DeviceInput::Keyboard(KeyboardState::KeyDown(k)));
    }
    if let Some(k) = parse_key(bytes, RecordKind::KeyClick) {
        return Ok(DeviceInput::Keyboard(KeyboardState::KeyClick(k)));
    }
    if let Some(k) = parse_key(bytes, RecordKind::KeyUp) {
        return Ok(DeviceInput::Keyboard(KeyboardState::KeyUp(k)));
    }
    if let Some(b) = parse_button(bytes, RecordKind::MouseUp) {
        return Ok(DeviceInput::Mouse(MouseState::MouseUp(b)));
    }
    if let Some(b) = parse_button(bytes, RecordKind::MouseDown) {
        return Ok(DeviceInput::Mouse(MouseState::MouseDown(b)));
    }
    if let Some(b) = parse_button(bytes, RecordKind::MouseClick) {
        return Ok(DeviceInput::Mouse(MouseState::MouseClick(b)));
    }
    if let Some(p) = parse_move(bytes) {
        return Ok(DeviceInput::Mouse(MouseState::MouseMove(p)));
    }
    assert forall|e: DeviceInput| #[trigger] e.wire() != bytes@ by {
        match e {
            DeviceInput::Keyboard(KeyboardState::KeyDown(k)) => {
                assert(e.wire() == RecordKind::KeyDown.wrap(ascii(k.name())));
            },
            DeviceInput::Keyboard(KeyboardState::KeyClick(k)) => {
                assert(e.wire() == RecordKind::KeyClick.wrap(ascii(k.name())));
            },
            DeviceInput::Keyboard(KeyboardState::KeyUp(k)) => {
                assert(e.wire() == RecordKind::KeyUp.wrap(ascii(k.name())));
            },
            DeviceInput::Mouse(MouseState::MouseUp(b)) => {
                assert(e.wire() == RecordKind::MouseUp.wrap(ascii(b.name())));
            },
            DeviceInput::Mouse(MouseState::MouseDown(b)) => {
                assert(e.wire() == RecordKind::MouseDown.wrap(ascii(b.name())));
            },
            DeviceInput::Mouse(MouseState::MouseClick(b)) => {
                assert(e.wire() == RecordKind::MouseClick.wrap(ascii(b.name())));
            },
            DeviceInput::Mouse(MouseState::MouseMove(p)) => {
                assert(e.wire() == RecordKind::MouseMove.wrap(point_value(p.0 as int, p.1 as int)));
            },
        }
    }
    Err(ProtocolError::MalformedEvent)
}

/// Whether `b` may stand in a record: every byte a record holds is a letter,
/// a digit or one of `{ } [ ] " : , -`.
pub open spec fn is_record_byte(b: u8) -> bool {
    ||| ZERO <= b <= ZERO + 9
    ||| 65 <= b <= 90
    ||| 97 <= b <= 122
    ||| b == 123 || b == 125 || b == 91 || b == 93
    ||| b == 34 || b == 58 || b == COMMA || b == MINUS
}

/// A button's name is not empty and holds letters only.
pub proof fn lemma_button_name_chars(b: ButtonMouse)
    ensures
        b.name().len() > 0,
        is_ascii_chars(b.name()),
        forall|i: int|
            0 <= i < b.name().len() ==> 'A' <= #[trigger] b.name()[i] <= 'Z' || 'a'
                <= b.name()[i] <= 'z',
{
    reveal_strlit("Left");
    reveal_strlit("Middle");
    reveal_strlit("Right");
}

/// Two buttons with the same name are the same button.
pub proof fn lemma_button_name_injective(a: ButtonMouse, b: ButtonMouse)
    requires
        a.name() == b.name(),
    ensures
        a == b,
{
    reveal_strlit("Left");
    reveal_strlit("Middle");
    reveal_strlit("Right");
    assert("Left"@.len() == 4 && "Middle"@.len() == 6 && "Right"@.len() == 5);
}

/// Two ASCII texts with the same bytes are the same text.
pub proof fn lemma_ascii_injective(a: Seq<char>, b: Seq<char>)
    requires
        ascii(a) == ascii(b),
        is_ascii_chars(a),
        is_ascii_chars(b),
    ensures
        a == b,
{
    assert(a.len() == ascii(a).len());
    assert(b.len() == ascii(b).len());
    assert forall|i: int| 0 <= i < a.len() implies a[i] == b[i] by {
        assert('\0' <= a[i] <= '\u{7f}');
        assert('\0' <= b[i] <= '\u{7f}');
        assert(ascii(a)[i] == a[i] as u8);
        assert(ascii(b)[i] == b[i] as u8);
    }
    assert(a =~= b);
}

/// The head and tail of every kind of record: ASCII, made of record bytes,
/// and told apart by the head's third and last-but-few characters.
proof fn lemma_kind_text(kind: RecordKind)
    ensures
        is_ascii_chars(kind.head()),
        is_ascii_chars(kind.tail()),
        kind.head().len() >= 18,
        kind.tail().len() == 3,
        forall|i: int| 0 <= i < kind.head().len() ==> is_record_byte(#[trigger] ascii(kind.head())[i]),
        forall|i: int| 0 <= i < kind.tail().len() ==> is_record_byte(#[trigger] ascii(kind.tail())[i]),
        kind_of_head(ascii(kind.head())) == kind,
{
    reveal_strlit("{\"Keyboard\":{\"KeyDown\":\"");
    reveal_strlit("{\"Keyboard\":{\"KeyClick\":\"");
    reveal_strlit("{\"Keyboard\":{\"KeyUp\":\"");
    reveal_strlit("{\"Mouse\":{\"MouseUp\":\"");
    reveal_strlit("{\"Mouse\":{\"MouseDown\":\"");
    reveal_strlit("{\"Mouse\":{\"MouseClick\":\"");
    reveal_strlit("{\"Mouse\":{\"MouseMove\":[");
    reveal_strlit("]}}");
    reveal_strlit("\"}}");
    let h = ascii(kind.head());
    assert(h[2] == kind.head()[2] as u8);
    assert(h[16] == kind.head()[16] as u8);
    assert(h[17] == kind.head()[17] as u8);
}

/// The kind of record that starts with the bytes `s`: keyboard and mouse
/// records part at the third byte, the kinds of each at the first letter after
/// the inner `Key` or `Mouse`.
spec fn kind_of_head(s: Seq<u8>) -> RecordKind {
    if s[2] == 75 {
        if s[17] == 68 {
            RecordKind::KeyDown
        } else if s[17] == 67 {
            RecordKind::KeyClick
        } else {
            RecordKind::KeyUp
        }
    } else {
        if s[16] == 85 {
            RecordKind::MouseUp
        } else if s[16] == 68 {
            RecordKind::MouseDown
        } else if s[16] == 67 {
            RecordKind::MouseClick
        } else {
            RecordKind::MouseMove
        }
    }
}

/// Two records of one kind with the same bytes hold the same value.
pub proof fn lemma_wrap_injective(kind: RecordKind, a: Seq<u8>, b: Seq<u8>)
    requires
        kind.wrap(a) == kind.wrap(b),
    ensures
        a == b,
{
    let h = ascii(kind.head()).len() as int;
    let t = ascii(kind.tail()).len() as int;
    assert(kind.wrap(a).len() == h + a.len() + t);
    assert(kind.wrap(b).len() == h + b.len() + t);
    assert(kind.wrap(a).subrange(h, h + a.len()) =~= a);
    assert(kind.wrap(b).subrange(h, h + b.len()) =~= b);
}

/// Two pairs of coordinates with the same spelling are the same pair.
pub proof fn lemma_point_value_injective(x1: int, y1: int, x2: int, y2: int)
    requires
        point_value(x1, y1) == point_value(x2, y2),
    ensures
        x1 == x2,
        y1 == y2,
{
    lemma_dec_int_bytes(x1);
    lemma_dec_int_bytes(x2);
    let (a, b) = (point_value(x1, y1), point_value(x2, y2));
    let (k1, k2) = (dec_int(x1).len() as int, dec_int(x2).len() as int);
    assert(a[k1] == COMMA && b[k2] == COMMA);
    if k1 < k2 {
        assert(b[k1] == dec_int(x2)[k1]);
    }
    if k2 < k1 {
        assert(a[k2] == dec_int(x1)[k2]);
    }
    assert(a.subrange(0, k1) =~= dec_int(x1));
    assert(b.subrange(0, k2) =~= dec_int(x2));
    assert(a.subrange(k1 + 1, a.len() as int) =~= dec_int(y1));
    assert(b.subrange(k2 + 1, b.len() as int) =~= dec_int(y2));
    lemma_dec_int_injective(x1, x2);
    lemma_dec_int_injective(y1, y2);
}

/// Two events with the same record are the same event.
pub proof fn lemma_wire_injective(a: DeviceInput, b: DeviceInput)
    requires
        a.wire() == b.wire(),
    ensures
        a == b,
{
    lemma_kind_text(a.kind());
    lemma_kind_text(b.kind());
    let (ha, hb) = (ascii(a.kind().head()), ascii(b.kind().head()));
    assert(a.wire()[2] == ha[2] && a.wire()[16] == ha[16] && a.wire()[17] == ha[17]);
    assert(b.wire()[2] == hb[2] && b.wire()[16] == hb[16] && b.wire()[17] == hb[17]);
    assert(a.kind() == b.kind());
    lemma_wrap_injective(a.kind(), a.value(), b.value());
    match (a, b) {
        (DeviceInput::Keyboard(KeyboardState::KeyDown(j)), DeviceInput::Keyboard(KeyboardState::KeyDown(k)))
        | (DeviceInput::Keyboard(KeyboardState::KeyClick(j)), DeviceInput::Keyboard(KeyboardState::KeyClick(k)))
        | (DeviceInput::Keyboard(KeyboardState::KeyUp(j)), DeviceInput::Keyboard(KeyboardState::KeyUp(k))) => {
            lemma_key_name_chars(j);
            lemma_key_name_chars(k);
            lemma_ascii_injective(j.name(), k.name());
            lemma_key_name_injective(j, k);
        },
        (DeviceInput::Mouse(MouseState::MouseUp(j)), DeviceInput::Mouse(MouseState::MouseUp(k)))
        | (DeviceInput::Mouse(MouseState::MouseDown(j)), DeviceInput::Mouse(MouseState::MouseDown(k)))
        | (DeviceInput::Mouse(MouseState::MouseClick(j)), DeviceInput::Mouse(MouseState::MouseClick(k))) => {
            lemma_button_name_chars(j);
            lemma_button_name_chars(k);
            lemma_ascii_injective(j.name(), k.name());
            lemma_button_name_injective(j, k);
        },
        (DeviceInput::Mouse(MouseState::MouseMove(p)), DeviceInput::Mouse(MouseState::MouseMove(q))) => {
            lemma_point_value_injective(p.0 as int, p.1 as int, q.0 as int, q.1 as int);
        },
        _ => {},
    }
}

/// Reading the record of an event gives that event back.
pub proof fn lemma_record_round_trip(e: DeviceInput)
    ensures
        read_record(e.wire()) == Ok::<DeviceInput, ProtocolError>(e),
{
    let found = choose|other: DeviceInput| other.wire() == e.wire();
    lemma_wire_injective(found, e);
}

/// A record is not empty, and the separator of a batch is none of its bytes.
pub proof fn lemma_wire_bytes(e: DeviceInput)
    ensures
        e.wire().len() > 0,
        forall|i: int| 0 <= i < e.wire().len() ==> is_record_byte(#[trigger] e.wire()[i]),
        forall|i: int| 0 <= i < e.wire().len() ==> #[trigger] e.wire()[i] != SEPARATOR,
{
    let kind = e.kind();
    lemma_kind_text(kind);
    let (h, v, t) = (ascii(kind.head()), e.value(), ascii(kind.tail()));
    assert forall|i: int| 0 <= i < v.len() implies is_record_byte(#[trigger] v[i]) by {
        match e {
            DeviceInput::Keyboard(KeyboardState::KeyDown(k))
            | DeviceInput::Keyboard(KeyboardState::KeyClick(k))
            | DeviceInput::Keyboard(KeyboardState::KeyUp(k)) => {
                lemma_key_name_chars(k);
                assert(v[i] == k.name()[i] as u8);
            },
            DeviceInput::Mouse(MouseState::MouseUp(b))
            | DeviceInput::Mouse(MouseState::MouseDown(b))
            | DeviceInput::Mouse(MouseState::MouseClick(b)) => {
                lemma_button_name_chars(b);
                assert(v[i] == b.name()[i] as u8);
            },
            DeviceInput::Mouse(MouseState::MouseMove(p)) => {
                let (dx, dy) = (dec_int(p.0 as int), dec_int(p.1 as int));
                lemma_dec_int_bytes(p.0 as int);
                lemma_dec_int_bytes(p.1 as int);
                if i < dx.len() {
                    assert(v[i] == dx[i]);
                } else if i > dx.len() {
                    assert(v[i] == dy[i - dx.len() - 1]);
                }
            },
        }
    }
    assert forall|i: int| 0 <= i < e.wire().len() implies is_record_byte(#[trigger] e.wire()[i]) by {
        if i < h.len() {
            assert(e.wire()[i] == h[i]);
        } else if i < h.len() + v.len() {
            assert(e.wire()[i] == v[i - h.len()]);
        } else {
            assert(e.wire()[i] == t[i - h.len() - v.len()]);
        }
    }
}

} // verus!
