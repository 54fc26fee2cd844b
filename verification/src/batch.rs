//! Event batches: the events of one tick, in capture order.
//!
//! On the wire a batch is the records of its events with one separator byte
//! between neighbours; the empty batch is the empty byte string. A reader also
//! accepts one separator after the last record.

use crate::error::ProtocolError;
use crate::event::{
    lemma_record_round_trip, lemma_wire_bytes, read_record, ButtonMouse, DeviceInput, KeyboardState,
    MouseState,
};
use crate::keys::KeySymbol;
use crate::text::SEPARATOR;
use vstd::prelude::*;
use vstd::slice::slice_subrange;

verus! {

/// The records `records` with a separator between neighbours.
pub open spec fn join_records(records: Seq<Seq<u8>>) -> Seq<u8>
    decreases records.len(),
{
    if records.len() == 0 {
        Seq::empty()
    } else if records.len() == 1 {
        records[0]
    } else {
        join_records(records.drop_last()) + seq![SEPARATOR] + records.last()
    }
}

/// The records of the events `events`, in order.
pub open spec fn records_of(events: Seq<DeviceInput>) -> Seq<Seq<u8>> {
    Seq::new(events.len(), |i: int| events[i].wire())
}

/// The bytes of the batch `events` on the wire.
pub open spec fn batch_wire(events: Seq<DeviceInput>) -> Seq<u8> {
    join_records(records_of(events))
}

/// The pieces of `bytes` between separators: one more than there are
/// separators, empty pieces included.
pub open spec fn split_records(bytes: Seq<u8>) -> Seq<Seq<u8>>
    decreases bytes.len(),
{
    if bytes.len() == 0 {
        seq![Seq::empty()]
    } else {
        let before = split_records(bytes.drop_last());
        if bytes.last() == SEPARATOR {
            before.push(Seq::empty())
        } else {
            before.update(before.len() - 1, before.last().push(bytes.last()))
        }
    }
}

/// The records found in `bytes`: its pieces, without the last one if that is
/// empty.
pub open spec fn batch_tokens(bytes: Seq<u8>) -> Seq<Seq<u8>> {
    let pieces = split_records(bytes);
    if pieces.last().len() == 0 {
        pieces.drop_last()
    } else {
        pieces
    }
}

/// Whether every one of `tokens` is the record of an event.
pub open spec fn all_records(tokens: Seq<Seq<u8>>) -> bool {
    forall|i: int| 0 <= i < tokens.len() ==> (#[trigger] read_record(tokens[i])) is Ok
}

/// The events that `tokens` are the records of.
pub open spec fn events_of(tokens: Seq<Seq<u8>>) -> Seq<DeviceInput> {
    Seq::new(tokens.len(), |i: int| read_record(tokens[i])->Ok_0)
}

/// What a received buffer is read as: the events of its records, in order, or
/// `MalformedEvent` when one of them is the record of no event.
pub open spec fn read_batch(bytes: Seq<u8>) -> Result<Seq<DeviceInput>, ProtocolError> {
    let tokens = batch_tokens(bytes);
    if all_records(tokens) {
        Ok(events_of(tokens))
    } else {
        Err(ProtocolError::MalformedEvent)
    }
}

/// There is always at least one piece.
pub proof fn lemma_split_nonempty(bytes: Seq<u8>)
    ensures
        split_records(bytes).len() > 0,
    decreases bytes.len(),
{
    if bytes.len() > 0 {
        lemma_split_nonempty(bytes.drop_last());
    }
}

/// Bytes without a separator are one piece.
pub proof fn lemma_split_one(bytes: Seq<u8>)
    requires
        forall|i: int| 0 <= i < bytes.len() ==> bytes[i] != SEPARATOR,
    ensures
        split_records(bytes) == seq![bytes],
    decreases bytes.len(),
{
    if bytes.len() > 0 {
        lemma_split_one(bytes.drop_last());
        assert(bytes.drop_last().push(bytes.last()) =~= bytes);
        assert(split_records(bytes) =~= seq![bytes]);
    } else {
        assert(bytes =~= Seq::empty());
    }
}

/// A separator parts the pieces before it from the pieces after it.
pub proof fn lemma_split_concat(a: Seq<u8>, b: Seq<u8>)
    ensures
        split_records(a + seq![SEPARATOR] + b) == split_records(a) + split_records(b),
    decreases b.len(),
{
    let whole = a + seq![SEPARATOR] + b;
    lemma_split_nonempty(a);
    if b.len() == 0 {
        assert(whole.drop_last() =~= a);
        assert(split_records(whole) =~= split_records(a) + split_records(b));
    } else {
        lemma_split_concat(a, b.drop_last());
        lemma_split_nonempty(b.drop_last());
        assert(whole.drop_last() =~= a + seq![SEPARATOR] + b.drop_last());
        assert(whole.last() == b.last());
        assert(split_records(whole) =~= split_records(a) + split_records(b));
    }
}

/// Splitting what was joined gives the records back, when none of them holds
/// a separator and there is at least one.
pub proof fn lemma_split_join(records: Seq<Seq<u8>>)
    requires
        records.len() > 0,
        forall|i: int, j: int|
            0 <= i < records.len() && 0 <= j < records[i].len() ==> records[i][j] != SEPARATOR,
    ensures
        split_records(join_records(records)) == records,
    decreases records.len(),
{
    if records.len() == 1 {
        lemma_split_one(records[0]);
        assert(seq![records[0]] =~= records);
    } else {
        let init = records.drop_last();
        lemma_split_join(init);
        lemma_split_concat(join_records(init), records.last());
        lemma_split_one(records.last());
        assert(init + seq![records.last()] =~= records);
    }
}

/// Reading the bytes of a batch gives its events back, in order.
pub proof fn lemma_batch_round_trip(events: Seq<DeviceInput>)
    ensures
        read_batch(batch_wire(events)) == Ok::<Seq<DeviceInput>, ProtocolError>(events),
{
    let records = records_of(events);
    if events.len() == 0 {
        assert(split_records(batch_wire(events)) =~= seq![Seq::<u8>::empty()]);
        assert(batch_tokens(batch_wire(events)) =~= Seq::<Seq<u8>>::empty());
        assert(events_of(batch_tokens(batch_wire(events))) =~= events);
    } else {
        assert forall|i: int, j: int|
            0 <= i < records.len() && 0 <= j < records[i].len() implies records[i][j]
            != SEPARATOR by {
            lemma_wire_bytes(events[i]);
        }
        lemma_split_join(records);
        lemma_wire_bytes(events[events.len() - 1]);
        let tokens = batch_tokens(batch_wire(events));
        assert(tokens == records);
        assert forall|i: int| 0 <= i < tokens.len() implies read_record(tokens[i]) == Ok::<
            DeviceInput,
            ProtocolError,
        >(events[i]) by {
            lemma_record_round_trip(events[i]);
        }
        assert(events_of(tokens) =~= events);
    }
}

/// Writes the batch `events`: each record, a separator between neighbours.
pub fn serialize_batch(events: &[DeviceInput]) -> (out: Vec<u8>)
    ensures
        out@ == batch_wire(events@),
{
    let mut out: Vec<u8> = Vec::new();
    let mut i: usize = 0;
    assert(records_of(events@.subrange(0, 0)) =~= Seq::empty());
    while i < events.len()
        invariant
            i <= events@.len(),
            out@ == batch_wire(events@.subrange(0, i as int)),
        decreases events@.len() - i,
    {
        let ghost done = records_of(events@.subrange(0, i as int));
        let ghost next = records_of(events@.subrange(0, i + 1));
        proof {
            assert(next.drop_last() =~= done);
            assert(next.last() == events@[i as int].wire());
        }
        if i > 0 {
            out.push(SEPARATOR);
        }
        events[i].write_record(&mut out);
        proof {
            if i == 0 {
                assert(done =~= Seq::empty());
                assert(out@ =~= next[0]);
            } else {
                assert(out@ =~= join_records(done) + seq![SEPARATOR] + next.last());
            }
        }
        i += 1;
    }
    assert(events@.subrange(0, i as int) =~= events@);
    out
}

/// Finds the records in a received buffer.
///
/// Each pair gives the bounds of one record in `bytes`, in order.
fn token_bounds(bytes: &[u8]) -> (bounds: Vec<(usize, usize)>)
    ensures
        bounds@.len() == batch_tokens(bytes@).len(),
        forall|j: int|
            0 <= j < bounds@.len() ==> {
                let (from, to) = #[trigger] bounds@[j];
                from <= to <= bytes@.len() && bytes@.subrange(from as int, to as int)
                    == batch_tokens(bytes@)[j]
            },
{
    let n = bytes.len();
    let mut bounds: Vec<(usize, usize)> = Vec::new();
    let mut start: usize = 0;
    let mut i: usize = 0;
    assert(bytes@.subrange(0, 0) =~= Seq::empty());
    while i < n
        invariant
            start <= i <= n,
            n == bytes@.len(),
            split_records(bytes@.subrange(0, i as int)).len() == bounds@.len() + 1,
            split_records(bytes@.subrange(0, i as int)).last() == bytes@.subrange(
                start as int,
                i as int,
            ),
            forall|j: int|
                0 <= j < bounds@.len() ==> {
                    let (from, to) = #[trigger] bounds@[j];
                    from <= to <= i && bytes@.subrange(from as int, to as int) == split_records(
                        bytes@.subrange(0, i as int),
                    )[j]
                },
        decreases n - i,
    {
        let ghost seen = bytes@.subrange(0, i as int);
        let ghost next = bytes@.subrange(0, i + 1);
        let ghost before = bounds@;
        proof {
            assert(next.drop_last() =~= seen);
            assert(next.last() == bytes@[i as int]);
        }
        if bytes[i] == SEPARATOR {
            bounds.push((start, i));
            start = i + 1;
            proof {
                assert(bytes@.subrange(start as int, i + 1) =~= Seq::empty());
                assert forall|j: int| 0 <= j < bounds@.len() implies {
                    let (from, to) = #[trigger] bounds@[j];
                    from <= to <= i + 1 && bytes@.subrange(from as int, to as int)
                        == split_records(next)[j]
                } by {
                    if j < before.len() {
                        assert(bounds@[j] == before[j]);
                    }
                }
            }
        } else {
            proof {
                assert(bytes@.subrange(start as int, i + 1) =~= bytes@.subrange(
                    start as int,
                    i as int,
                ).push(bytes@[i as int]));
            }
        }
        i += 1;
    }
    assert(bytes@.subrange(0, n as int) =~= bytes@);
    if start < n {
        bounds.push((start, n));
        assert(bounds@.len() == batch_tokens(bytes@).len());
    } else {
        assert(bytes@.subrange(start as int, n as int).len() == 0);
    }
    bounds
}

/// Reads a received buffer as a batch.
///
/// `Ok` with the events in arrival order when every record spells an event;
/// `MalformedEvent` when one does not, and then no event of the buffer is
/// handed out.
pub fn parse_batch(bytes: &[u8]) -> (r: Result<Vec<DeviceInput>, ProtocolError>)
    ensures
        match r {
            Ok(events) => read_batch(bytes@) == Ok::<Seq<DeviceInput>, ProtocolError>(events@),
            Err(err) => err == ProtocolError::MalformedEvent && read_batch(bytes@) is Err,
        },
{
    let bounds = token_bounds(bytes);
    let ghost tokens = batch_tokens(bytes@);
    let mut events: Vec<DeviceInput> = Vec::new();
    let mut j: usize = 0;
    while j < bounds.len()
        invariant
            j <= bounds@.len(),
            tokens == batch_tokens(bytes@),
            bounds@.len() == tokens.len(),
            forall|k: int|
                0 <= k < bounds@.len() ==> {
                    let (from, to) = #[trigger] bounds@[k];
                    from <= to <= bytes@.len() && bytes@.subrange(from as int, to as int)
                        == tokens[k]
                },
            events@.len() == j,
            forall|k: int|
                0 <= k < j ==> read_record(tokens[k]) == Ok::<DeviceInput, ProtocolError>(
                    #[trigger] events@[k],
                ),
        decreases bounds@.len() - j,
    {
        let (from, to) = bounds[j];
        match DeviceInput::parse_record(slice_subrange(bytes, from, to)) {
            Ok(e) => {
                events.push(e);
            },
            Err(_) => {
                assert(read_record(tokens[j as int]) is Err);
                return Err(ProtocolError::MalformedEvent);
            },
        }
        j += 1;
    }
    assert forall|k: int| 0 <= k < tokens.len() implies (#[trigger] read_record(
        tokens[k],
    )) is Ok by {
        assert(read_record(tokens[k]) == Ok::<DeviceInput, ProtocolError>(events@[k]));
    }
    assert(events_of(tokens) =~= events@);
    Ok(events)
}

/// The button that counts when several are held: left before middle before
/// right.
pub open spec fn held_button(left: bool, middle: bool, right: bool) -> Option<ButtonMouse> {
    if left {
        Some(ButtonMouse::Left)
    } else if middle {
        Some(ButtonMouse::Middle)
    } else if right {
        Some(ButtonMouse::Right)
    } else {
        None
    }
}

/// Picks the held button that counts, given which buttons are down.
pub fn get_mouse_button(left: bool, middle: bool, right: bool) -> (r: Option<ButtonMouse>)
    ensures
        r == held_button(left, middle, right),
{
    if left {
        return Some(ButtonMouse::Left);
    }
    if middle {
        return Some(ButtonMouse::Middle);
    }
    if right {
        return Some(ButtonMouse::Right);
    }
    None
}

/// The events of one tick: a move if the pointer is elsewhere than last tick,
/// then a click for every pressed key in the order given, then a click of the
/// held button if there is one. A key or button that stays down clicks again
/// in every tick.
pub open spec fn captured(
    previous: (i32, i32),
    pointer: (i32, i32),
    keys: Seq<KeySymbol>,
    button: Option<ButtonMouse>,
) -> Seq<DeviceInput> {
    let moved = if pointer != previous {
        seq![DeviceInput::Mouse(MouseState::MouseMove(pointer))]
    } else {
        Seq::empty()
    };
    let pressed = Seq::new(
        keys.len(),
        |i: int| DeviceInput::Keyboard(KeyboardState::KeyClick(keys[i])),
    );
    let clicked = match button {
        Some(b) => seq![DeviceInput::Mouse(MouseState::MouseClick(b))],
        None => Seq::empty(),
    };
    moved + pressed + clicked
}

/// Turns what the polling backend reports into the events of this tick.
pub fn capture_events(
    previous: (i32, i32),
    pointer: (i32, i32),
    keys: &[KeySymbol],
    button: Option<ButtonMouse>,
) -> (events: Vec<DeviceInput>)
    ensures
        events@ == captured(previous, pointer, keys@, button),
{
    let mut events: Vec<DeviceInput> = Vec::new();
    if pointer.0 != previous.0 || pointer.1 != previous.1 {
        events.push(DeviceInput::Mouse(MouseState::MouseMove(pointer)));
    }
    let ghost moved = events@;
    let mut i: usize = 0;
    while i < keys.len()
        invariant
            i <= keys@.len(),
            events@ == moved + Seq::new(
                i as nat,
                |j: int| DeviceInput::Keyboard(KeyboardState::KeyClick(keys@[j])),
            ),
        decreases keys@.len() - i,
    {
        events.push(DeviceInput::Keyboard(KeyboardState::KeyClick(keys[i])));
        i += 1;
        assert(events@ =~= moved + Seq::new(
            i as nat,
            |j: int| DeviceInput::Keyboard(KeyboardState::KeyClick(keys@[j])),
        ));
    }
    if let Some(b) = button {
        events.push(DeviceInput::Mouse(MouseState::MouseClick(b)));
    }
    assert(events@ =~= captured(previous, pointer, keys@, button));
    events
}

/// Whether `e` is a move of the pointer.
pub open spec fn is_move(e: DeviceInput) -> bool {
    e matches DeviceInput::Mouse(MouseState::MouseMove(_))
}

/// A tick that finds the pointer where the tick before left it sends no
/// move, whatever else it sends.
pub proof fn lemma_no_move_when_still(
    pointer: (i32, i32),
    keys: Seq<KeySymbol>,
    button: Option<ButtonMouse>,
)
    ensures
        forall|i: int|
            0 <= i < captured(pointer, pointer, keys, button).len() ==> !is_move(
                #[trigger] captured(pointer, pointer, keys, button)[i],
            ),
{
}

/// A tick sends at most one move, as its first event, and only for a pointer
/// that stands elsewhere than last tick.
pub proof fn lemma_move_comes_first(
    previous: (i32, i32),
    pointer: (i32, i32),
    keys: Seq<KeySymbol>,
    button: Option<ButtonMouse>,
)
    ensures
        forall|i: int|
            0 <= i < captured(previous, pointer, keys, button).len() && is_move(
                #[trigger] captured(previous, pointer, keys, button)[i],
            ) ==> i == 0 && pointer != previous && captured(previous, pointer, keys, button)[i]
                == DeviceInput::Mouse(MouseState::MouseMove(pointer)),
{
}

/// The sending side of the event channel: it remembers where the pointer
/// stood at the last tick.
pub struct EventChannel {
    last_pointer: (i32, i32),
}

impl EventChannel {
    /// Where the pointer stood at the last tick.
    pub closed spec fn pointer(&self) -> (i32, i32) {
        self.last_pointer
    }

    /// A channel that has seen the pointer at the origin.
    pub fn new() -> (channel: EventChannel)
        ensures
            channel.pointer() == (0i32, 0i32),
    {
        EventChannel { last_pointer: (0, 0) }
    }

    /// Where the pointer stood at the last tick.
    pub fn last_pointer(&self) -> (p: (i32, i32))
        ensures
            p == self.pointer(),
    {
        self.last_pointer
    }

    /// Takes the poll of one tick: returns the tick's batch, ready to send,
    /// and remembers the pointer.
    pub fn poll(
        &mut self,
        pointer: (i32, i32),
        keys: &[KeySymbol],
        left: bool,
        middle: bool,
        right: bool,
    ) -> (out: Vec<u8>)
        ensures
            out@ == batch_wire(
                captured(old(self).pointer(), pointer, keys@, held_button(left, middle, right)),
            ),
            final(self).pointer() == pointer,
    {
        let button = get_mouse_button(left, middle, right);
        let events = capture_events(self.last_pointer, pointer, keys, button);
        self.last_pointer = pointer;
        serialize_batch(events.as_slice())
    }
}

/// Where the pointer stood after the ticks `pointers`, for a channel that
/// had seen it at `start`.
pub open spec fn last_seen(start: (i32, i32), pointers: Seq<(i32, i32)>) -> (i32, i32) {
    if pointers.len() == 0 {
        start
    } else {
        pointers.last()
    }
}

/// The coordinates of the moves that a channel sends over the ticks
/// `pointers`, one after the other, when it had seen the pointer at `start`.
pub open spec fn moves_sent(start: (i32, i32), pointers: Seq<(i32, i32)>) -> Seq<(i32, i32)>
    decreases pointers.len(),
{
    if pointers.len() == 0 {
        Seq::empty()
    } else {
        let earlier = pointers.drop_last();
        if pointers.last() != last_seen(start, earlier) {
            moves_sent(start, earlier).push(pointers.last())
        } else {
            moves_sent(start, earlier)
        }
    }
}

/// Over any run of ticks, no move repeats the coordinates of the move before
/// it, and the first move does not repeat where the channel had seen the
/// pointer at the start.
pub proof fn lemma_moves_never_repeat(start: (i32, i32), pointers: Seq<(i32, i32)>)
    ensures
        ({
            let moves = moves_sent(start, pointers);
            &&& forall|i: int| 0 < i < moves.len() ==> #[trigger] moves[i] != moves[i - 1]
            &&& moves.len() > 0 ==> moves[0] != start && moves.last() == last_seen(start, pointers)
            &&& moves.len() == 0 ==> last_seen(start, pointers) == start
        }),
    decreases pointers.len(),
{
    if pointers.len() > 0 {
        lemma_moves_never_repeat(start, pointers.drop_last());
    }
}

} // verus!
