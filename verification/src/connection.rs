//! The connection loops: what to do next, given what just happened.
//!
//! A loop is driven from outside: the driver does what the last action asks
//! (reads, grabs a frame, paints, sleeps) and reports the outcome as an event;
//! `step` answers with the next action. Failures that concern one tick only
//! make the loop skip a step; a failure of the stream or of the capture
//! backend closes the loop, and only that loop. An event that does not belong
//! to the loop's phase means that the driver is out of step, and closes it.

use crate::batch::{
    batch_wire, captured, held_button, lemma_batch_round_trip, parse_batch, read_batch, EventChannel,
};
use crate::codec::{decoded, encoded, lemma_codec_round_trip};
use crate::error::{ProtocolError, Severity};
use crate::event::DeviceInput;
use crate::keys::KeySymbol;
use crate::pixel::{display_words, FrameView, PixelFrame};
use crate::transport::{frame_packet, framed, MAX_PAYLOAD_LEN};
use vstd::prelude::*;

verus! {

/// The length of a tick in milliseconds: the wait for an event batch and the
/// rest between two rounds.
pub const TICK_MILLIS: u64 = 20;

/// Where a server loop stands within its tick.
#[derive(Clone, Copy, Debug, PartialEq, Eq, Structural)]
pub enum ServerPhase {
    /// Waiting for an event batch, for one tick at most.
    Idle,
    /// Waiting for the events of a batch to be applied.
    Injecting,
    /// Waiting for a frame from the capture backend.
    Capturing,
    /// Waiting for the frame to be written.
    Sending,
    /// Waiting for the rest of the tick to pass.
    Resting,
    /// Over.
    Closed,
}

/// What happened on the server side.
#[derive(Debug, PartialEq, Eq)]
pub enum ServerEvent {
    /// The wait for a batch ended with nothing read.
    ReadTimedOut,
    /// These bytes were read.
    BatchRead(Vec<u8>),
    /// The events of the batch were applied.
    Injected,
    /// The capture backend gave a frame, here as compressed bytes.
    FrameCaptured(Vec<u8>),
    /// The capture backend had no frame this time.
    CaptureSkipped,
    /// The capture backend failed for good.
    CaptureFailed,
    /// The frame was written in full.
    FrameSent,
    /// The rest of the tick has passed.
    Slept,
    /// Reading or writing the stream failed.
    StreamFailed,
}

/// What the server's driver is to do next.
#[derive(Debug, PartialEq, Eq)]
pub enum ServerAction {
    /// Wait up to one tick for an event batch.
    ReadBatch,
    /// Apply these events, in this order.
    Inject(Vec<DeviceInput>),
    /// Grab a frame and compress it.
    GrabFrame,
    /// Write these bytes to the stream, all of them.
    SendFrame(Vec<u8>),
    /// Sleep for the rest of the tick.
    Sleep,
    /// Leave the loop.
    Close,
}

/// A server action with its data as mathematical values.
pub enum ServerPlan {
    ReadBatch,
    Inject(Seq<DeviceInput>),
    GrabFrame,
    SendFrame(Seq<u8>),
    Sleep,
    Close,
}

impl View for ServerAction {
    type V = ServerPlan;

    open spec fn view(&self) -> ServerPlan {
        match self {
            ServerAction::ReadBatch => ServerPlan::ReadBatch,
            ServerAction::Inject(events) => ServerPlan::Inject(events@),
            ServerAction::GrabFrame => ServerPlan::GrabFrame,
            ServerAction::SendFrame(packet) => ServerPlan::SendFrame(packet@),
            ServerAction::Sleep => ServerPlan::Sleep,
            ServerAction::Close => ServerPlan::Close,
        }
    }
}

/// The server loop's rule: the phase after `event` in `phase`, and what to
/// do then.
///
/// A batch is applied whole or not at all: one that does not parse is dropped
/// and the tick goes on. A frame too long to announce is not sent, and the
/// tick goes on.
pub open spec fn server_step(phase: ServerPhase, event: ServerEvent) -> (ServerPhase, ServerPlan) {
    match (phase, event) {
        (ServerPhase::Closed, _) => (ServerPhase::Closed, ServerPlan::Close),
        (_, ServerEvent::StreamFailed) => (ServerPhase::Closed, ServerPlan::Close),
        (ServerPhase::Idle, ServerEvent::ReadTimedOut) => (
            ServerPhase::Capturing,
            ServerPlan::GrabFrame,
        ),
        (ServerPhase::Idle, ServerEvent::BatchRead(bytes)) => match read_batch(bytes@) {
            Ok(events) => if events.len() > 0 {
                (ServerPhase::Injecting, ServerPlan::Inject(events))
            } else {
                (ServerPhase::Capturing, ServerPlan::GrabFrame)
            },
            Err(_) => (ServerPhase::Capturing, ServerPlan::GrabFrame),
        },
        (ServerPhase::Injecting, ServerEvent::Injected) => (
            ServerPhase::Capturing,
            ServerPlan::GrabFrame,
        ),
        (ServerPhase::Capturing, ServerEvent::FrameCaptured(bytes)) => if bytes@.len()
            <= MAX_PAYLOAD_LEN {
            (ServerPhase::Sending, ServerPlan::SendFrame(framed(bytes@)))
        } else {
            (ServerPhase::Resting, ServerPlan::Sleep)
        },
        (ServerPhase::Capturing, ServerEvent::CaptureSkipped) => (
            ServerPhase::Resting,
            ServerPlan::Sleep,
        ),
        (ServerPhase::Sending, ServerEvent::FrameSent) => (ServerPhase::Resting, ServerPlan::Sleep),
        (ServerPhase::Resting, ServerEvent::Slept) => (ServerPhase::Idle, ServerPlan::ReadBatch),
        _ => (ServerPhase::Closed, ServerPlan::Close),
    }
}

/// A batch that a client sent is replayed as it was captured: the server
/// injects the same events in the same order.
pub proof fn lemma_server_replays_sent_batch(bytes: Vec<u8>, events: Seq<DeviceInput>)
    requires
        bytes@ == batch_wire(events),
        events.len() > 0,
    ensures
        server_step(ServerPhase::Idle, ServerEvent::BatchRead(bytes)) == (
            ServerPhase::Injecting,
            ServerPlan::Inject(events),
        ),
{
    lemma_batch_round_trip(events);
}

/// The failure that `event` reports to a server loop in `phase`, if it
/// reports one.
pub open spec fn server_failure(phase: ServerPhase, event: ServerEvent) -> Option<ProtocolError> {
    match (phase, event) {
        (ServerPhase::Closed, _) => None,
        (_, ServerEvent::StreamFailed) => Some(ProtocolError::TransportFailed),
        (ServerPhase::Idle, ServerEvent::BatchRead(bytes)) => if read_batch(bytes@) is Err {
            Some(ProtocolError::MalformedEvent)
        } else {
            None
        },
        (ServerPhase::Capturing, ServerEvent::FrameCaptured(bytes)) => if bytes@.len()
            > MAX_PAYLOAD_LEN {
            Some(ProtocolError::FrameTooLarge)
        } else {
            None
        },
        (ServerPhase::Capturing, ServerEvent::CaptureSkipped) => Some(ProtocolError::CaptureSkipped),
        (ServerPhase::Capturing, ServerEvent::CaptureFailed) => Some(
            ProtocolError::BackendUnavailable,
        ),
        _ => None,
    }
}

/// A failure closes a server loop exactly when its reach is more than one
/// tick: a malformed batch, a skipped capture or a frame too large leave the
/// loop open, a failed stream or capture backend closes it.
pub proof fn lemma_server_closes_by_severity(phase: ServerPhase, event: ServerEvent)
    requires
        phase != ServerPhase::Closed,
        server_failure(phase, event) is Some,
    ensures
        (server_step(phase, event).0 == ServerPhase::Closed) == (server_failure(
            phase,
            event,
        )->Some_0.spec_severity() != Severity::Recoverable),
{
}

/// The loop of one server connection.
pub struct ServerLoop {
    phase: ServerPhase,
}

impl ServerLoop {
    /// Where the loop stands.
    pub closed spec fn spec_phase(&self) -> ServerPhase {
        self.phase
    }

    /// A loop at the top of its first tick; its first action is to read a
    /// batch.
    pub fn start() -> (r: (ServerLoop, ServerAction))
        ensures
            r.0.spec_phase() == ServerPhase::Idle,
            r.1@ == ServerPlan::ReadBatch,
    {
        (ServerLoop { phase: ServerPhase::Idle }, ServerAction::ReadBatch)
    }

    /// Where the loop stands.
    #[verifier::when_used_as_spec(spec_phase)]
    pub fn phase(&self) -> (p: ServerPhase)
        ensures
            p == self.spec_phase(),
    {
        self.phase
    }

    /// Whether the loop is over.
    pub fn is_closed(&self) -> (b: bool)
        ensures
            b == (self.spec_phase() == ServerPhase::Closed),
    {
        match self.phase {
            ServerPhase::Closed => true,
            _ => false,
        }
    }

    /// Takes an event and says what to do next.
    pub fn step(&mut self, event: ServerEvent) -> (action: ServerAction)
        ensures
            (final(self).spec_phase(), action@) == server_step(old(self).spec_phase(), event),
    {
        let (next, action) = match (self.phase, event) {
            (ServerPhase::Closed, _) => (ServerPhase::Closed, ServerAction::Close),
            (_, ServerEvent::StreamFailed) => (ServerPhase::Closed, ServerAction::Close),
            (ServerPhase::Idle, ServerEvent::ReadTimedOut) => (
                ServerPhase::Capturing,
                ServerAction::GrabFrame,
            ),
            (ServerPhase::Idle, ServerEvent::BatchRead(bytes)) => match parse_batch(
                bytes.as_slice(),
            ) {
                Ok(events) => if events.len() > 0 {
                    (ServerPhase::Injecting, ServerAction::Inject(events))
                } else {
                    (ServerPhase::Capturing, ServerAction::GrabFrame)
                },
                Err(_) => (ServerPhase::Capturing, ServerAction::GrabFrame),
            },
            (ServerPhase::Injecting, ServerEvent::Injected) => (
                ServerPhase::Capturing,
                ServerAction::GrabFrame,
            ),
            (ServerPhase::Capturing, ServerEvent::FrameCaptured(bytes)) => match frame_packet(
                bytes.as_slice(),
            ) {
                Ok(packet) => (ServerPhase::Sending, ServerAction::SendFrame(packet)),
                Err(_) => (ServerPhase::Resting, ServerAction::Sleep),
            },
            (ServerPhase::Capturing, ServerEvent::CaptureSkipped) => (
                ServerPhase::Resting,
                ServerAction::Sleep,
            ),
            (ServerPhase::Sending, ServerEvent::FrameSent) => (
                ServerPhase::Resting,
                ServerAction::Sleep,
            ),
            (ServerPhase::Resting, ServerEvent::Slept) => (
                ServerPhase::Idle,
                ServerAction::ReadBatch,
            ),
            _ => (ServerPhase::Closed, ServerAction::Close),
        };
        self.phase = next;
        action
    }
}

/// The phases of a server's connections after `event` on connection `id`.
pub open spec fn table_step(phases: Seq<ServerPhase>, id: int, event: ServerEvent) -> Seq<
    ServerPhase,
> {
    if 0 <= id < phases.len() {
        phases.update(id, server_step(phases[id], event).0)
    } else {
        phases
    }
}

/// Whatever happens on one connection, a failure that closes it included,
/// every other connection of the server stands where it stood: none is closed
/// by it, and a closed one stays closed.
pub proof fn lemma_isolation(phases: Seq<ServerPhase>, a: int, b: int, event: ServerEvent)
    requires
        0 <= a < phases.len(),
        0 <= b < phases.len(),
        a != b,
    ensures
        table_step(phases, a, event).len() == phases.len(),
        table_step(phases, a, event)[b] == phases[b],
        event is StreamFailed || event is CaptureFailed ==> table_step(phases, a, event)[a]
            == ServerPhase::Closed,
{
}

/// A closed loop stays closed, whatever comes.
pub proof fn lemma_closed_is_final(event: ServerEvent)
    ensures
        server_step(ServerPhase::Closed, event) == (ServerPhase::Closed, ServerPlan::Close),
{
}

/// The loops of all connections of one server. They share nothing: a step of
/// one leaves the others as they were.
pub struct ServerTable {
    loops: Vec<ServerLoop>,
}

impl ServerTable {
    /// The phase of each connection, in the order in which they came.
    pub closed spec fn phases(&self) -> Seq<ServerPhase> {
        Seq::new(self.loops@.len(), |i: int| self.loops@[i].spec_phase())
    }

    /// A server without connections.
    pub fn new() -> (table: ServerTable)
        ensures
            table.phases() == Seq::<ServerPhase>::empty(),
    {
        let table = ServerTable { loops: Vec::new() };
        assert(table.phases() =~= Seq::<ServerPhase>::empty());
        table
    }

    /// The number of connections that came, closed ones included.
    pub fn len(&self) -> (n: usize)
        ensures
            n == self.phases().len(),
    {
        self.loops.len()
    }

    /// Takes in a new connection: returns its number and its first action.
    pub fn accept(&mut self) -> (r: (usize, ServerAction))
        ensures
            r.0 == old(self).phases().len(),
            r.1@ == ServerPlan::ReadBatch,
            final(self).phases() == old(self).phases().push(ServerPhase::Idle),
    {
        let id = self.loops.len();
        let (fresh, action) = ServerLoop::start();
        self.loops.push(fresh);
        assert(self.phases() =~= old(self).phases().push(ServerPhase::Idle));
        (id, action)
    }

    /// The phase of connection `id`, if there is one.
    pub fn phase_of(&self, id: usize) -> (r: Option<ServerPhase>)
        ensures
            r == (if id < self.phases().len() {
                Some(self.phases()[id as int])
            } else {
                None
            }),
    {
        if id < self.loops.len() {
            Some(self.loops[id].phase())
        } else {
            None
        }
    }

    /// Takes an event of connection `id` and says what its driver is to do
    /// next; `None` when there is no such connection.
    pub fn step(&mut self, id: usize, event: ServerEvent) -> (r: Option<ServerAction>)
        ensures
            final(self).phases() == table_step(old(self).phases(), id as int, event),
            match r {
                Some(action) => id < old(self).phases().len() && action@ == server_step(
                    old(self).phases()[id as int],
                    event,
                ).1,
                None => id >= old(self).phases().len(),
            },
    {
        if id >= self.loops.len() {
            return None;
        }
        let ghost before = self.loops@;
        let mut current = ServerLoop { phase: self.loops[id].phase() };
        let action = current.step(event);
        self.loops.set(id, current);
        proof {
            assert(self.loops@ == before.update(id as int, current));
            assert(self.phases() =~= table_step(old(self).phases(), id as int, event));
        }
        Some(action)
    }
}

/// Where the client loop stands within its tick.
#[derive(Clone, Copy, Debug, PartialEq, Eq, Structural)]
pub enum ClientPhase {
    /// Waiting for a whole frame.
    Receiving,
    /// Waiting for the frame to be painted.
    Painting,
    /// Waiting for the poll of the local input.
    Polling,
    /// Waiting for the event batch to be written.
    Sending,
    /// Waiting for the rest of the tick to pass.
    Resting,
    /// Over.
    Closed,
}

/// What happened on the client side.
#[derive(Debug, PartialEq, Eq)]
pub enum ClientEvent {
    /// A whole frame came; these are its compressed bytes, to be decoded
    /// here.
    FrameReceived(Vec<u8>),
    /// A whole frame came and a codec outside this library decoded it.
    FrameDecoded(PixelFrame),
    /// A whole frame came and no codec could decode it.
    FrameCorrupt,
    /// The frame was painted.
    Painted,
    /// The local input was polled: where the pointer is, which keys are
    /// pressed, which buttons are held.
    Polled { pointer: (i32, i32), keys: Vec<KeySymbol>, left: bool, middle: bool, right: bool },
    /// The event batch was written in full.
    BatchSent,
    /// The rest of the tick has passed.
    Slept,
    /// The user asked to leave, or the display surface is closed.
    ExitRequested,
    /// Reading or writing the stream failed, or it closed within a frame.
    StreamFailed,
}

/// What the client's driver is to do next.
#[derive(Debug, PartialEq, Eq)]
pub enum ClientAction {
    /// Read one whole frame from the stream.
    ReceiveFrame,
    /// Paint this display buffer of the given width and height.
    Paint { words: Vec<u32>, width: u32, height: u32 },
    /// Poll the local input.
    Poll,
    /// Write these bytes to the stream, all of them.
    SendBatch(Vec<u8>),
    /// Sleep for the rest of the tick.
    Sleep,
    /// Leave the loop.
    Close,
}

/// A client action with its data as mathematical values.
pub enum ClientPlan {
    ReceiveFrame,
    Paint { words: Seq<u32>, width: nat, height: nat },
    Poll,
    SendBatch(Seq<u8>),
    Sleep,
    Close,
}

impl View for ClientAction {
    type V = ClientPlan;

    open spec fn view(&self) -> ClientPlan {
        match self {
            ClientAction::ReceiveFrame => ClientPlan::ReceiveFrame,
            ClientAction::Paint { words, width, height } => ClientPlan::Paint {
                words: words@,
                width: *width as nat,
                height: *height as nat,
            },
            ClientAction::Poll => ClientPlan::Poll,
            ClientAction::SendBatch(bytes) => ClientPlan::SendBatch(bytes@),
            ClientAction::Sleep => ClientPlan::Sleep,
            ClientAction::Close => ClientPlan::Close,
        }
    }
}

/// What the client loop remembers: its phase and where the pointer stood at
/// the last poll.
pub struct ClientState {
    pub phase: ClientPhase,
    pub pointer: (i32, i32),
}

/// The client loop's rule: the state after `event` in `state`, and what to do
/// then.
///
/// A frame that does not decode is not painted, and the tick goes on with
/// the poll.
pub open spec fn client_step(state: ClientState, event: ClientEvent) -> (ClientState, ClientPlan) {
    let closed = (ClientState { phase: ClientPhase::Closed, pointer: state.pointer }, ClientPlan::Close);
    let to = |phase: ClientPhase| ClientState { phase, pointer: state.pointer };
    match (state.phase, event) {
        (ClientPhase::Closed, _) => closed,
        (_, ClientEvent::StreamFailed) => closed,
        (_, ClientEvent::ExitRequested) => closed,
        (ClientPhase::Receiving, ClientEvent::FrameReceived(bytes)) => match decoded(bytes@) {
            Ok(frame) => (
                to(ClientPhase::Painting),
                ClientPlan::Paint {
                    words: display_words(frame.pixels),
                    width: frame.width,
                    height: frame.height,
                },
            ),
            Err(_) => (to(ClientPhase::Polling), ClientPlan::Poll),
        },
        (ClientPhase::Receiving, ClientEvent::FrameDecoded(frame)) => (
            to(ClientPhase::Painting),
            ClientPlan::Paint {
                words: display_words(frame@.pixels),
                width: frame@.width,
                height: frame@.height,
            },
        ),
        (ClientPhase::Receiving, ClientEvent::FrameCorrupt) => (
            to(ClientPhase::Polling),
            ClientPlan::Poll,
        ),
        (ClientPhase::Painting, ClientEvent::Painted) => (to(ClientPhase::Polling), ClientPlan::Poll),
        (ClientPhase::Polling, ClientEvent::Polled { pointer, keys, left, middle, right }) => (
            ClientState { phase: ClientPhase::Sending, pointer },
            ClientPlan::SendBatch(
                batch_wire(captured(state.pointer, pointer, keys@, held_button(left, middle, right))),
            ),
        ),
        (ClientPhase::Sending, ClientEvent::BatchSent) => (to(ClientPhase::Resting), ClientPlan::Sleep),
        (ClientPhase::Resting, ClientEvent::Slept) => (
            to(ClientPhase::Receiving),
            ClientPlan::ReceiveFrame,
        ),
        _ => closed,
    }
}

/// A frame that was encoded in the lossless format is painted as it was
/// captured: the same size, and the display word of every pixel.
pub proof fn lemma_client_paints_sent_frame(state: ClientState, bytes: Vec<u8>, frame: FrameView)
    requires
        state.phase == ClientPhase::Receiving,
        frame.valid(),
        bytes@ == encoded(frame),
    ensures
        client_step(state, ClientEvent::FrameReceived(bytes)) == (
            ClientState { phase: ClientPhase::Painting, pointer: state.pointer },
            ClientPlan::Paint {
                words: display_words(frame.pixels),
                width: frame.width,
                height: frame.height,
            },
        ),
{
    lemma_codec_round_trip(frame);
}

/// The failure that `event` reports to a client loop in `phase`, if it
/// reports one.
pub open spec fn client_failure(phase: ClientPhase, event: ClientEvent) -> Option<ProtocolError> {
    match (phase, event) {
        (ClientPhase::Closed, _) => None,
        (_, ClientEvent::StreamFailed) => Some(ProtocolError::TransportFailed),
        (ClientPhase::Receiving, ClientEvent::FrameReceived(bytes)) => if decoded(bytes@) is Err {
            Some(ProtocolError::CorruptFrame)
        } else {
            None
        },
        (ClientPhase::Receiving, ClientEvent::FrameCorrupt) => Some(ProtocolError::CorruptFrame),
        _ => None,
    }
}

/// A failure closes the client loop exactly when its reach is more than one
/// tick: a corrupt frame leaves the loop open, a failed stream closes it.
pub proof fn lemma_client_closes_by_severity(state: ClientState, event: ClientEvent)
    requires
        state.phase != ClientPhase::Closed,
        client_failure(state.phase, event) is Some,
    ensures
        (client_step(state, event).0.phase == ClientPhase::Closed) == (client_failure(
            state.phase,
            event,
        )->Some_0.spec_severity() != Severity::Recoverable),
{
}

/// The loop of the client's one connection.
pub struct ClientLoop {
    phase: ClientPhase,
    channel: EventChannel,
}

impl ClientLoop {
    /// The loop's phase and the pointer of its last poll.
    pub closed spec fn state(&self) -> ClientState {
        ClientState { phase: self.phase, pointer: self.channel.pointer() }
    }

    /// A loop at the top of its first tick, the pointer taken to stand at
    /// the origin; its first action is to receive a frame.
    pub fn start() -> (r: (ClientLoop, ClientAction))
        ensures
            r.0.state() == (ClientState { phase: ClientPhase::Receiving, pointer: (0i32, 0i32) }),
            r.1@ == ClientPlan::ReceiveFrame,
    {
        (
            ClientLoop { phase: ClientPhase::Receiving, channel: EventChannel::new() },
            ClientAction::ReceiveFrame,
        )
    }

    /// Where the loop stands.
    pub fn phase(&self) -> (p: ClientPhase)
        ensures
            p == self.state().phase,
    {
        self.phase
    }

    /// Whether the loop is over.
    pub fn is_closed(&self) -> (b: bool)
        ensures
            b == (self.state().phase == ClientPhase::Closed),
    {
        match self.phase {
            ClientPhase::Closed => true,
            _ => false,
        }
    }

    /// The action that shows a decoded frame.
    fn paint(frame: &PixelFrame) -> (action: ClientAction)
        ensures
            action@ == (ClientPlan::Paint {
                words: display_words(frame@.pixels),
                width: frame@.width,
                height: frame@.height,
            }),
    {
        ClientAction::Paint {
            words: frame.to_display_buffer(),
            width: frame.width(),
            height: frame.height(),
        }
    }

    /// Takes an event and says what to do next.
    pub fn step(&mut self, event: ClientEvent) -> (action: ClientAction)
        ensures
            (final(self).state(), action@) == client_step(old(self).state(), event),
    {
        let (next, action) = match (self.phase, event) {
            (ClientPhase::Closed, _) => (ClientPhase::Closed, ClientAction::Close),
            (_, ClientEvent::StreamFailed) => (ClientPhase::Closed, ClientAction::Close),
            (_, ClientEvent::ExitRequested) => (ClientPhase::Closed, ClientAction::Close),
            (ClientPhase::Receiving, ClientEvent::FrameReceived(bytes)) => {
                match PixelFrame::from_raw_compressed(bytes.as_slice()) {
                    Ok(frame) => (ClientPhase::Painting, ClientLoop::paint(&frame)),
                    Err(_) => (ClientPhase::Polling, ClientAction::Poll),
                }
            },
            (ClientPhase::Receiving, ClientEvent::FrameDecoded(frame)) => (
                ClientPhase::Painting,
                ClientLoop::paint(&frame),
            ),
            (ClientPhase::Receiving, ClientEvent::FrameCorrupt) => (
                ClientPhase::Polling,
                ClientAction::Poll,
            ),
            (ClientPhase::Painting, ClientEvent::Painted) => (
                ClientPhase::Polling,
                ClientAction::Poll,
            ),
            (ClientPhase::Polling, ClientEvent::Polled { pointer, keys, left, middle, right }) => {
                let bytes = self.channel.poll(pointer, keys.as_slice(), left, middle, right);
                (ClientPhase::Sending, ClientAction::SendBatch(bytes))
            },
            (ClientPhase::Sending, ClientEvent::BatchSent) => (
                ClientPhase::Resting,
                ClientAction::Sleep,
            ),
            (ClientPhase::Resting, ClientEvent::Slept) => (
                ClientPhase::Receiving,
                ClientAction::ReceiveFrame,
            ),
            _ => (ClientPhase::Closed, ClientAction::Close),
        };
        self.phase = next;
        action
    }
}

} // verus!
