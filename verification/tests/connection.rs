use remote_desktop::batch::serialize_batch;
use remote_desktop::connection::{
    ClientAction, ClientEvent, ClientLoop, ClientPhase, ServerAction, ServerEvent, ServerLoop,
    ServerPhase, ServerTable, TICK_MILLIS,
};
use remote_desktop::event::{ButtonMouse, DeviceInput, KeyboardState, MouseState};
use remote_desktop::keys::KeySymbol;
use remote_desktop::pixel::{PixelFrame, Rgb};
use remote_desktop::transport::frame_packet;

fn key_click(k: KeySymbol) -> DeviceInput {
    DeviceInput::Keyboard(KeyboardState::KeyClick(k))
}

fn small_frame() -> PixelFrame {
    PixelFrame::new(2, 1, vec![Rgb { r: 1, g: 2, b: 3 }, Rgb { r: 4, g: 5, b: 6 }]).unwrap()
}

fn polled(pointer: (i32, i32), keys: Vec<KeySymbol>) -> ClientEvent {
    ClientEvent::Polled { pointer, keys, left: false, middle: false, right: false }
}

fn server_in(phase: ServerPhase) -> ServerLoop {
    let (mut server, _) = ServerLoop::start();
    let path: Vec<ServerEvent> = match phase {
        ServerPhase::Idle => vec![],
        ServerPhase::Injecting => {
            vec![ServerEvent::BatchRead(serialize_batch(&[key_click(KeySymbol::A)]))]
        }
        ServerPhase::Capturing => vec![ServerEvent::ReadTimedOut],
        ServerPhase::Sending => {
            vec![ServerEvent::ReadTimedOut, ServerEvent::FrameCaptured(vec![1])]
        }
        ServerPhase::Resting => vec![ServerEvent::ReadTimedOut, ServerEvent::CaptureSkipped],
        ServerPhase::Closed => vec![ServerEvent::StreamFailed],
    };
    for event in path {
        server.step(event);
    }
    assert_eq!(server.phase(), phase);
    server
}

fn client_in(phase: ClientPhase) -> ClientLoop {
    let (mut client, _) = ClientLoop::start();
    let path: Vec<ClientEvent> = match phase {
        ClientPhase::Receiving => vec![],
        ClientPhase::Painting => vec![ClientEvent::FrameDecoded(small_frame())],
        ClientPhase::Polling => vec![ClientEvent::FrameCorrupt],
        ClientPhase::Sending => vec![ClientEvent::FrameCorrupt, polled((0, 0), vec![])],
        ClientPhase::Resting => {
            vec![ClientEvent::FrameCorrupt, polled((0, 0), vec![]), ClientEvent::BatchSent]
        }
        ClientPhase::Closed => vec![ClientEvent::ExitRequested],
    };
    for event in path {
        client.step(event);
    }
    assert_eq!(client.phase(), phase);
    client
}

#[test]
fn a_tick_is_twenty_milliseconds() {
    assert_eq!(TICK_MILLIS, 20);
}

#[test]
fn a_server_starts_by_reading() {
    let (server, action) = ServerLoop::start();
    assert_eq!(action, ServerAction::ReadBatch);
    assert_eq!(server.phase(), ServerPhase::Idle);
    assert!(!server.is_closed());
}

#[test]
fn a_quiet_server_tick() {
    let (mut server, _) = ServerLoop::start();
    assert_eq!(server.step(ServerEvent::ReadTimedOut), ServerAction::GrabFrame);
    assert_eq!(server.phase(), ServerPhase::Capturing);
    let action = server.step(ServerEvent::FrameCaptured(b"jpeg".to_vec()));
    assert_eq!(action, ServerAction::SendFrame(vec![0, 0, 0, 4, b'j', b'p', b'e', b'g']));
    assert_eq!(server.phase(), ServerPhase::Sending);
    assert_eq!(server.step(ServerEvent::FrameSent), ServerAction::Sleep);
    assert_eq!(server.phase(), ServerPhase::Resting);
    assert_eq!(server.step(ServerEvent::Slept), ServerAction::ReadBatch);
    assert_eq!(server.phase(), ServerPhase::Idle);
}

#[test]
fn a_server_tick_with_input() {
    let (mut server, _) = ServerLoop::start();
    let events = vec![
        DeviceInput::Mouse(MouseState::MouseMove((5, 5))),
        key_click(KeySymbol::A),
        DeviceInput::Mouse(MouseState::MouseClick(ButtonMouse::Left)),
    ];
    let action = server.step(ServerEvent::BatchRead(serialize_batch(&events)));
    assert_eq!(action, ServerAction::Inject(events));
    assert_eq!(server.phase(), ServerPhase::Injecting);
    assert_eq!(server.step(ServerEvent::Injected), ServerAction::GrabFrame);
    assert_eq!(server.phase(), ServerPhase::Capturing);
}

#[test]
fn the_sent_frame_is_the_framed_payload() {
    let compressed = small_frame().to_raw_compressed();
    let mut server = server_in(ServerPhase::Capturing);
    let action = server.step(ServerEvent::FrameCaptured(compressed.clone()));
    assert_eq!(action, ServerAction::SendFrame(frame_packet(&compressed).unwrap()));
}

#[test]
fn a_malformed_batch_is_dropped_and_the_tick_goes_on() {
    let (mut server, _) = ServerLoop::start();
    let bytes = br#"{"Keyboard":{"KeyClick":"A"}}|oops"#.to_vec();
    assert_eq!(server.step(ServerEvent::BatchRead(bytes)), ServerAction::GrabFrame);
    assert_eq!(server.phase(), ServerPhase::Capturing);
}

#[test]
fn an_empty_read_injects_nothing() {
    let (mut server, _) = ServerLoop::start();
    assert_eq!(server.step(ServerEvent::BatchRead(vec![])), ServerAction::GrabFrame);
    assert_eq!(server.phase(), ServerPhase::Capturing);
}

#[test]
fn a_skipped_capture_skips_the_send() {
    let mut server = server_in(ServerPhase::Capturing);
    assert_eq!(server.step(ServerEvent::CaptureSkipped), ServerAction::Sleep);
    assert_eq!(server.phase(), ServerPhase::Resting);
    assert_eq!(server.step(ServerEvent::Slept), ServerAction::ReadBatch);
}

#[test]
fn a_failed_capture_closes_the_server_loop() {
    let mut server = server_in(ServerPhase::Capturing);
    assert_eq!(server.step(ServerEvent::CaptureFailed), ServerAction::Close);
    assert!(server.is_closed());
}

#[test]
fn a_failed_stream_closes_the_server_loop_in_every_phase() {
    for phase in [
        ServerPhase::Idle,
        ServerPhase::Injecting,
        ServerPhase::Capturing,
        ServerPhase::Sending,
        ServerPhase::Resting,
        ServerPhase::Closed,
    ] {
        let mut server = server_in(phase);
        assert_eq!(server.step(ServerEvent::StreamFailed), ServerAction::Close);
        assert_eq!(server.phase(), ServerPhase::Closed);
    }
}

#[test]
fn a_closed_server_loop_stays_closed() {
    for event in [
        ServerEvent::ReadTimedOut,
        ServerEvent::BatchRead(vec![]),
        ServerEvent::Injected,
        ServerEvent::FrameCaptured(vec![1]),
        ServerEvent::CaptureSkipped,
        ServerEvent::CaptureFailed,
        ServerEvent::FrameSent,
        ServerEvent::Slept,
        ServerEvent::StreamFailed,
    ] {
        let mut server = server_in(ServerPhase::Closed);
        assert_eq!(server.step(event), ServerAction::Close);
        assert!(server.is_closed());
    }
}

#[test]
fn an_event_out_of_step_closes_the_server_loop() {
    let mut idle = server_in(ServerPhase::Idle);
    assert_eq!(idle.step(ServerEvent::FrameSent), ServerAction::Close);
    assert!(idle.is_closed());
    let mut sending = server_in(ServerPhase::Sending);
    assert_eq!(sending.step(ServerEvent::ReadTimedOut), ServerAction::Close);
    let mut resting = server_in(ServerPhase::Resting);
    assert_eq!(resting.step(ServerEvent::CaptureSkipped), ServerAction::Close);
    let mut injecting = server_in(ServerPhase::Injecting);
    assert_eq!(injecting.step(ServerEvent::Slept), ServerAction::Close);
}

#[test]
fn a_failure_of_one_connection_leaves_the_other_running() {
    let mut table = ServerTable::new();
    assert_eq!(table.len(), 0);
    let (a, first_a) = table.accept();
    let (b, first_b) = table.accept();
    assert_eq!((a, b), (0, 1));
    assert_eq!(first_a, ServerAction::ReadBatch);
    assert_eq!(first_b, ServerAction::ReadBatch);
    assert_eq!(table.len(), 2);

    assert_eq!(table.step(b, ServerEvent::ReadTimedOut), Some(ServerAction::GrabFrame));
    assert_eq!(table.step(a, ServerEvent::StreamFailed), Some(ServerAction::Close));
    assert_eq!(table.phase_of(a), Some(ServerPhase::Closed));
    assert_eq!(table.phase_of(b), Some(ServerPhase::Capturing));

    assert_eq!(
        table.step(b, ServerEvent::FrameCaptured(vec![7])),
        Some(ServerAction::SendFrame(vec![0, 0, 0, 1, 7]))
    );
    assert_eq!(table.step(b, ServerEvent::FrameSent), Some(ServerAction::Sleep));
    assert_eq!(table.step(b, ServerEvent::Slept), Some(ServerAction::ReadBatch));
    assert_eq!(table.phase_of(b), Some(ServerPhase::Idle));
    assert_eq!(table.step(a, ServerEvent::Slept), Some(ServerAction::Close));
    assert_eq!(table.phase_of(a), Some(ServerPhase::Closed));
    assert_eq!(table.phase_of(b), Some(ServerPhase::Idle));
}

#[test]
fn a_failed_capture_of_one_connection_leaves_the_other_running() {
    let mut table = ServerTable::new();
    let (a, _) = table.accept();
    let (b, _) = table.accept();
    table.step(a, ServerEvent::ReadTimedOut);
    table.step(b, ServerEvent::ReadTimedOut);
    assert_eq!(table.step(a, ServerEvent::CaptureFailed), Some(ServerAction::Close));
    assert_eq!(table.phase_of(a), Some(ServerPhase::Closed));
    assert_eq!(table.phase_of(b), Some(ServerPhase::Capturing));
    assert_eq!(table.step(b, ServerEvent::CaptureSkipped), Some(ServerAction::Sleep));
}

#[test]
fn a_connection_that_comes_later_starts_fresh() {
    let mut table = ServerTable::new();
    let (a, _) = table.accept();
    table.step(a, ServerEvent::StreamFailed);
    let (b, action) = table.accept();
    assert_eq!(b, 1);
    assert_eq!(action, ServerAction::ReadBatch);
    assert_eq!(table.phase_of(b), Some(ServerPhase::Idle));
    assert_eq!(table.phase_of(a), Some(ServerPhase::Closed));
}

#[test]
fn the_table_knows_no_connection_that_never_came() {
    let mut table = ServerTable::new();
    assert_eq!(table.phase_of(0), None);
    assert_eq!(table.step(0, ServerEvent::ReadTimedOut), None);
    let (a, _) = table.accept();
    assert_eq!(table.step(a + 1, ServerEvent::ReadTimedOut), None);
    assert_eq!(table.phase_of(a), Some(ServerPhase::Idle));
}

#[test]
fn a_client_starts_by_receiving() {
    let (client, action) = ClientLoop::start();
    assert_eq!(action, ClientAction::ReceiveFrame);
    assert_eq!(client.phase(), ClientPhase::Receiving);
    assert!(!client.is_closed());
}

#[test]
fn a_client_tick() {
    let (mut client, _) = ClientLoop::start();
    let compressed = small_frame().to_raw_compressed();
    let action = client.step(ClientEvent::FrameReceived(compressed));
    assert_eq!(
        action,
        ClientAction::Paint { words: vec![0x0102_0300, 0x0405_0600], width: 2, height: 1 }
    );
    assert_eq!(client.phase(), ClientPhase::Painting);
    assert_eq!(client.step(ClientEvent::Painted), ClientAction::Poll);
    assert_eq!(client.phase(), ClientPhase::Polling);
    let action = client.step(polled((5, 5), vec![KeySymbol::A]));
    assert_eq!(
        action,
        ClientAction::SendBatch(
            br#"{"Mouse":{"MouseMove":[5,5]}}|{"Keyboard":{"KeyClick":"A"}}"#.to_vec()
        )
    );
    assert_eq!(client.phase(), ClientPhase::Sending);
    assert_eq!(client.step(ClientEvent::BatchSent), ClientAction::Sleep);
    assert_eq!(client.phase(), ClientPhase::Resting);
    assert_eq!(client.step(ClientEvent::Slept), ClientAction::ReceiveFrame);
    assert_eq!(client.phase(), ClientPhase::Receiving);
}

#[test]
fn the_client_remembers_the_pointer_between_ticks() {
    let (mut client, _) = ClientLoop::start();
    let mut batches = Vec::new();
    for pointer in [(3, 4), (3, 4), (3, 5)] {
        client.step(ClientEvent::FrameCorrupt);
        match client.step(polled(pointer, vec![])) {
            ClientAction::SendBatch(bytes) => batches.push(bytes),
            other => panic!("{:?}", other),
        }
        client.step(ClientEvent::BatchSent);
        client.step(ClientEvent::Slept);
    }
    assert_eq!(batches[0], br#"{"Mouse":{"MouseMove":[3,4]}}"#.to_vec());
    assert_eq!(batches[1], Vec::<u8>::new());
    assert_eq!(batches[2], br#"{"Mouse":{"MouseMove":[3,5]}}"#.to_vec());
}

#[test]
fn the_held_button_is_clicked_by_priority() {
    let mut client = client_in(ClientPhase::Polling);
    let action = client.step(ClientEvent::Polled {
        pointer: (0, 0),
        keys: vec![],
        left: false,
        middle: true,
        right: true,
    });
    assert_eq!(
        action,
        ClientAction::SendBatch(br#"{"Mouse":{"MouseClick":"Middle"}}"#.to_vec())
    );
}

#[test]
fn a_corrupt_frame_is_not_painted_and_the_tick_goes_on() {
    let (mut client, _) = ClientLoop::start();
    assert_eq!(client.step(ClientEvent::FrameReceived(b"garbage".to_vec())), ClientAction::Poll);
    assert_eq!(client.phase(), ClientPhase::Polling);
    let (mut other, _) = ClientLoop::start();
    assert_eq!(other.step(ClientEvent::FrameCorrupt), ClientAction::Poll);
    assert_eq!(other.phase(), ClientPhase::Polling);
}

#[test]
fn a_frame_decoded_outside_is_painted() {
    let (mut client, _) = ClientLoop::start();
    let action = client.step(ClientEvent::FrameDecoded(small_frame()));
    assert_eq!(
        action,
        ClientAction::Paint { words: vec![0x0102_0300, 0x0405_0600], width: 2, height: 1 }
    );
}

#[test]
fn exit_and_stream_failure_close_the_client_in_every_phase() {
    for phase in [
        ClientPhase::Receiving,
        ClientPhase::Painting,
        ClientPhase::Polling,
        ClientPhase::Sending,
        ClientPhase::Resting,
        ClientPhase::Closed,
    ] {
        let mut leaving = client_in(phase);
        assert_eq!(leaving.step(ClientEvent::ExitRequested), ClientAction::Close);
        assert!(leaving.is_closed());
        let mut failing = client_in(phase);
        assert_eq!(failing.step(ClientEvent::StreamFailed), ClientAction::Close);
        assert!(failing.is_closed());
    }
}

#[test]
fn a_closed_client_stays_closed() {
    let mut client = client_in(ClientPhase::Closed);
    assert_eq!(client.step(ClientEvent::Slept), ClientAction::Close);
    assert_eq!(client.step(polled((1, 1), vec![])), ClientAction::Close);
    assert_eq!(client.step(ClientEvent::FrameDecoded(small_frame())), ClientAction::Close);
    assert!(client.is_closed());
}

#[test]
fn an_event_out_of_step_closes_the_client() {
    let mut receiving = client_in(ClientPhase::Receiving);
    assert_eq!(receiving.step(ClientEvent::Painted), ClientAction::Close);
    let mut painting = client_in(ClientPhase::Painting);
    assert_eq!(painting.step(ClientEvent::BatchSent), ClientAction::Close);
    let mut polling = client_in(ClientPhase::Polling);
    assert_eq!(polling.step(ClientEvent::FrameCorrupt), ClientAction::Close);
    let mut sending = client_in(ClientPhase::Sending);
    assert_eq!(sending.step(ClientEvent::Slept), ClientAction::Close);
}
