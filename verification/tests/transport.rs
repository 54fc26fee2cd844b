use remote_desktop::error::ProtocolError;
use remote_desktop::transport::{
    frame_packet, read_frame, FrameReader, FrameWriter, HEADER_LEN, MAX_PAYLOAD_LEN,
};

fn payload(n: usize) -> Vec<u8> {
    (0..n).map(|i| (i * 31 + 7) as u8).collect()
}

fn receive_in_chunks(stream: &[u8], sizes: &[usize]) -> (FrameReader, usize) {
    let mut reader = FrameReader::new();
    let mut at = 0;
    let mut turn = 0;
    while at < stream.len() && !reader.is_complete() {
        let size = sizes[turn % sizes.len()].min(stream.len() - at);
        let taken = reader.push(&stream[at..at + size]);
        assert!(taken <= size);
        assert!(taken == size || reader.is_complete());
        at += taken;
        turn += 1;
    }
    (reader, at)
}

#[test]
fn the_limits_are_those_of_four_bytes() {
    assert_eq!(HEADER_LEN, 4);
    assert_eq!(MAX_PAYLOAD_LEN, u32::MAX as u64);
}

#[test]
fn length_comes_first_most_significant_byte_first() {
    assert_eq!(frame_packet(b""), Ok(vec![0, 0, 0, 0]));
    assert_eq!(frame_packet(b"abc"), Ok(vec![0, 0, 0, 3, b'a', b'b', b'c']));
    let packet = frame_packet(&payload(0x0102_03)).unwrap();
    assert_eq!(&packet[..4], &[0x00, 0x01, 0x02, 0x03]);
    assert_eq!(packet.len(), 4 + 0x0102_03);
    assert_eq!(&packet[4..], &payload(0x0102_03)[..]);
}

#[test]
fn length_field_is_what_std_writes_big_endian() {
    for n in [0usize, 1, 255, 256, 257, 65535, 65536, 70000] {
        let packet = frame_packet(&payload(n)).unwrap();
        assert_eq!(&packet[..4], &(n as u32).to_be_bytes());
    }
}

#[test]
fn a_frame_comes_back_one_byte_at_a_time() {
    for n in [0usize, 1, 2, 3, 4, 5, 255, 256, 1000] {
        let sent = payload(n);
        let packet = frame_packet(&sent).unwrap();
        let (reader, used) = receive_in_chunks(&packet, &[1]);
        assert_eq!(used, packet.len());
        assert!(reader.is_complete());
        assert_eq!(reader.wanted(), 0);
        assert_eq!(reader.finish(), Ok(sent));
    }
}

#[test]
fn a_frame_comes_back_in_chunks_of_any_size() {
    let sent = payload(5000);
    let packet = frame_packet(&sent).unwrap();
    for sizes in [
        &[1usize][..],
        &[2][..],
        &[3][..],
        &[4][..],
        &[5][..],
        &[7, 1, 1, 900][..],
        &[4, 5000][..],
        &[3, 1, 2500, 2500][..],
        &[100000][..],
    ] {
        let (reader, used) = receive_in_chunks(&packet, sizes);
        assert_eq!(used, packet.len());
        assert_eq!(reader.finish(), Ok(sent.clone()));
    }
}

#[test]
fn the_reader_takes_nothing_beyond_the_frame() {
    let first = payload(10);
    let second = payload(3);
    let mut stream = frame_packet(&first).unwrap();
    stream.extend_from_slice(&frame_packet(&second).unwrap());
    let mut reader = FrameReader::new();
    let taken = reader.push(&stream);
    assert_eq!(taken, 14);
    assert!(reader.is_complete());
    assert_eq!(reader.push(&stream[taken..]), 0);
    assert_eq!(reader.finish(), Ok(first));
    let mut next = FrameReader::new();
    assert_eq!(next.push(&stream[taken..]), 7);
    assert_eq!(next.finish(), Ok(second));
}

#[test]
fn two_frames_come_back_from_one_stream_in_odd_chunks() {
    let first = payload(300);
    let second = payload(7);
    let mut stream = frame_packet(&first).unwrap();
    stream.extend_from_slice(&frame_packet(&second).unwrap());
    let (reader, used) = receive_in_chunks(&stream, &[3, 5, 11]);
    assert_eq!(used, 304);
    assert_eq!(reader.finish(), Ok(first));
    let (reader, used_more) = receive_in_chunks(&stream[used..], &[2]);
    assert_eq!(used_more, 11);
    assert_eq!(reader.finish(), Ok(second));
}

#[test]
fn wanted_counts_down() {
    let packet = frame_packet(b"hello").unwrap();
    let mut reader = FrameReader::new();
    assert_eq!(reader.wanted(), 4);
    assert!(!reader.is_complete());
    assert_eq!(reader.push(&packet[..1]), 1);
    assert_eq!(reader.wanted(), 3);
    assert_eq!(reader.push(&packet[1..4]), 3);
    assert_eq!(reader.wanted(), 5);
    assert_eq!(reader.push(&packet[4..6]), 2);
    assert_eq!(reader.wanted(), 3);
    assert_eq!(reader.push(&packet[6..]), 3);
    assert_eq!(reader.wanted(), 0);
    assert!(reader.is_complete());
}

#[test]
fn an_empty_chunk_changes_nothing() {
    let mut reader = FrameReader::new();
    assert_eq!(reader.push(b""), 0);
    assert_eq!(reader.wanted(), 4);
}

#[test]
fn a_stream_that_closes_early_is_an_incomplete_frame() {
    let packet = frame_packet(&payload(20)).unwrap();
    for cut in [0usize, 1, 3, 4, 5, 23] {
        let mut reader = FrameReader::new();
        assert_eq!(reader.push(&packet[..cut]), cut);
        assert_eq!(reader.finish(), Err(ProtocolError::IncompleteFrame));
    }
}

#[test]
fn read_frame_takes_the_first_frame() {
    let mut stream = frame_packet(b"abc").unwrap();
    stream.extend_from_slice(b"rest");
    assert_eq!(read_frame(&stream), Ok((b"abc".to_vec(), 7)));
    assert_eq!(read_frame(&[0, 0, 0, 0]), Ok((vec![], 4)));
    assert_eq!(read_frame(&stream[..6]), Err(ProtocolError::IncompleteFrame));
    assert_eq!(read_frame(b""), Err(ProtocolError::IncompleteFrame));
    assert_eq!(read_frame(&[0xff, 0xff, 0xff, 0xff, 1, 2]), Err(ProtocolError::IncompleteFrame));
}

#[test]
fn a_writer_goes_on_after_partial_writes() {
    let sent = payload(10);
    let packet = frame_packet(&sent).unwrap();
    let mut writer = FrameWriter::new(&sent).unwrap();
    let mut wire: Vec<u8> = Vec::new();
    assert!(!writer.is_done());
    assert_eq!(writer.pending(), &packet[..]);
    for step in [1usize, 0, 3, 2, 100] {
        let pending = writer.pending().to_vec();
        let written = step.min(pending.len());
        wire.extend_from_slice(&pending[..written]);
        writer.advance(step);
    }
    assert!(writer.is_done());
    assert!(writer.pending().is_empty());
    assert_eq!(wire, packet);
    writer.advance(5);
    assert!(writer.is_done());
}

#[test]
fn a_writer_of_an_empty_payload_still_sends_the_length() {
    let mut writer = FrameWriter::new(b"").unwrap();
    assert_eq!(writer.pending(), &[0, 0, 0, 0]);
    writer.advance(4);
    assert!(writer.is_done());
}

#[test]
fn a_writer_takes_bytes_that_are_framed_already() {
    let packet = frame_packet(b"xyz").unwrap();
    let mut writer = FrameWriter::from_packet(packet.clone());
    assert_eq!(writer.pending(), &packet[..]);
    writer.advance(2);
    assert_eq!(writer.pending(), &packet[2..]);
    writer.advance(usize::MAX);
    assert!(writer.is_done());
    let mut nothing = FrameWriter::from_packet(Vec::new());
    assert!(nothing.is_done());
    nothing.advance(1);
    assert!(nothing.is_done());
}
