use remote_desktop::capture::{DisplayFrame, InputFrame, OutputFrame, SourceType};
use remote_desktop::codec::{has_signature, PREAMBLE_LEN};
use remote_desktop::error::ProtocolError;
use remote_desktop::pixel::{pack_pixel, PixelFrame, Rgb};
use remote_desktop::transport::{frame_packet, FrameReader};

fn rgb(r: u8, g: u8, b: u8) -> Rgb {
    Rgb { r, g, b }
}

fn gradient(width: u32, height: u32) -> PixelFrame {
    let mut pixels = Vec::new();
    for y in 0..height {
        for x in 0..width {
            pixels.push(rgb((x * 7 + y) as u8, (y * 13 + 1) as u8, (x * y + 255) as u8));
        }
    }
    PixelFrame::new(width, height, pixels).unwrap()
}

#[test]
fn screen_is_the_default_source() {
    assert_eq!(SourceType::default(), SourceType::Screen);
    assert_ne!(SourceType::default(), SourceType::Camera);
}

#[test]
fn a_frame_needs_one_pixel_for_every_place() {
    assert!(PixelFrame::new(2, 2, vec![rgb(0, 0, 0); 4]).is_some());
    assert!(PixelFrame::new(2, 2, vec![rgb(0, 0, 0); 3]).is_none());
    assert!(PixelFrame::new(2, 2, vec![rgb(0, 0, 0); 5]).is_none());
    assert!(PixelFrame::new(0, 0, vec![]).is_some());
    assert!(PixelFrame::new(0, 5, vec![]).is_some());
    assert!(PixelFrame::new(u32::MAX, 0, vec![]).is_some());
    assert!(PixelFrame::new(u32::MAX, u32::MAX, vec![]).is_none());
    assert!(PixelFrame::new(0, 0, vec![rgb(1, 2, 3)]).is_none());
}

#[test]
fn pixels_stand_row_by_row() {
    let frame = PixelFrame::new(
        3,
        2,
        vec![rgb(0, 0, 0), rgb(1, 0, 0), rgb(2, 0, 0), rgb(0, 1, 0), rgb(1, 1, 0), rgb(2, 1, 0)],
    )
    .unwrap();
    assert_eq!(PixelFrame::width(&frame), 3);
    assert_eq!(PixelFrame::height(&frame), 2);
    for y in 0..2u32 {
        for x in 0..3u32 {
            assert_eq!(frame.pixel(x, y), Some(rgb(x as u8, y as u8, 0)));
        }
    }
    assert_eq!(frame.pixel(3, 0), None);
    assert_eq!(frame.pixel(0, 2), None);
    assert_eq!(frame.pixel(u32::MAX, u32::MAX), None);
    assert_eq!(frame.pixels().len(), 6);
}

#[test]
fn display_word_has_red_on_top() {
    assert_eq!(pack_pixel(rgb(0x12, 0x34, 0x56)), 0x1234_5600);
    assert_eq!(pack_pixel(rgb(10, 20, 30)), u32::from_be_bytes([10, 20, 30, 0]));
    assert_eq!(pack_pixel(rgb(0, 0, 0)), 0);
    assert_eq!(pack_pixel(rgb(255, 255, 255)), 0xffff_ff00);
    assert_eq!(pack_pixel(rgb(255, 0, 0)), 0xff00_0000);
    assert_eq!(pack_pixel(rgb(0, 0, 1)), 0x100);
}

#[test]
fn display_buffer_goes_row_by_row() {
    let frame = PixelFrame::new(
        2,
        3,
        vec![rgb(1, 0, 0), rgb(2, 0, 0), rgb(3, 0, 0), rgb(4, 0, 0), rgb(5, 0, 0), rgb(6, 0, 0)],
    )
    .unwrap();
    let expected: Vec<u32> = (1..=6u32).map(|r| r << 24).collect();
    assert_eq!(frame.to_display_buffer(), expected);
    let mut appended = vec![9u32];
    DisplayFrame::u32frame(&frame, &mut appended);
    assert_eq!(appended[0], 9);
    assert_eq!(&appended[1..], &expected[..]);
}

#[test]
fn raw_bytes_are_blue_green_red() {
    let frame = PixelFrame::new(2, 1, vec![rgb(1, 2, 3), rgb(4, 5, 6)]).unwrap();
    assert_eq!(InputFrame::to_raw(&frame), vec![3, 2, 1, 6, 5, 4]);
    let back = PixelFrame::from_flat(2, 1, &[3, 2, 1, 6, 5, 4], true).unwrap();
    assert_eq!(back, frame);
    let other = PixelFrame::from_flat(2, 1, &[1, 2, 3, 4, 5, 6], false).unwrap();
    assert_eq!(other, frame);
    assert!(PixelFrame::from_flat(2, 1, &[1, 2, 3, 4, 5], false).is_none());
    assert!(PixelFrame::from_flat(2, 1, &[1, 2, 3], false).is_none());
    assert!(PixelFrame::from_flat(1, 2, &[1, 2, 3, 4, 5, 6], false).is_some());
}

#[test]
fn encoded_bytes_are_exact() {
    let frame = PixelFrame::new(1, 2, vec![rgb(1, 2, 3), rgb(4, 5, 6)]).unwrap();
    let mut expected = b"RDF1".to_vec();
    expected.extend_from_slice(&[0, 0, 0, 1, 0, 0, 0, 2, 1, 2, 3, 4, 5, 6]);
    assert_eq!(InputFrame::to_raw_compressed(&frame), expected);
    assert_eq!(PREAMBLE_LEN, 12);
    let wide = gradient(300, 1);
    let bytes = InputFrame::to_raw_compressed(&wide);
    assert_eq!(&bytes[4..12], &[0, 0, 1, 44, 0, 0, 0, 1]);
    assert_eq!(bytes.len(), 12 + 900);
}

#[test]
fn encoding_is_the_same_every_time() {
    let frame = gradient(17, 9);
    assert_eq!(frame.to_raw_compressed(), frame.to_raw_compressed());
}

#[test]
fn frames_come_back_from_their_bytes() {
    for (w, h) in [(0u32, 0u32), (0, 3), (3, 0), (1, 1), (4, 4), (7, 3), (3, 7), (64, 48), (257, 2)] {
        let frame = gradient(w, h);
        let back = PixelFrame::from_raw_compressed(&frame.to_raw_compressed()).unwrap();
        assert_eq!(OutputFrame::width(&back), w);
        assert_eq!(OutputFrame::height(&back), h);
        assert_eq!(back.pixels(), frame.pixels());
        assert_eq!(back, frame);
    }
}

#[test]
fn from_raw_is_from_raw_compressed() {
    let frame = gradient(5, 4);
    let bytes = frame.to_raw_compressed();
    let a: Result<PixelFrame, ProtocolError> = OutputFrame::from_raw(&bytes);
    let b: Result<PixelFrame, ProtocolError> = OutputFrame::from_raw_compressed(&bytes);
    assert_eq!(a, b);
    assert_eq!(a.unwrap(), frame);
    let bad: Result<PixelFrame, ProtocolError> = OutputFrame::from_raw(b"nothing");
    assert_eq!(bad, Err(ProtocolError::CorruptFrame));
}

#[test]
fn malformed_bytes_are_a_corrupt_frame() {
    let good = gradient(2, 2).to_raw_compressed();
    assert!(PixelFrame::from_raw_compressed(&good).is_ok());
    let mut cases: Vec<Vec<u8>> = vec![
        vec![],
        b"RDF1".to_vec(),
        b"RDF".to_vec(),
        good[..good.len() - 1].to_vec(),
        good[..12].to_vec(),
        good[..11].to_vec(),
        vec![0xff, 0xd8, 0xff, 0xe0, 0, 16, b'J', b'F', b'I', b'F', 0, 1, 1],
    ];
    let mut longer = good.clone();
    longer.push(0);
    cases.push(longer);
    let mut three_more = good.clone();
    three_more.extend_from_slice(&[0, 0, 0]);
    cases.push(three_more);
    let mut wrong_signature = good.clone();
    wrong_signature[3] = b'2';
    cases.push(wrong_signature);
    let mut wrong_width = good.clone();
    wrong_width[7] = 3;
    cases.push(wrong_width);
    let mut huge = good.clone();
    huge[4..12].copy_from_slice(&[0xff; 8]);
    cases.push(huge);
    for bytes in cases {
        assert_eq!(PixelFrame::from_raw_compressed(&bytes), Err(ProtocolError::CorruptFrame));
    }
}

#[test]
fn a_frame_of_another_shape_with_the_same_pixels_is_another_frame() {
    let tall = PixelFrame::new(1, 4, vec![rgb(1, 1, 1); 4]).unwrap();
    let wide = PixelFrame::new(4, 1, vec![rgb(1, 1, 1); 4]).unwrap();
    assert_ne!(tall.to_raw_compressed(), wide.to_raw_compressed());
    assert_eq!(PixelFrame::from_raw_compressed(&tall.to_raw_compressed()).unwrap(), tall);
    assert_eq!(PixelFrame::from_raw_compressed(&wide.to_raw_compressed()).unwrap(), wide);
}

#[test]
fn signature_tells_the_lossless_format() {
    assert!(has_signature(&gradient(1, 1).to_raw_compressed()));
    assert!(has_signature(b"RDF1"));
    assert!(!has_signature(b"RDF"));
    assert!(!has_signature(b""));
    assert!(!has_signature(&[0xff, 0xd8, 0xff, 0xe0]));
    assert!(!has_signature(&[0x89, b'P', b'N', b'G']));
}

#[test]
fn full_exchange_scenario() {
    let captured = PixelFrame::new(4, 4, vec![rgb(10, 20, 30); 16]).unwrap();
    let compressed = captured.to_raw_compressed();
    let packet = frame_packet(&compressed).unwrap();

    let mut reader = FrameReader::new();
    let mut at = 0;
    for size in [1usize, 2, 3, 5, 8, 13, 21, 34] {
        if at == packet.len() {
            break;
        }
        let end = (at + size).min(packet.len());
        at += reader.push(&packet[at..end]);
    }
    assert_eq!(at, packet.len());
    let received = reader.finish().unwrap();
    assert_eq!(received, compressed);

    let frame = PixelFrame::from_raw_compressed(&received).unwrap();
    assert_eq!(PixelFrame::width(&frame), 4);
    assert_eq!(PixelFrame::height(&frame), 4);
    assert_eq!(frame.pixels(), &[rgb(10, 20, 30); 16][..]);
    assert_eq!(frame, captured);
    assert_eq!(frame.to_display_buffer(), vec![0x0a14_1e00u32; 16]);
}
