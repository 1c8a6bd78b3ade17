use genesis::frame::{Frame, FrameError, FrameReader, FRAME_MIN_SIZE};

/// The bytes of a frame: request, normal role, payload flag as given, task
/// SyncChain, code 1, seq 7, key 0..32, ext1 9, ext2 10.
fn frame_bytes(payload: Option<&[u8]>) -> Vec<u8> {
    let flag: u32 = if payload.is_some() { 1 } else { 0 };
    let word: u32 = (0 << 21) | (1 << 17) | (flag << 16) | (1 << 9) | 1;
    let mut v = word.to_be_bytes().to_vec();
    v.extend_from_slice(&7u32.to_be_bytes());
    v.extend((0..32u8).collect::<Vec<u8>>());
    v.extend_from_slice(&9u32.to_be_bytes());
    v.extend_from_slice(&10u32.to_be_bytes());
    if let Some(p) = payload {
        v.extend_from_slice(&(p.len() as u64).to_be_bytes());
        v.extend_from_slice(p);
    }
    v.resize(v.len() + FRAME_MIN_SIZE - 48, 0);
    v.extend_from_slice(&[0xff, 0xff, 0xff, 0xff]);
    v
}

#[test]
fn frame_parse_and_serialize_round_trip() {
    let bytes = frame_bytes(None);
    assert_eq!(bytes.len(), 392);
    let frame = Frame::new(&bytes).unwrap();
    assert_eq!(frame.serialize_frame(), bytes);

    let payload = [0xc3u8, 0x01, 0x02, 0x03];
    let bytes = frame_bytes(Some(&payload));
    assert_eq!(bytes.len(), 392 + 8 + 4);
    let frame = Frame::new(&bytes).unwrap();
    assert_eq!(frame.serialize_frame(), bytes);
}

#[test]
fn frame_rejects_bad_fields() {
    // too short
    assert!(Frame::new(&vec![0u8; FRAME_MIN_SIZE - 1]).is_none());
    // nonzero prefix
    let mut bytes = frame_bytes(None);
    bytes[0] = 0x80;
    assert!(Frame::new(&bytes).is_none());
    // unknown frame type 3
    let mut bytes = frame_bytes(None);
    bytes[1] = (bytes[1] & 0x1f) | 0x60;
    assert!(Frame::new(&bytes).is_none());
    // payload announced but missing
    let mut bytes = frame_bytes(None);
    bytes[1] |= 0x01;
    bytes[48..56].copy_from_slice(&1000u64.to_be_bytes());
    assert!(Frame::new(&bytes).is_none());
}

#[test]
fn reader_hands_out_written_frames() {
    let mut reader = FrameReader::new();
    assert!(matches!(reader.read_one_frame(), Err(FrameError::NotReady)));
    let bytes = frame_bytes(Some(&[1, 2, 3]));
    let frame = Frame::new(&bytes).unwrap();
    assert_eq!(reader.write_one_frame(&frame), Ok(bytes.len()));
    let back = reader.read_one_frame().unwrap();
    assert_eq!(back.serialize_frame(), bytes);
    assert!(matches!(reader.read_one_frame(), Err(FrameError::NotReady)));
}

#[test]
fn reader_collects_appended_data() {
    let mut reader = FrameReader::new();
    let bytes = frame_bytes(None);
    assert_eq!(reader.append_data(&bytes[..100].to_vec()), Ok(100));
    assert!(matches!(reader.read_one_frame(), Err(FrameError::NotReady)));
    assert_eq!(reader.append_data(&bytes[100..].to_vec()), Ok(bytes.len() - 100));
    let frame = reader.read_one_frame().unwrap();
    assert_eq!(frame.serialize_frame(), bytes);
}

#[test]
fn reader_refuses_malformed_and_oversized_frames() {
    let mut reader = FrameReader::new();
    // a short frame: stuffing after 8 bytes
    let mut junk = vec![0u8; 8];
    junk.extend_from_slice(&[0xff, 0xff, 0xff, 0xff]);
    reader.append_data(&junk).unwrap();
    assert!(matches!(reader.read_one_frame(), Err(FrameError::Malformed)));
    // an oversized frame is dropped
    let mut big = vec![0u8; 20000];
    big.extend_from_slice(&[0xff, 0xff, 0xff, 0xff]);
    reader.append_data(&big).unwrap();
    assert!(matches!(reader.read_one_frame(), Err(FrameError::OverMaxSize)));
    assert!(matches!(reader.read_one_frame(), Err(FrameError::NotReady)));
    // flush drops pending data
    reader.append_data(&vec![1, 2, 3]).unwrap();
    reader.flush();
    assert!(matches!(reader.read_one_frame(), Err(FrameError::NotReady)));
}

#[test]
fn reader_wraps_around_the_window() {
    let mut reader = FrameReader::new();
    let bytes = frame_bytes(Some(&[9u8; 1000]));
    let frame = Frame::new(&bytes).unwrap();
    let mut written = 0usize;
    // enough rounds to pass the end of the window several times
    for _ in 0..40000 {
        reader.write_one_frame(&frame).unwrap();
        let back = reader.read_one_frame().unwrap();
        written += bytes.len();
        assert_eq!(back.serialize_frame().len(), bytes.len());
    }
    assert!(written > 2 * genesis::frame::WINDOW_SIZE);
}

#[test]
fn reader_refuses_data_beyond_the_window() {
    let mut reader = FrameReader::new();
    let chunk = vec![0u8; 1 << 20];
    for _ in 0..15 {
        reader.append_data(&chunk).unwrap();
    }
    assert_eq!(reader.append_data(&chunk), Err(FrameError::WindowFull));
}
