use servo_link::frame::{decode_frame, FrameError, FrameReader};

fn feed(reader: &mut FrameReader, bytes: &[u8]) -> Vec<Vec<u8>> {
    let mut frames = Vec::new();
    for b in bytes {
        if let Some(f) = reader.on_byte(*b) {
            frames.push(f);
        }
    }
    frames
}

#[test]
fn decode_frame_restores_zeros() {
    assert_eq!(decode_frame(vec![0x03, 0x11, 0x22, 0x02, 0x33]), Ok(vec![0x11, 0x22, 0x00, 0x33]));
}

#[test]
fn decode_frame_of_single_zero() {
    assert_eq!(decode_frame(vec![0x01, 0x01]), Ok(vec![0x00]));
}

#[test]
fn decode_frame_rejects_empty_frame() {
    assert_eq!(decode_frame(vec![]), Err(FrameError::InvalidEncoding));
}

#[test]
fn decode_frame_rejects_truncated_run() {
    assert_eq!(decode_frame(vec![0x05, 0x11]), Err(FrameError::InvalidEncoding));
}

#[test]
fn reader_yields_decoded_frame_at_delimiter() {
    let mut r = FrameReader::new();
    let frames = feed(&mut r, &[0x03, 0x11, 0x22, 0x02, 0x33, 0x00]);
    assert_eq!(frames, vec![vec![0x11, 0x22, 0x00, 0x33]]);
    assert!(r.pending().is_empty());
}

#[test]
fn reader_yields_consecutive_frames() {
    let mut r = FrameReader::new();
    let frames = feed(&mut r, &[0x02, 0x41, 0x00, 0x03, 0x42, 0x43, 0x00]);
    assert_eq!(frames, vec![vec![0x41], vec![0x42, 0x43]]);
}

#[test]
fn reader_keeps_undecodable_frame() {
    let mut r = FrameReader::new();
    let frames = feed(&mut r, &[0x05, 0x11, 0x00]);
    assert!(frames.is_empty());
    assert_eq!(r.pending(), vec![0x05, 0x11]);
}

#[test]
fn reader_ignores_delimiter_with_nothing_gathered() {
    let mut r = FrameReader::new();
    assert_eq!(r.on_byte(0x00), None);
    assert!(r.pending().is_empty());
}

#[test]
fn reader_gathers_up_to_capacity() {
    let mut r = FrameReader::new();
    let run = vec![0x07u8; 256];
    assert!(feed(&mut r, &run).is_empty());
    assert_eq!(r.pending(), run);
}

#[test]
fn overlong_frame_is_dropped() {
    let mut r = FrameReader::new();
    assert!(feed(&mut r, &vec![0x07u8; 257]).is_empty());
    assert!(r.pending().is_empty());
    assert!(feed(&mut r, &[0x09]).is_empty());
    assert_eq!(r.pending(), vec![0x09]);
}

#[test]
fn read_error_drops_frame_in_progress() {
    let mut r = FrameReader::new();
    feed(&mut r, &[0x03, 0x11]);
    r.on_read_error();
    assert!(r.pending().is_empty());
    let frames = feed(&mut r, &[0x02, 0x41, 0x00]);
    assert_eq!(frames, vec![vec![0x41]]);
}

#[test]
fn empty_frames_are_ignored_before_a_valid_frame() {
    let mut r = FrameReader::new();
    let frames = feed(&mut r, &[0x00, 0x00, 0x02, 0x41, 0x00]);
    assert_eq!(frames, vec![vec![0x41]]);
    assert!(r.pending().is_empty());
}
