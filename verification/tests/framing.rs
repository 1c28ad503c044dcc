use fakevpn::framing::{
    encode_frame, frame_len_from_header, on_tap_read, FrameReassembler, TapReadAction, HEADER_LEN,
    MAX_FRAME,
};

fn send(frame: &[u8]) -> Vec<u8> {
    match on_tap_read(frame) {
        TapReadAction::Send(bytes) => bytes,
        TapReadAction::DeviceClosed => panic!("a non-empty read must be sent"),
    }
}

fn reassemble_in_chunks(stream: &[u8], chunk: usize) -> (Vec<Vec<u8>>, bool) {
    let mut r = FrameReassembler::new();
    let mut frames = Vec::new();
    let mut stopped = false;
    for piece in stream.chunks(chunk) {
        let out = r.push(piece);
        frames.extend(out.frames);
        stopped = out.stopped;
    }
    (frames, stopped)
}

#[test]
fn framing_reassembles_frames_exactly() {
    let frames: Vec<Vec<u8>> = vec![
        vec![0u8; 1],
        (0..).map(|i| (i & 0xff) as u8).take(1518).collect(),
        b"hello tapper".to_vec(),
        b"second-in-a-row".to_vec(),
        (0..).map(|i| (i & 0xff) as u8).take(900).collect(),
    ];
    let mut stream = Vec::new();
    for f in &frames {
        stream.extend(send(f));
    }
    for chunk in [1usize, 2, 3, 5, 7, 20, 1000, 4096, stream.len()] {
        let (got, stopped) = reassemble_in_chunks(&stream, chunk);
        assert!(!stopped);
        assert_eq!(got, frames, "tunnel did not reassemble frames byte-identically");
        let expected: Vec<u8> = frames.concat();
        assert_eq!(got.concat(), expected);
    }
}

#[test]
fn encode_frame_prefixes_big_endian_length() {
    assert_eq!(encode_frame(&[1, 2, 3]), vec![0, 0, 0, 3, 1, 2, 3]);
    let big = vec![9u8; 1518];
    let e = encode_frame(&big);
    assert_eq!(e.len(), 1518 + HEADER_LEN);
    assert_eq!(&e[..4], &[0, 0, 0x05, 0xee]);
    assert_eq!(&e[4..], &big[..]);
    let max = vec![1u8; MAX_FRAME];
    assert_eq!(&encode_frame(&max)[..4], &[0, 0, 0x08, 0x00]);
    assert_eq!(encode_frame(&[]), vec![0, 0, 0, 0]);
}

#[test]
fn header_lengths_that_a_frame_may_have() {
    assert_eq!(frame_len_from_header(&[0, 0, 0, 0]), None);
    assert_eq!(frame_len_from_header(&[0, 0, 0, 1]), Some(1));
    assert_eq!(frame_len_from_header(&[0, 0, 5, 44]), Some(1324));
    assert_eq!(frame_len_from_header(&[0, 0, 8, 0]), Some(2048));
    assert_eq!(frame_len_from_header(&[0, 0, 8, 1]), None);
    assert_eq!(frame_len_from_header(&[1, 0, 0, 1]), None);
    assert_eq!(frame_len_from_header(&[255, 255, 255, 255]), None);
}

#[test]
fn empty_tap_read_closes_the_sending_side() {
    assert!(matches!(on_tap_read(&[]), TapReadAction::DeviceClosed));
    assert_eq!(send(b"abc"), vec![0, 0, 0, 3, b'a', b'b', b'c']);
}

#[test]
fn zero_length_header_stops_the_stream() {
    let mut stream = send(b"first");
    stream.extend([0u8, 0, 0, 0]);
    stream.extend(send(b"never delivered"));
    let mut r = FrameReassembler::new();
    let out = r.push(&stream);
    assert_eq!(out.frames, vec![b"first".to_vec()]);
    assert!(out.stopped);
    assert!(r.stopped());
    let later = r.push(&send(b"after the stop"));
    assert!(later.frames.is_empty());
    assert!(later.stopped);
}

#[test]
fn oversized_header_stops_the_stream() {
    let mut r = FrameReassembler::new();
    let out = r.push(&[0, 0, 8, 1, 1, 2, 3]);
    assert!(out.frames.is_empty());
    assert!(out.stopped);
}

#[test]
fn partial_frames_wait_for_their_rest() {
    let stream = send(b"split me");
    let mut r = FrameReassembler::new();
    let a = r.push(&stream[..2]);
    assert!(a.frames.is_empty() && !a.stopped);
    let b = r.push(&stream[2..6]);
    assert!(b.frames.is_empty() && !b.stopped);
    let c = r.push(&stream[6..]);
    assert_eq!(c.frames, vec![b"split me".to_vec()]);
    assert!(!c.stopped);
    let d = r.push(&[]);
    assert!(d.frames.is_empty() && !d.stopped);
}

#[test]
fn one_chunk_may_complete_several_frames() {
    let mut stream = Vec::new();
    for f in [&b"a"[..], b"bb", b"ccc"] {
        stream.extend(send(f));
    }
    stream.extend(&send(b"dddd")[..3]);
    let mut r = FrameReassembler::new();
    let out = r.push(&stream);
    assert_eq!(out.frames, vec![b"a".to_vec(), b"bb".to_vec(), b"ccc".to_vec()]);
    let rest = r.push(&send(b"dddd")[3..]);
    assert_eq!(rest.frames, vec![b"dddd".to_vec()]);
}
