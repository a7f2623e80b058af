use custos::control::{frame, FrameReader, FrameStep, Refusal, MAX_CONTROL_FRAME};

/// What reading comes to that gets its bytes in chunks of a size.
fn read(bytes: &[u8], size: usize) -> Result<Option<Vec<u8>>, Refusal> {
    let mut reader = FrameReader::new();
    for chunk in bytes.chunks(size) {
        match reader.feed(chunk) {
            FrameStep::Read(next) => reader = next,
            FrameStep::Complete(payload) => return Ok(Some(payload)),
            FrameStep::Refused(refusal) => return Err(refusal),
        }
    }
    Ok(None)
}

#[test]
fn frames_are_read_back_in_any_chunks() {
    let sent = frame(b"{\"command\":\"status\"}".to_vec());
    let mut stream = sent.clone();
    stream.extend_from_slice(b"behind");

    for size in 1..=stream.len() {
        assert_eq!(read(&stream, size), Ok(Some(sent.clone())));
    }
}

#[test]
fn requests_that_are_cut_off_are_refused() {
    let refusal = |reader: FrameReader| match reader.feed(b"") {
        FrameStep::Refused(refusal) => refusal.message(),
        _ => panic!("nothing more comes"),
    };
    assert_eq!(refusal(FrameReader::new()), "empty control request");
    match FrameReader::new().feed(b"{") {
        FrameStep::Read(reader) => assert_eq!(refusal(reader), "unterminated control request"),
        _ => panic!("more has to come"),
    }
}

#[test]
fn the_longest_request_is_read_and_a_longer_one_is_not() {
    let longest = frame(vec![b'x'; MAX_CONTROL_FRAME - 1]);
    let too_long = frame(vec![b'x'; MAX_CONTROL_FRAME]);
    for size in [1000, 4096, 100_000] {
        assert_eq!(read(&longest, size), Ok(Some(longest.clone())));
        assert_eq!(read(&too_long, size), Err(Refusal::TooLong));
    }
    assert_eq!(Refusal::TooLong.message(), "control request exceeds 65536 bytes");
}
