use bytes::BytesMut;
use ftl_codec::{Command, FtlCodec, FtlCommand, FtlError, DEFAULT_MAX_FRAME_LEN};

fn buffer(bytes: &[u8]) -> BytesMut {
    BytesMut::from(bytes)
}

fn is_command(result: &Result<Option<FtlCommand>, FtlError>, command: Command) -> bool {
    match result {
        Ok(Some(found)) => found.command() == command && found.data().is_none(),
        _ => false,
    }
}

fn is_unsupported(result: &Result<Option<FtlCommand>, FtlError>, verb: &str) -> bool {
    matches!(result, Err(FtlError::Unsupported(raw)) if raw == verb)
}

fn is_pending(result: &Result<Option<FtlCommand>, FtlError>) -> bool {
    matches!(result, Ok(None))
}

#[test]
fn exact_frame_yields_hmac_without_payload() {
    let mut codec = FtlCodec::new(1024);
    let mut buf = buffer(b"HMAC\r\n\r\n");
    let result = codec.decode(&mut buf);
    assert!(is_command(&result, Command::Hmac));
    assert!(buf.is_empty());
    assert!(codec.buffered().is_empty());
    assert_eq!(codec.delimiter_progress(), 0);
}

#[test]
fn every_verb_of_the_protocol_is_recognised() {
    let verbs: [(&[u8], Command); 4] = [
        (b"HMAC\r\n\r\n", Command::Hmac),
        (b"CONNECT\r\n\r\n", Command::Connect),
        (b"PING\r\n\r\n", Command::Ping),
        (b"DOT\r\n\r\n", Command::Dot),
    ];
    for (frame, command) in verbs {
        let mut codec = FtlCodec::new(1);
        let mut buf = buffer(frame);
        let result = codec.decode(&mut buf);
        assert!(is_command(&result, command));
        assert!(buf.is_empty());
    }
}

#[test]
fn trailer_stays_in_the_buffer() {
    let mut codec = FtlCodec::new(1024);
    let mut buf = buffer(b"HMAC\r\n\r\nEXTRA");
    let result = codec.decode(&mut buf);
    assert!(is_command(&result, Command::Hmac));
    assert_eq!(&buf[..], b"EXTRA");
    assert!(codec.buffered().is_empty());

    let next = codec.decode(&mut buf);
    assert!(is_pending(&next));
    assert!(buf.is_empty());
    assert_eq!(codec.buffered(), b"EXTRA");
}

#[test]
fn trailer_holding_a_second_frame_is_decoded_by_the_next_call() {
    let mut codec = FtlCodec::new(1024);
    let mut buf = buffer(b"HMAC\r\n\r\nPING\r\n\r\nDO");
    assert!(is_command(&codec.decode(&mut buf), Command::Hmac));
    assert_eq!(&buf[..], b"PING\r\n\r\nDO");
    assert!(is_command(&codec.decode(&mut buf), Command::Ping));
    assert_eq!(&buf[..], b"DO");
    assert!(is_pending(&codec.decode(&mut buf)));
    assert!(buf.is_empty());
    buf.extend_from_slice(b"T\r\n\r\n");
    assert!(is_command(&codec.decode(&mut buf), Command::Dot));
}

#[test]
fn unknown_verb_is_unsupported_and_carries_the_verb() {
    let mut codec = FtlCodec::new(1024);
    let mut buf = buffer(b"FOO\r\n\r\n");
    let result = codec.decode(&mut buf);
    assert!(is_unsupported(&result, "FOO"));
    assert!(buf.is_empty());
    assert!(codec.buffered().is_empty());
    assert_eq!(codec.delimiter_progress(), 0);
}

#[test]
fn verbs_are_matched_whole_and_by_case() {
    for verb in ["hmac", "Hmac", "HMAC ", " HMAC", "HMA", "HMACS", "", "CONNECT\r", "PING\n"] {
        let mut codec = FtlCodec::new(1);
        let mut frame = verb.as_bytes().to_vec();
        frame.extend_from_slice(b"\r\n\r\n");
        let mut buf = buffer(&frame);
        let result = codec.decode(&mut buf);
        assert!(is_unsupported(&result, verb), "verb {:?}", verb);
    }
}

#[test]
fn one_byte_per_call_is_pending_until_the_last_byte() {
    let frame = b"HMAC\r\n\r\n";
    let mut codec = FtlCodec::new(1024);
    for (i, byte) in frame.iter().enumerate() {
        let mut buf = buffer(&[*byte]);
        let result = codec.decode(&mut buf);
        assert!(buf.is_empty());
        if i + 1 < frame.len() {
            assert!(is_pending(&result), "call {}", i);
            assert_eq!(codec.buffered(), &frame[..i + 1]);
        } else {
            assert!(is_command(&result, Command::Hmac));
            assert!(codec.buffered().is_empty());
        }
    }
}

#[test]
fn progress_follows_the_delimiter_across_calls() {
    let mut codec = FtlCodec::new(1);
    let expected = [0, 0, 0, 0, 1, 2, 3];
    for (byte, matched) in b"HMAC\r\n\r".iter().zip(expected) {
        let mut buf = buffer(&[*byte]);
        assert!(is_pending(&codec.decode(&mut buf)));
        assert_eq!(codec.delimiter_progress(), matched);
    }
}

#[test]
fn any_cut_in_two_gives_the_outcome_of_one_call() {
    let frames: [&[u8]; 3] = [b"HMAC\r\n\r\n", b"FOO\r\n\r\n", b"A\r\r\n\rB\r\n\r\n"];
    for frame in frames {
        let mut whole = FtlCodec::new(9);
        let mut all = buffer(frame);
        let expected = whole.decode(&mut all);
        for cut in 1..frame.len() {
            let mut codec = FtlCodec::new(9);
            let mut first = buffer(&frame[..cut]);
            assert!(is_pending(&codec.decode(&mut first)));
            let mut second = buffer(&frame[cut..]);
            let result = codec.decode(&mut second);
            assert_eq!(format!("{:?}", result), format!("{:?}", expected));
            assert_eq!(codec, whole);
            assert!(second.is_empty());
        }
    }
}

#[test]
fn any_cut_in_three_gives_the_outcome_of_one_call() {
    let frame = b"CONNECT\r\n\r\n";
    for a in 1..frame.len() {
        for b in a + 1..frame.len() {
            let mut codec = FtlCodec::new(9);
            assert!(is_pending(&codec.decode(&mut buffer(&frame[..a]))));
            assert!(is_pending(&codec.decode(&mut buffer(&frame[a..b]))));
            let result = codec.decode(&mut buffer(&frame[b..]));
            assert!(is_command(&result, Command::Connect));
        }
    }
}

#[test]
fn zero_quota_is_closed_and_touches_nothing() {
    let mut codec = FtlCodec::new(0);
    let mut buf = buffer(b"HMAC\r\n\r\n");
    let result = codec.decode(&mut buf);
    assert!(matches!(result, Err(FtlError::ConnectionClosed)));
    assert_eq!(&buf[..], b"HMAC\r\n\r\n");
    assert_eq!(codec, FtlCodec::new(0));

    let mut empty = BytesMut::new();
    assert!(matches!(codec.decode(&mut empty), Err(FtlError::ConnectionClosed)));
}

#[test]
fn reset_to_zero_quota_closes_the_decoder() {
    let mut codec = FtlCodec::with_max_frame_len(5, 64);
    assert!(is_pending(&codec.decode(&mut buffer(b"HMAC\r\n"))));
    codec.reset(0);
    let before = codec.clone();
    let mut buf = buffer(b"\r\n\r\n");
    assert!(matches!(codec.decode(&mut buf), Err(FtlError::ConnectionClosed)));
    assert_eq!(codec, before);
    assert_eq!(&buf[..], b"\r\n\r\n");
    assert!(matches!(codec.decode(&mut BytesMut::new()), Err(FtlError::ConnectionClosed)));
}

#[test]
fn quota_is_checked_and_never_spent() {
    let mut codec = FtlCodec::new(1);
    for _ in 0..3 {
        assert!(is_command(&codec.decode(&mut buffer(b"PING\r\n\r\n")), Command::Ping));
        assert_eq!(codec.quota(), 1);
    }
}

#[test]
fn reset_makes_the_decoder_new() {
    let mut codec = FtlCodec::new(10);
    assert!(is_command(&codec.decode(&mut buffer(b"HMAC\r\n\r\n")), Command::Hmac));
    codec.reset(20);
    assert_eq!(codec, FtlCodec::new(20));
    assert_eq!(codec.quota(), 20);

    let mut fresh = FtlCodec::new(20);
    let after_reset = codec.decode(&mut buffer(b"DOT\r\n\r\n"));
    let from_new = fresh.decode(&mut buffer(b"DOT\r\n\r\n"));
    assert!(is_command(&after_reset, Command::Dot));
    assert!(is_command(&from_new, Command::Dot));
    assert_eq!(codec, fresh);
}

#[test]
fn reset_forgets_a_frame_half_read() {
    let mut codec = FtlCodec::with_max_frame_len(10, 32);
    assert!(is_pending(&codec.decode(&mut buffer(b"JUNK\r\n\r"))));
    assert_eq!(codec.delimiter_progress(), 3);
    codec.reset(7);
    assert_eq!(codec, FtlCodec::with_max_frame_len(7, 32));
    assert!(codec.buffered().is_empty());
    assert_eq!(codec.delimiter_progress(), 0);
    assert_eq!(codec.max_frame_len(), 32);
    let result = codec.decode(&mut buffer(b"\nHMAC\r\n\r\n"));
    assert!(is_unsupported(&result, "\nHMAC"));
}

#[test]
fn new_uses_the_default_limit() {
    let codec = FtlCodec::new(3);
    assert_eq!(DEFAULT_MAX_FRAME_LEN, 8192);
    assert_eq!(codec.max_frame_len(), 8192);
    assert_eq!(codec.quota(), 3);
    assert_eq!(codec, FtlCodec::with_max_frame_len(3, 8192));
    assert!(codec.buffered().is_empty());
    assert_eq!(codec.delimiter_progress(), 0);
}

#[test]
fn bytes_past_the_limit_overflow() {
    let mut codec = FtlCodec::with_max_frame_len(1, 8);
    let mut buf = buffer(b"ABCDEFGHI");
    let result = codec.decode(&mut buf);
    assert!(matches!(result, Err(FtlError::BufferOverflow)));
    assert_eq!(codec.buffered(), b"ABCDEFGH");
    assert_eq!(&buf[..], b"I");

    let again = codec.decode(&mut buf);
    assert!(matches!(again, Err(FtlError::BufferOverflow)));
    assert_eq!(codec.buffered().len(), 8);
    assert_eq!(&buf[..], b"I");
}

#[test]
fn overflow_comes_after_many_small_reads_too() {
    let mut codec = FtlCodec::with_max_frame_len(1, 5);
    for _ in 0..5 {
        assert!(is_pending(&codec.decode(&mut buffer(b"x"))));
    }
    assert_eq!(codec.buffered(), b"xxxxx");
    assert!(is_pending(&codec.decode(&mut BytesMut::new())));
    let mut buf = buffer(b"x");
    assert!(matches!(codec.decode(&mut buf), Err(FtlError::BufferOverflow)));
    assert_eq!(codec.buffered().len(), 5);
    assert_eq!(&buf[..], b"x");
}

#[test]
fn a_frame_of_exactly_the_limit_is_decoded() {
    let mut codec = FtlCodec::with_max_frame_len(1, 8);
    let mut buf = buffer(b"HMAC\r\n\r\nEXTRA");
    assert!(is_command(&codec.decode(&mut buf), Command::Hmac));
    assert_eq!(&buf[..], b"EXTRA");

    let mut tight = FtlCodec::with_max_frame_len(1, 7);
    let mut buf = buffer(b"HMAC\r\n\r\n");
    assert!(matches!(tight.decode(&mut buf), Err(FtlError::BufferOverflow)));
    assert_eq!(tight.buffered(), b"HMAC\r\n\r");
    assert_eq!(tight.delimiter_progress(), 3);
    assert_eq!(&buf[..], b"\n");
}

#[test]
fn a_limit_of_zero_refuses_every_byte() {
    let mut codec = FtlCodec::with_max_frame_len(1, 0);
    assert!(is_pending(&codec.decode(&mut BytesMut::new())));
    let mut buf = buffer(b"\r");
    assert!(matches!(codec.decode(&mut buf), Err(FtlError::BufferOverflow)));
    assert_eq!(&buf[..], b"\r");
    assert!(codec.buffered().is_empty());
}

#[test]
fn empty_buffer_is_pending_and_changes_nothing() {
    let mut codec = FtlCodec::new(1);
    assert!(is_pending(&codec.decode(&mut buffer(b"HM"))));
    let before = codec.clone();
    assert!(is_pending(&codec.decode(&mut BytesMut::new())));
    assert_eq!(codec, before);
}

#[test]
fn a_broken_delimiter_starts_over_at_the_breaking_byte() {
    let mut codec = FtlCodec::new(1);
    let result = codec.decode(&mut buffer(b"\r\r\n\r\n"));
    assert!(is_unsupported(&result, "\r"));

    let result = codec.decode(&mut buffer(b"\r\n\r\r\n\r\n"));
    assert!(is_unsupported(&result, "\r\n\r"));

    let result = codec.decode(&mut buffer(b"HMAC\r\nX\r\n\r\n"));
    assert!(is_unsupported(&result, "HMAC\r\nX"));

    let mut buf = buffer(b"A\rB\nC\r\n\rD\r\n\r\nrest");
    let result = codec.decode(&mut buf);
    assert!(is_unsupported(&result, "A\rB\nC\r\n\rD"));
    assert_eq!(&buf[..], b"rest");
}

#[test]
fn a_bare_delimiter_is_a_frame_with_an_empty_verb() {
    let mut codec = FtlCodec::new(1);
    let mut buf = buffer(b"\r\n\r\nHMAC");
    let result = codec.decode(&mut buf);
    assert!(is_unsupported(&result, ""));
    assert_eq!(&buf[..], b"HMAC");
}

#[test]
fn bytes_that_are_not_text_are_replaced_in_the_verb() {
    let mut codec = FtlCodec::new(1);
    let result = codec.decode(&mut buffer(b"\xffHMAC\r\n\r\n"));
    assert!(is_unsupported(&result, "\u{fffd}HMAC"));

    let result = codec.decode(&mut buffer(b"PI\xc3\r\n\r\n"));
    assert!(is_unsupported(&result, "PI\u{fffd}"));

    let result = codec.decode(&mut buffer("H\u{e9}\r\n\r\n".as_bytes()));
    assert!(is_unsupported(&result, "H\u{e9}"));
}
