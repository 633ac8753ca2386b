use term_bridge::decode::{scan_partial_suffix, DecodeBuffer};

#[test]
fn ascii_chunks_pass_straight_through() {
    let mut buf = DecodeBuffer::new();
    let first = buf.feed(b"hel");
    assert_eq!(first, b"hel".to_vec());
    let second = buf.feed(b"lo\n");
    assert_eq!(second, b"lo\n".to_vec());
}

#[test]
fn hello_split_in_two_chunks_reassembles_whole() {
    let mut buf = DecodeBuffer::new();
    let mut all = buf.feed_filtered(b"hel");
    all.extend_from_slice(&buf.feed_filtered(b"lo\n"));
    assert_eq!(all, b"hello\n".to_vec());
    assert_eq!(String::from_utf8(all).unwrap(), "hello\n");
}

#[test]
fn incomplete_snowman_is_withheld_then_completed() {
    let mut buf = DecodeBuffer::new();
    let first = buf.feed_filtered(&[0xE2, 0x98]);
    assert!(first.is_empty());
    let second = buf.feed_filtered(&[0x83]);
    assert_eq!(second, vec![0xE2, 0x98, 0x83]);
    assert_eq!(String::from_utf8(second).unwrap(), "\u{2603}");
}

#[test]
fn four_byte_scalar_arrives_byte_by_byte() {
    let mut buf = DecodeBuffer::new();
    assert!(buf.feed(&[0xF0]).is_empty());
    assert!(buf.feed(&[0x9F]).is_empty());
    assert!(buf.feed(&[0x98]).is_empty());
    let out = buf.feed(&[0x80]);
    assert_eq!(out, vec![0xF0, 0x9F, 0x98, 0x80]);
    assert_eq!(String::from_utf8(out).unwrap(), "\u{1F600}");
}

#[test]
fn two_byte_scalar_split_at_boundary() {
    let mut buf = DecodeBuffer::new();
    assert!(buf.feed(&[0xC3]).is_empty());
    assert_eq!(buf.feed(&[0xA9]), vec![0xC3, 0xA9]);
}

#[test]
fn lone_bell_chunk_is_suppressed() {
    let mut buf = DecodeBuffer::new();
    let out = buf.feed_filtered(&[0x07]);
    assert!(out.is_empty());
}

#[test]
fn bell_inside_longer_run_passes_through() {
    let mut buf = DecodeBuffer::new();
    let out = buf.feed_filtered(b"a\x07b");
    assert_eq!(out, b"a\x07b".to_vec());
}

#[test]
fn unfiltered_feed_keeps_lone_bell() {
    let mut buf = DecodeBuffer::new();
    let out = buf.feed(&[0x07]);
    assert_eq!(out, vec![0x07]);
}

#[test]
fn bytes_that_can_never_complete_are_not_withheld() {
    let mut buf = DecodeBuffer::new();
    // 0xFF can lead nothing; a stray continuation byte completes nothing;
    // 0xC0 only leads overlong encodings. None of them may stall the stream.
    assert_eq!(buf.feed(&[0xFF, 0x41]), vec![0xFF, 0x41]);
    assert_eq!(buf.feed(&[0x80]), vec![0x80]);
    assert_eq!(buf.feed(&[0xC0]), vec![0xC0]);
}

#[test]
fn lead_followed_by_non_continuation_is_released() {
    let mut buf = DecodeBuffer::new();
    assert!(buf.feed(&[0xE2]).is_empty());
    // 0x28 cannot continue the sequence, so both bytes are released raw.
    assert_eq!(buf.feed(&[0x28]), vec![0xE2, 0x28]);
}

#[test]
fn scan_finds_the_longest_completable_suffix() {
    assert_eq!(scan_partial_suffix(b"hello"), 0);
    assert_eq!(scan_partial_suffix(&[0x68, 0xE2, 0x98]), 2);
    assert_eq!(scan_partial_suffix(&[0xF0, 0x9F, 0x98]), 3);
    assert_eq!(scan_partial_suffix(&[0xC3]), 1);
    assert_eq!(scan_partial_suffix(&[0xE2, 0x98, 0x83]), 0);
    assert_eq!(scan_partial_suffix(&[]), 0);
    // Overlong and out-of-range leads are not completable.
    assert_eq!(scan_partial_suffix(&[0xC1]), 0);
    assert_eq!(scan_partial_suffix(&[0xF5]), 0);
    // A surrogate prefix (0xED 0xA0) is not completable either.
    assert_eq!(scan_partial_suffix(&[0xED, 0xA0]), 0);
    assert_eq!(scan_partial_suffix(&[0xED, 0x9F]), 2);
}

#[test]
fn arbitrary_split_matches_single_shot() {
    let text = "caf\u{E9} \u{2603} na\u{EF}ve \u{1F600}!".as_bytes();
    let whole = {
        let mut buf = DecodeBuffer::new();
        buf.feed(text)
    };
    for cut in 0..=text.len() {
        let mut buf = DecodeBuffer::new();
        let mut out = buf.feed(&text[..cut]);
        out.extend_from_slice(&buf.feed(&text[cut..]));
        assert_eq!(out, whole);
    }
}
