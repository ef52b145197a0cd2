use speller_pool::codec::{check_weight, find_byte, find_terminator, frame_request, parse_block, parse_line, split_bytes_exec};

#[test]
fn single_record_block() {
    // Input "cat" answered with "cat\tcat\t0.0\n\n": exactly one record
    // {word: "cat", value: "cat", weight: 0.0}.
    let buf = b"cat\tcat\t0.0\n\n";
    let end = find_terminator(buf, b"\n\n").expect("terminator present");
    assert_eq!(end, 11);
    let records = parse_block(&buf[..end]);
    assert_eq!(records.len(), 1);
    assert_eq!(records[0].word, "cat");
    assert_eq!(records[0].value, "cat");
    assert_eq!(records[0].weight, "0.0");
    assert_eq!(records[0].weight.parse::<f32>().unwrap(), 0.0);
}

#[test]
fn malformed_record_among_good_ones_is_skipped() {
    // One malformed record among three well-formed ones: the well-formed
    // records come through, never a total failure.
    let block = b"hus\thus\t0.0\nhus\thuse\nhus\thusa\t1.5\nhus\thuset\t2.25";
    let records = parse_block(block);
    assert_eq!(records.len(), 3);
    assert_eq!(records[0].value, "hus");
    assert_eq!(records[1].value, "husa");
    assert_eq!(records[1].weight, "1.5");
    assert_eq!(records[2].value, "huset");
    assert_eq!(records[2].weight, "2.25");
}

#[test]
fn bad_weight_excludes_only_that_record() {
    let block = b"a\tb\tx9\nc\td\t3.5";
    let records = parse_block(block);
    assert_eq!(records.len(), 1);
    assert_eq!(records[0].word, "c");
    assert_eq!(records[0].value, "d");
    assert_eq!(records[0].weight, "3.5");
}

#[test]
fn invalid_utf8_field_excludes_only_that_record() {
    let mut block: Vec<u8> = Vec::new();
    block.extend_from_slice(b"ok\tgood\t1.0\n");
    block.extend_from_slice(b"ok\t\xff\xfe\t1.0\n");
    block.extend_from_slice(b"ok\tfine\t2.0");
    let records = parse_block(&block);
    assert_eq!(records.len(), 2);
    assert_eq!(records[0].value, "good");
    assert_eq!(records[1].value, "fine");
}

#[test]
fn multibyte_words_come_through_decoded() {
    let block = "h\u{fc}s\th\u{fb}s\t1.5".as_bytes();
    let records = parse_block(block);
    assert_eq!(records.len(), 1);
    assert_eq!(records[0].word, "h\u{fc}s");
    assert_eq!(records[0].value, "h\u{fb}s");
}

#[test]
fn empty_block_has_no_records() {
    assert_eq!(parse_block(b"").len(), 0);
    assert_eq!(parse_block(b"\n\n\n").len(), 0);
}

#[test]
fn parse_line_requires_three_fields() {
    assert!(parse_line(b"a\tb\t1.0").is_some());
    assert!(parse_line(b"a\tb").is_none());
    assert!(parse_line(b"a\tb\t1.0\tc").is_none());
    assert!(parse_line(b"").is_none());
}

#[test]
fn weight_grammar() {
    assert!(check_weight(b"0"));
    assert!(check_weight(b"12"));
    assert!(check_weight(b"0.0"));
    assert!(check_weight(b"-3.25"));
    assert!(check_weight(b"-7"));
    assert!(check_weight(b"18.3018"));
    assert!(!check_weight(b""));
    assert!(!check_weight(b"-"));
    assert!(!check_weight(b"."));
    assert!(!check_weight(b"1."));
    assert!(!check_weight(b".5"));
    assert!(!check_weight(b"1.2.3"));
    assert!(!check_weight(b"1e5"));
    assert!(!check_weight(b"abc"));
    assert!(!check_weight(b"--1"));
    assert!(!check_weight(b"1-2"));
}

#[test]
fn terminator_scanning() {
    assert_eq!(find_terminator(b"abc\n\ndef", b"\n\n"), Some(3));
    assert_eq!(find_terminator(b"\n\nrest", b"\n\n"), Some(0));
    assert_eq!(find_terminator(b"abc\ndef", b"\n\n"), None);
    assert_eq!(find_terminator(b"", b"\n\n"), None);
    assert_eq!(find_terminator(b"x\n", b"\n"), Some(1));
    // The first occurrence wins.
    assert_eq!(find_terminator(b"a\n\nb\n\nc", b"\n\n"), Some(1));
}

#[test]
fn framing_appends_one_terminator() {
    let framed = frame_request("house").expect("payload has no newline");
    assert_eq!(framed, b"house\n");
    assert!(frame_request("two\nlines").is_none());
    assert_eq!(frame_request("").unwrap(), b"\n");
}

#[test]
fn splitting_and_finding() {
    let segs = split_bytes_exec(b"a\tbc\t", b'\t');
    let segs: Vec<&[u8]> = segs.iter().map(|s| s.as_slice()).collect();
    assert_eq!(segs, vec![b"a" as &[u8], b"bc", b""]);
    assert_eq!(find_byte(b"abc", b'b'), Some(1));
    assert_eq!(find_byte(b"abc", b'z'), None);
}
