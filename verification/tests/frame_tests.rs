use laser_ingest::frame::{classify, parse_line, parse_u16, trim, ControlTag, Frame};

#[test]
fn telemetry_line_parses_to_values() {
    let r = parse_line(b"12,34,999");
    assert_eq!(r, Some(Frame::Telemetry(vec![12, 34, 999])));
}

#[test]
fn bad_segment_makes_line_malformed() {
    let r = parse_line(b"12,a,7");
    assert_eq!(r, Some(Frame::Malformed(b"12,a,7".to_vec())));
}

#[test]
fn buzzer_keyword_is_control() {
    let r = parse_line(b"buzzer");
    assert_eq!(r, Some(Frame::Control(ControlTag::Buzzer)));
}

#[test]
fn start_keyword_is_control() {
    let r = parse_line(b"start");
    assert_eq!(r, Some(Frame::Control(ControlTag::Start)));
}

#[test]
fn empty_line_is_no_event() {
    assert_eq!(parse_line(b""), None);
    assert_eq!(parse_line(b" \t\r\n"), None);
}

#[test]
fn surrounding_whitespace_is_trimmed() {
    assert_eq!(parse_line(b"  buzzer\r\n"), Some(Frame::Control(ControlTag::Buzzer)));
    assert_eq!(
        parse_line(b"\t12,34\n"),
        Some(Frame::Telemetry(vec![12, 34]))
    );
    assert_eq!(trim(b"  12 \r\n"), b"12");
}

#[test]
fn classification_is_deterministic() {
    for line in [&b"12,34,999"[..], b"buzzer", b"12,a,7", b"start", b"+7"] {
        assert_eq!(parse_line(line), parse_line(line));
    }
}

#[test]
fn single_value_line_is_telemetry() {
    assert_eq!(parse_line(b"400"), Some(Frame::Telemetry(vec![400])));
}

#[test]
fn keyword_with_extra_text_is_malformed() {
    assert_eq!(parse_line(b"buzzer!"), Some(Frame::Malformed(b"buzzer!".to_vec())));
    assert_eq!(parse_line(b"start stop"), Some(Frame::Malformed(b"start stop".to_vec())));
}

#[test]
fn empty_segments_are_malformed() {
    assert_eq!(parse_line(b","), Some(Frame::Malformed(b",".to_vec())));
    assert_eq!(parse_line(b"12,,7"), Some(Frame::Malformed(b"12,,7".to_vec())));
    assert_eq!(parse_line(b"12,"), Some(Frame::Malformed(b"12,".to_vec())));
}

#[test]
fn segment_parsing_matches_u16_range() {
    assert_eq!(parse_u16(b"0"), Some(0));
    assert_eq!(parse_u16(b"0012"), Some(12));
    assert_eq!(parse_u16(b"+5"), Some(5));
    assert_eq!(parse_u16(b"65535"), Some(65535));
    assert_eq!(parse_u16(b"65536"), None);
    assert_eq!(parse_u16(b"00000000000000065535"), Some(65535));
    assert_eq!(parse_u16(b""), None);
    assert_eq!(parse_u16(b"+"), None);
    assert_eq!(parse_u16(b"-1"), None);
    assert_eq!(parse_u16(b"1 2"), None);
}

#[test]
fn classify_handles_trimmed_input() {
    assert_eq!(classify(b"buzzer"), Frame::Control(ControlTag::Buzzer));
    assert_eq!(classify(b"7,8"), Frame::Telemetry(vec![7, 8]));
}
