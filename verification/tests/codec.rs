use serialtool::backend::{
    bytes_to_display, bytes_to_hex, display_text, encode_send_data, parse_hex, read_result, read_step,
    ReadEvent, ReadStep,
};
use serialtool::types::LineEnding;

#[test]
fn parse_hex_spaced_and_compact() {
    assert_eq!(parse_hex("41 42\n43").unwrap(), vec![0x41, 0x42, 0x43]);
    assert_eq!(parse_hex("414243").unwrap(), vec![0x41, 0x42, 0x43]);
    assert_eq!(parse_hex("4 1\t4\r\n2").unwrap(), vec![0x41, 0x42]);
    assert_eq!(parse_hex("0d0A ff").unwrap(), vec![0x0d, 0x0a, 0xff]);
}

#[test]
fn parse_hex_empty_and_blank() {
    assert_eq!(parse_hex("").unwrap(), Vec::<u8>::new());
    assert_eq!(parse_hex("  \n ").unwrap(), Vec::<u8>::new());
}

#[test]
fn parse_hex_plus_sign_pair() {
    // Only hexadecimal digits make a pair; a sign is refused.
    assert_eq!(parse_hex("+F").unwrap_err(), "HEX 格式错误：包含非法字符 '+F'");
    assert!(parse_hex("+1").is_err());
    assert!(parse_hex("+A").is_err());
    assert_eq!(parse_hex("41+a").unwrap_err(), "HEX 格式错误：包含非法字符 '+a'");
}

#[test]
fn parse_hex_odd_length_error() {
    assert_eq!(parse_hex("414").unwrap_err(), "HEX 格式错误：字符数必须为偶数");
}

#[test]
fn parse_hex_non_ascii_error() {
    assert_eq!(
        parse_hex("41 中").unwrap_err(),
        "HEX 格式错误：只允许十六进制字符（0-9 A-F a-f）"
    );
}

#[test]
fn parse_hex_bad_pair_error_names_first_pair() {
    assert_eq!(parse_hex("41 4G zz").unwrap_err(), "HEX 格式错误：包含非法字符 '4G'");
    assert_eq!(parse_hex("-1").unwrap_err(), "HEX 格式错误：包含非法字符 '-1'");
}

#[test]
fn bytes_to_hex_formats_upper_case_pairs() {
    assert_eq!(bytes_to_hex(&[0x41, 0x0d, 0x0a]), "41 0D 0A");
    assert_eq!(bytes_to_hex(&[0x00, 0xff, 0xab]), "00 FF AB");
    assert_eq!(bytes_to_hex(&[]), "");
    assert_eq!(bytes_to_hex(&[0x7]), "07");
}

#[test]
fn hex_round_trip_on_concrete_bytes() {
    let data: Vec<u8> = (0u8..=255).collect();
    assert_eq!(parse_hex(&bytes_to_hex(&data)).unwrap(), data);
}

#[test]
fn bytes_to_display_normalises_line_breaks() {
    assert_eq!(bytes_to_display(b"a\r\nb\rc\nd"), "a\nb\nc\nd");
    assert_eq!(bytes_to_display(b"\r\r\n"), "\n\n");
}

#[test]
fn bytes_to_display_replaces_control_and_invalid_bytes() {
    assert_eq!(bytes_to_display(&[0x41, 0x01, 0x7f, 0x42]), "A..B");
    assert_eq!(bytes_to_display(&[0xff, 0x41]), ".A");
    assert_eq!(bytes_to_display(b"x\ty"), "x\ty");
}

#[test]
fn bytes_to_display_keeps_valid_utf8() {
    assert_eq!(bytes_to_display("中文 ok".as_bytes()), "中文 ok");
    // A replacement character that is itself valid UTF-8 is kept.
    assert_eq!(bytes_to_display(&[0xef, 0xbf, 0xbd]), "\u{FFFD}");
}

#[test]
fn bytes_to_display_one_dot_per_invalid_sequence() {
    assert_eq!(bytes_to_display(&[0x41, 0xff, 0xfe, 0x42]), "A..B");
    // A sequence cut short at the end is one invalid sequence.
    assert_eq!(bytes_to_display(&[0x41, 0xe4, 0xb8]), "A.");
    assert_eq!(bytes_to_display(&[0xe4, 0xb8, 0x41]), ".A");
}

#[test]
fn display_text_on_decoded_input() {
    assert_eq!(display_text("a\u{FFFD}b\u{0085}c\r\n"), "a\u{FFFD}b.c\n");
    assert_eq!(display_text(""), "");
}

#[test]
fn encode_ascii_appends_line_ending() {
    assert_eq!(encode_send_data("AB", false, &LineEnding::CrLf).unwrap(), vec![0x41, 0x42, 13, 10]);
    assert_eq!(encode_send_data("AB", false, &LineEnding::Lf).unwrap(), vec![0x41, 0x42, 10]);
    assert_eq!(encode_send_data("AB", false, &LineEnding::Cr).unwrap(), vec![0x41, 0x42, 13]);
    assert_eq!(encode_send_data("AB", false, &LineEnding::Off).unwrap(), vec![0x41, 0x42]);
    assert_eq!(encode_send_data("é", false, &LineEnding::Off).unwrap(), vec![0xc3, 0xa9]);
}

#[test]
fn encode_hex_ignores_line_ending() {
    for le in [LineEnding::Off, LineEnding::CrLf, LineEnding::Lf, LineEnding::Cr] {
        assert_eq!(encode_send_data("41 42", true, &le).unwrap(), vec![0x41, 0x42]);
    }
    assert_eq!(
        encode_send_data("4", true, &LineEnding::CrLf).unwrap_err(),
        "HEX 格式错误：字符数必须为偶数"
    );
}

#[test]
fn reading_steps() {
    assert!(matches!(read_step(&ReadEvent::Read(5)), ReadStep::Append(5)));
    assert!(matches!(read_step(&ReadEvent::Read(0)), ReadStep::Done));
    assert!(matches!(read_step(&ReadEvent::TimedOut), ReadStep::Done));
    assert!(matches!(read_step(&ReadEvent::WouldBlock), ReadStep::Done));
    match read_step(&ReadEvent::Failed("broken pipe".to_string())) {
        ReadStep::Fail(m) => assert_eq!(m, "读取失败: broken pipe"),
        _ => panic!("expected a failure"),
    }
    assert_eq!(read_result(vec![]), None);
    assert_eq!(read_result(vec![1, 2]), Some(vec![1, 2]));
}

#[test]
fn hex_accepts_only_digit_pairs() {
    assert_eq!(parse_hex("aB cD\n0f").unwrap(), vec![0xab, 0xcd, 0x0f]);
    assert!(parse_hex("4G").is_err());
    assert!(parse_hex("-1").is_err());
    assert!(parse_hex("0x41").is_err());
}

#[test]
fn displayed_text_is_never_longer_than_the_bytes() {
    let cases: Vec<Vec<u8>> = vec![
        vec![],
        vec![0xff, 0xfe, 0xfd],
        vec![0xe4, 0xb8],
        "中文\r\nok".as_bytes().to_vec(),
        vec![0x41, 0x0d, 0x0a, 0x80, 0x42],
    ];
    for data in cases {
        let shown = bytes_to_display(&data);
        assert!(shown.chars().count() <= data.len());
        assert!(!shown.contains('\r'));
    }
}
