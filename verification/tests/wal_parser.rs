use wallust::wal::{
    fields, imagemagick_args, line_count, lines, parse_hex, parse_line, split_bytes, wal_colors, wal_next, WalNext,
};

const SAMPLE: &str = "# ImageMagick pixel enumeration: 4,1,0,255,srgb
0,0: (92,64,54)  #5C4036  srgb(36.1282%,25.1188%,21.1559%)
1,0: (238,238,238)  #EEEEEE  srgb(93%,93%,93%)
2,0: (0,0,0)  #000000  black
3,0: (255,1,2)  #FF0102  srgb(100%,0.4%,0.8%)
";

#[test]
fn parses_imagemagick_output() {
    let out = wal_colors(SAMPLE.as_bytes()).unwrap();
    assert_eq!(out, vec![92, 64, 54, 238, 238, 238, 0, 0, 0, 255, 1, 2]);
}

#[test]
fn crlf_output() {
    let text = SAMPLE.replace('\n', "\r\n");
    assert_eq!(wal_colors(text.as_bytes()).unwrap().len(), 12);
    assert_eq!(line_count(text.as_bytes()), 5);
}

#[test]
fn header_only_and_empty() {
    assert_eq!(wal_colors(b"# header\n").unwrap(), Vec::<u8>::new());
    assert_eq!(wal_colors(b"").unwrap(), Vec::<u8>::new());
}

#[test]
fn malformed_lines_are_refused() {
    // no hex field
    assert_eq!(wal_colors(b"h\n0,0:\n"), None);
    assert_eq!(wal_colors(b"h\n0,0: (1,2,3)\n"), None);
    // a hex field too short, or with a letter that is not a digit
    assert_eq!(wal_colors(b"h\n0,0: (1,2,3) #01020\n"), None);
    assert_eq!(wal_colors(b"h\n0,0: (1,2,3) #01020G\n"), None);
}

#[test]
fn short_tuples_are_read_from_the_hex_field() {
    // ImageMagick writes `(238)` for `(238,0,0)`
    assert_eq!(parse_line(b"0: (238) #EE0000"), Some(vec![238, 0, 0]));
    assert_eq!(parse_line(b"0,0: (1,2,3,4)  #010203"), Some(vec![1, 2, 3]));
    assert_eq!(wal_colors(b"h\n0,0: (238)  #EE0000  red\n1,0: (0,0,255) #0000ff blue\n"), Some(vec![238, 0, 0, 0, 0, 255]));
}

#[test]
fn hex_fields() {
    assert_eq!(parse_hex(b"#5C4036"), Some(vec![0x5c, 0x40, 0x36]));
    assert_eq!(parse_hex(b"#5c4036"), Some(vec![0x5c, 0x40, 0x36]));
    // an alpha channel is left out
    assert_eq!(parse_hex(b"#5C4036FF"), Some(vec![0x5c, 0x40, 0x36]));
    assert_eq!(parse_hex(b"5C4036"), None);
    assert_eq!(parse_hex(b"#5C40"), None);
    assert_eq!(parse_hex(b"#5C4036F"), None);
}

#[test]
fn splitting_follows_std() {
    let text = "a,,b,";
    let got: Vec<String> = split_bytes(text.as_bytes(), b',').into_iter().map(|v| String::from_utf8(v).unwrap()).collect();
    let want: Vec<String> = text.split(',').map(String::from).collect();
    assert_eq!(got, want);
    let text = "  one\ttwo \x0c three  ";
    let got: Vec<String> = fields(text.as_bytes()).into_iter().map(|v| String::from_utf8(v).unwrap()).collect();
    let want: Vec<String> = text.split_ascii_whitespace().map(String::from).collect();
    assert_eq!(got, want);
    for text in ["", "a", "a\n", "a\n\nb", "a\nb\n\n", "\n"] {
        assert_eq!(lines(text.as_bytes()).len(), text.lines().count(), "{text:?}");
    }
}

#[test]
fn retry_decisions() {
    assert_eq!(wal_next(0, 17), WalNext::Parse);
    assert_eq!(wal_next(0, 16), WalNext::Retry(17));
    assert_eq!(wal_next(18, 3), WalNext::Retry(35));
    assert_eq!(wal_next(19, 16), WalNext::GiveUp);
    assert_eq!(wal_next(19, 20), WalNext::Parse);
}

#[test]
fn imagemagick_arguments() {
    assert_eq!(
        imagemagick_args("/img/a.gif", 17),
        vec![
            "/img/a.gif[0]",
            "-resize",
            "25%",
            "-colors",
            "17",
            "-unique-colors",
            "-colorspace",
            "srgb",
            "-depth",
            "8",
            "txt:-"
        ]
    );
}
