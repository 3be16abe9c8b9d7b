use lte_modem::text::{bytes_of, is_whitespace, same_bytes, split_lines, starts_with, trim};

#[test]
fn whitespace_is_space_and_tab_to_carriage_return() {
    for b in 0..=255u8 {
        let expected = b == b' ' || (9..=13).contains(&b);
        assert_eq!(is_whitespace(b), expected, "byte {}", b);
    }
}

#[test]
fn vertical_tab_and_form_feed_are_whitespace() {
    assert!(is_whitespace(0x0b));
    assert!(is_whitespace(0x0c));
    assert!(!is_whitespace(0x08));
    assert!(!is_whitespace(0x0e));
    assert!(!is_whitespace(0xa0));
}

#[test]
fn trim_removes_both_sides() {
    assert_eq!(trim(b"  OK\r"), b"OK");
    assert_eq!(trim(b"\t +CEREG: 1 \r\n"), b"+CEREG: 1");
}

#[test]
fn trim_keeps_inner_whitespace() {
    assert_eq!(trim(b" a b  c "), b"a b  c");
}

#[test]
fn trim_of_whitespace_is_empty() {
    assert_eq!(trim(b" \r\n\t"), b"");
    assert_eq!(trim(b""), b"");
}

#[test]
fn trim_leaves_a_trimmed_line() {
    assert_eq!(trim(b"OK"), b"OK");
    assert_eq!(trim(b"x"), b"x");
}

#[test]
fn trim_agrees_with_str_trim_on_ascii() {
    let samples: [&str; 6] = ["", " ", "a", " a", "a ", "\r\n a \x0b b \x0c\t"];
    for s in samples {
        assert_eq!(trim(s.as_bytes()), s.trim().as_bytes());
    }
}

#[test]
fn trim_takes_bytes_outside_ascii_as_text() {
    assert_eq!(trim(&[b' ', 0xc3, 0xa9, b' ']), &[0xc3, 0xa9]);
    assert_eq!(trim(&[0x85, b'a', 0xa0]), &[0x85, b'a', 0xa0]);
}

#[test]
fn starts_with_a_prefix() {
    assert!(starts_with(b"ERROR: 5", b"ERROR"));
    assert!(starts_with(b"ERROR", b"ERROR"));
    assert!(starts_with(b"ERROR", b""));
    assert!(starts_with(b"", b""));
}

#[test]
fn starts_with_rejects_other_lines() {
    assert!(!starts_with(b"ERRO", b"ERROR"));
    assert!(!starts_with(b"eRROR", b"ERROR"));
    assert!(!starts_with(b"ERROr", b"ERROR"));
    assert!(!starts_with(b"", b"E"));
    assert!(!starts_with(b" ERROR", b"ERROR"));
}

#[test]
fn same_bytes_compares_whole_lines() {
    assert!(same_bytes(b"OK", b"OK"));
    assert!(same_bytes(b"", b""));
    assert!(!same_bytes(b"OK", b"OKAY"));
    assert!(!same_bytes(b"OKAY", b"OK"));
    assert!(!same_bytes(b"OK", b"Ok"));
}

#[test]
fn bytes_of_gives_the_ascii_bytes() {
    assert_eq!(bytes_of("AT+CFUN=1"), b"AT+CFUN=1");
    assert_eq!(bytes_of(""), b"");
}

#[test]
fn split_lines_of_empty_text_is_empty() {
    assert!(split_lines(b"").is_empty());
}

#[test]
fn split_lines_at_line_feeds() {
    let expected: Vec<&[u8]> = vec![b"a", b"b"];
    assert_eq!(split_lines(b"a\nb"), expected);
    assert_eq!(split_lines(b"a\nb\n"), expected);
}

#[test]
fn split_lines_keeps_empty_lines_but_no_empty_tail() {
    let expected: Vec<&[u8]> = vec![b"", b"a", b"", b"b"];
    assert_eq!(split_lines(b"\na\n\nb\n"), expected);
    let one: Vec<&[u8]> = vec![b""];
    assert_eq!(split_lines(b"\n"), one);
}

#[test]
fn split_lines_leaves_the_carriage_return() {
    let expected: Vec<&[u8]> = vec![b"+CEREG: 1\r", b"OK\r"];
    assert_eq!(split_lines(b"+CEREG: 1\r\nOK\r\n"), expected);
}

#[test]
fn split_lines_then_trim_agrees_with_str_lines() {
    let samples: [&str; 7] = [
        "",
        "OK",
        "OK\r\n",
        "\r\n+CEREG: 2\r\n\r\nOK\r\n",
        "a\n\nb",
        "\n",
        " x \r\n y\r",
    ];
    for s in samples {
        let ours: Vec<Vec<u8>> = split_lines(s.as_bytes()).iter().map(|l| trim(l).to_vec()).collect();
        let theirs: Vec<Vec<u8>> = s.lines().map(|l| l.trim().as_bytes().to_vec()).collect();
        assert_eq!(ours, theirs, "text {:?}", s);
    }
}
