use hypervisor::text::{
    byte_len, decimal_digits, find_last_line_feed, split_lines, str_eq, with_hex_suffix,
};

#[test]
fn decimal_digits_of_numbers() {
    assert_eq!(decimal_digits(0), b"0".to_vec());
    assert_eq!(decimal_digits(7), b"7".to_vec());
    assert_eq!(decimal_digits(10), b"10".to_vec());
    assert_eq!(decimal_digits(1002), b"1002".to_vec());
    assert_eq!(decimal_digits(u32::MAX), b"4294967295".to_vec());
}

#[test]
fn hex_suffixes() {
    assert_eq!(with_hex_suffix("cpu@", 0), "cpu@0");
    assert_eq!(with_hex_suffix("cpu@", 10), "cpu@a");
    assert_eq!(with_hex_suffix("cpu@", 16), "cpu@10");
    assert_eq!(with_hex_suffix("rtc@", 0x2000), "rtc@2000");
    assert_eq!(with_hex_suffix("", 0xdead_beef), "deadbeef");
    assert_eq!(with_hex_suffix("x", u64::MAX), "xffffffffffffffff");
}

#[test]
fn lines_of_text() {
    let none: Vec<Vec<u8>> = Vec::new();
    assert_eq!(split_lines(b""), none);
    assert_eq!(split_lines(b"a"), vec![b"a".to_vec()]);
    assert_eq!(split_lines(b"a\n"), vec![b"a".to_vec()]);
    assert_eq!(split_lines(b"a\nb"), vec![b"a".to_vec(), b"b".to_vec()]);
    assert_eq!(split_lines(b"a\r\nb\r"), vec![b"a".to_vec(), b"b\r".to_vec()]);
    assert_eq!(split_lines(b"\n"), vec![Vec::new()]);
    assert_eq!(split_lines(b"\n\n"), vec![Vec::new(), Vec::new()]);
    assert_eq!(split_lines(b"\r\n"), vec![Vec::new()]);
    assert_eq!(split_lines(b"a\r\r\n"), vec![b"a\r".to_vec()]);
    for text in ["", "a", "a\n", "a\nb", "a\r\nb\r", "\n", "\n\n", "\r\n", "a\r\r\n", "\n\na\n\r"] {
        let expected: Vec<Vec<u8>> = text.lines().map(|line| line.as_bytes().to_vec()).collect();
        assert_eq!(split_lines(text.as_bytes()), expected);
    }
}

#[test]
fn last_line_feed() {
    assert_eq!(find_last_line_feed(&b"".to_vec()), None);
    assert_eq!(find_last_line_feed(&b"abc".to_vec()), None);
    assert_eq!(find_last_line_feed(&b"\n".to_vec()), Some(0));
    assert_eq!(find_last_line_feed(&b"a\nb\nc".to_vec()), Some(3));
}

#[test]
fn strings_compare_by_content() {
    assert!(str_eq("", ""));
    assert!(str_eq("abc", "abc"));
    assert!(!str_eq("abc", "abd"));
    assert!(!str_eq("abc", "ab"));
    assert_eq!(byte_len(""), 0);
    assert_eq!(byte_len("abc"), 3);
    assert_eq!(byte_len("gr\u{fc}n"), 5);
}
