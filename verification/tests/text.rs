use crmonitor::text::{append_int, parse_u32, split_once, trim};

#[test]
fn trimming() {
    assert_eq!(trim("  a b \r\n"), "a b");
    assert_eq!(trim("\u{3000}x\u{a0}\u{85}"), "x");
    assert_eq!(trim(" \t "), "");
    assert_eq!(trim(""), "");
    for s in ["\u{200b}x", "x\u{2007}", "\u{1680}\u{2028}\u{e9}\u{202f}\u{205f}", "\u{b}\u{c}y"] {
        assert_eq!(trim(s), s.trim());
    }
}

#[test]
fn white_space_is_that_of_characters() {
    for n in 0u32..0x11_0000 {
        if let Some(c) = char::from_u32(n) {
            let s = c.to_string();
            if n < 0x3100 {
                assert_eq!(trim(&s).is_empty(), c.is_whitespace(), "{:x}", n);
            } else {
                assert!(!c.is_whitespace());
            }
        }
    }
}

#[test]
fn splitting() {
    assert_eq!(split_once("12;a;b", ';'), Some(("12", "a;b")));
    assert_eq!(split_once("\u{e9};", ';'), Some(("\u{e9}", "")));
    assert_eq!(split_once(";x", ';'), Some(("", "x")));
    assert_eq!(split_once("none", ';'), None);
    assert_eq!(split_once("", ';'), None);
}

#[test]
fn parsing_agrees_with_the_standard_library() {
    for s in [
        "", "+", "-", "0", "-0", "+0", "007", "12", "+12", "++1", "1+", "4294967295", "4294967296",
        "0000000000000000000000000001", "1 ", "\u{661}", "1e3", "0x10", "42949672950",
    ] {
        assert_eq!(parse_u32(s), s.parse::<u32>().ok(), "{:?}", s);
    }
}

#[test]
fn whole_numbers_are_written() {
    for n in [0, 7, 10, 99, 100, 12345, -1, -10, i32::MAX, i32::MIN] {
        let mut s = String::from("n=");
        append_int(&mut s, n);
        assert_eq!(s, format!("n={}", n));
    }
}

#[test]
fn written_numbers_read_back() {
    for n in [0, 5, 10, 4096, i32::MAX] {
        let mut s = String::new();
        append_int(&mut s, n);
        assert_eq!(parse_u32(&s), Some(n as u32));
    }
}
