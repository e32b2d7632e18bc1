use limits_rs::decimal::{append_decimal, parse_decimal};

#[test]
fn parse_reads_digits() {
    assert_eq!(parse_decimal("0"), Some(0));
    assert_eq!(parse_decimal("7"), Some(7));
    assert_eq!(parse_decimal("42"), Some(42));
    assert_eq!(parse_decimal("000"), Some(0));
    assert_eq!(parse_decimal("00000000000000000042"), Some(42));
    assert_eq!(parse_decimal("+42"), Some(42));
    assert_eq!(parse_decimal("+0"), Some(0));
    assert_eq!(parse_decimal("4294967295"), Some(4294967295));
    assert_eq!(parse_decimal("+4294967295"), Some(4294967295));
}

#[test]
fn parse_refuses_what_is_too_large() {
    assert_eq!(parse_decimal("4294967296"), None);
    assert_eq!(parse_decimal("4294967300"), None);
    assert_eq!(parse_decimal("42949672950"), None);
    assert_eq!(parse_decimal("10000000000"), None);
    assert_eq!(parse_decimal("340282366920938463463374607431768211456"), None);
    assert_eq!(parse_decimal("4294967296x"), None);
}

#[test]
fn parse_refuses_what_is_no_numeral() {
    for text in ["", "+", "-", "-1", "+-1", "++1", "1+", "1-1", " 1", "1 ", "1,0", "1e3", "abc", "4 2"] {
        assert_eq!(parse_decimal(text), None, "{:?}", text);
    }
}

#[test]
fn parse_agrees_with_the_standard_library() {
    let texts = [
        "", "0", "1", "9", "10", "0010", "+5", "+", "-5", "-0", "+-5", "5+", "4294967295",
        "4294967296", "4294967294", "42949672951", "99999999999", "18446744073709551616",
        "12a", "a12", "1 2", " 1", "1 ", "1_0", "0x1f", "1.0", "\u{ff11}", "\u{663}", "unlimited",
        "١٢٣", "12\u{0}", "\t7", "7\n", "+007", "000000000004294967295", "000000000004294967296",
    ];
    for text in texts {
        assert_eq!(parse_decimal(text), text.parse::<u32>().ok(), "{:?}", text);
    }
}

#[test]
fn append_writes_the_digits() {
    let mut out = String::from("n=");
    append_decimal(&mut out, 0);
    assert_eq!(out, "n=0");
    append_decimal(&mut out, 4294967295);
    assert_eq!(out, "n=04294967295");
    let mut empty = String::new();
    append_decimal(&mut empty, 1000);
    assert_eq!(empty, "1000");
}

#[test]
fn what_is_written_is_read_back() {
    for n in [0u32, 1, 5, 9, 10, 11, 99, 100, 101, 999, 1000, 65535, 65536, 99999, 100000,
              2147483647, 2147483648, 4294967294, 4294967295] {
        let mut text = String::new();
        append_decimal(&mut text, n);
        assert_eq!(text, n.to_string());
        assert_eq!(parse_decimal(&text), Some(n));
    }
}

#[test]
fn parse_agrees_on_every_short_text() {
    let alphabet = ['0', '1', '9', '+', '-', ' ', 'a', '\u{663}'];
    let mut texts = vec![String::new()];
    let mut from = 0;
    for _ in 0..4 {
        let upto = texts.len();
        for i in from..upto {
            for c in alphabet {
                let mut longer = texts[i].clone();
                longer.push(c);
                texts.push(longer);
            }
        }
        from = upto;
    }
    assert_eq!(texts.len(), 1 + 8 + 64 + 512 + 4096);
    for text in &texts {
        assert_eq!(parse_decimal(text), text.parse::<u32>().ok(), "{:?}", text);
    }
}

#[test]
fn parse_agrees_around_the_largest_number() {
    let mut n: u64 = 4294967295 - 2000;
    while n < 4294967295 + 2000 {
        let text = n.to_string();
        let expected = if n <= 4294967295 { Some(n as u32) } else { None };
        assert_eq!(parse_decimal(&text), expected, "{:?}", text);
        assert_eq!(parse_decimal(&text), text.parse::<u32>().ok(), "{:?}", text);
        let padded = format!("+000{}", n);
        assert_eq!(parse_decimal(&padded), expected, "{:?}", padded);
        n += 1;
    }
    let mut m: u64 = 1;
    while m < 1 << 40 {
        let text = m.to_string();
        assert_eq!(parse_decimal(&text), text.parse::<u32>().ok(), "{:?}", text);
        m = m * 3 + 1;
    }
}
