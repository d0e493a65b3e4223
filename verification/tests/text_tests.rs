use mineplace3d_launcher::text::{
    chars_of, contains_chars, is_whitespace, parse_u32, push_decimal, split_on, trim_bounds,
};

fn chars(s: &str) -> Vec<char> {
    s.chars().collect()
}

#[test]
fn whitespace_agrees_with_std() {
    for x in 0u32..0x3100 {
        if let Some(c) = char::from_u32(x) {
            assert_eq!(is_whitespace(c), c.is_whitespace(), "{:#x}", x);
        }
    }
    for c in ['\u{FEFF}', '\u{10FFFF}', 'a', '\u{200B}'] {
        assert_eq!(is_whitespace(c), c.is_whitespace());
    }
}

#[test]
fn trimming_agrees_with_std() {
    for s in ["", "  ", " a ", "\tab c\n", "\u{3000}x\u{A0}", "x", "a  b"] {
        let cs = chars(s);
        let (a, b) = trim_bounds(&cs);
        let got: String = cs[a..b].iter().collect();
        assert_eq!(got, s.trim());
    }
}

#[test]
fn splitting_agrees_with_std() {
    for s in ["", "-", "a-b", "--", "1.2.3-alpha.1", "a-", "-a", "x.y.z"] {
        for sep in ['-', '.'] {
            let got: Vec<String> = split_on(&chars(s), sep)
                .iter()
                .map(|p| p.iter().collect())
                .collect();
            let want: Vec<String> = s.split(sep).map(|p| p.to_string()).collect();
            assert_eq!(got, want);
        }
    }
}

#[test]
fn u32_reading_agrees_with_std() {
    let cases = [
        "", "0", "00", "7", "+7", "+", "-", "-7", "42", "4294967295", "4294967296",
        "99999999999999999999", "+4294967295", "1a", "a1", " 1", "1 ", "٣", "0042",
    ];
    for s in cases {
        assert_eq!(parse_u32(&chars(s)), s.parse::<u32>().ok(), "{:?}", s);
    }
}

#[test]
fn decimal_text_agrees_with_std() {
    for n in [0u32, 5, 10, 99, 100, 101, 65535, 1000000, u32::MAX] {
        let mut s = String::from("x");
        push_decimal(&mut s, n);
        assert_eq!(s, format!("x{}", n));
    }
}

#[test]
fn substring_search_agrees_with_std() {
    let hays = ["", "libSDL2", "xx libSDL2-2.0.so.0 (libc6,x86-64)", "libSDL", "LIBSDL2", "liblibSDL2"];
    for h in hays {
        assert_eq!(contains_chars(&chars(h), &chars("libSDL2")), h.contains("libSDL2"));
        assert!(contains_chars(&chars(h), &chars("")));
    }
    assert_eq!(chars_of("héllo"), chars("héllo"));
}
