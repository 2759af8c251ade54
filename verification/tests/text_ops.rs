use self_smart::text::{
    count_str, decimal_string, is_whitespace_char, lines_exec, parse_i64_exec, replace_exec,
    second_piece_exec, signed_decimal_chars, strip_prefixes_exec, to_chars, trim_exec, words_exec,
};

fn s(v: &[char]) -> String {
    v.iter().collect()
}

const SAMPLES: &[&str] = &[
    "",
    "a",
    "a\n",
    "a\r\n",
    "\n",
    "\r\n",
    "a\r",
    "one\ntwo\r\nthree",
    "  padded  \t",
    "\u{3000}wide space\u{85}",
    "x\n\n\ny\n",
    "héllo wörld\n😀 end",
    "  fn  main ( ) { }  ",
];

#[test]
fn whitespace_agrees_with_std() {
    for u in 0u32..=0x10FFFF {
        if let Some(c) = char::from_u32(u) {
            assert_eq!(is_whitespace_char(c), c.is_whitespace(), "char {:x}", u);
        }
    }
}

#[test]
fn lines_agree_with_std() {
    for t in SAMPLES {
        let got: Vec<String> = lines_exec(&to_chars(t)).iter().map(|l| s(l)).collect();
        let want: Vec<String> = t.lines().map(String::from).collect();
        assert_eq!(got, want, "{:?}", t);
    }
}

#[test]
fn trim_and_words_agree_with_std() {
    for t in SAMPLES {
        assert_eq!(s(&trim_exec(&to_chars(t))), t.trim());
        let got: Vec<String> = words_exec(&to_chars(t)).iter().map(|w| s(w)).collect();
        let want: Vec<String> = t.split_whitespace().map(String::from).collect();
        assert_eq!(got, want);
    }
}

#[test]
fn parse_agrees_with_std() {
    let words = [
        "0", "1", "-1", "+7", "42", "-", "+", "", "007", "12a", "1.5", "9223372036854775807",
        "9223372036854775808", "-9223372036854775808", "-9223372036854775809",
        "99999999999999999999", "--3", "+-3",
    ];
    for w in words {
        let got = parse_i64_exec(&to_chars(w));
        let want = w.parse::<i64>().ok();
        assert_eq!(got, want, "{:?}", w);
    }
}

#[test]
fn pattern_operations_agree_with_std() {
    let cases = [
        ("aaaa", "aa", "b"),
        ("hello world hello", "hello", "bye"),
        ("abc", "", "X"),
        ("", "", "X"),
        ("no match", "zz", "y"),
        ("TOOL:TOOL:x", "TOOL:", ""),
    ];
    for (text, pat, rep) in cases {
        let t = to_chars(text);
        let p = to_chars(pat);
        let r = to_chars(rep);
        assert_eq!(s(&replace_exec(&t, &p, &r)), text.replace(pat, rep));
        if !pat.is_empty() {
            assert_eq!(count_str(&t, pat), text.matches(pat).count());
            assert_eq!(
                second_piece_exec(&t, pat).map(|v| s(&v)),
                text.split(pat).nth(1).map(String::from)
            );
        }
        assert_eq!(s(&strip_prefixes_exec(&t, pat)), text.trim_start_matches(pat));
    }
}

#[test]
fn decimal_formatting_agrees_with_std() {
    for n in [0u64, 7, 10, 99, 100, 12345, u64::MAX] {
        assert_eq!(decimal_string(n), n.to_string());
    }
    for n in [0i64, -1, 42, -42, i64::MIN, i64::MAX] {
        assert_eq!(s(&signed_decimal_chars(n)), n.to_string());
    }
}
