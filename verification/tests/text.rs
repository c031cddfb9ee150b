use testctl::text::{
    chars_of, joined, decimal_string, lines_exec, parse_u8_exec, split_ws_exec, string_from,
    trim_exec,
};

fn words(v: Vec<Vec<char>>) -> Vec<String> {
    v.iter().map(|w| w.iter().collect()).collect()
}

#[test]
fn lines_follow_str_lines() {
    for s in ["", "a", "a\n", "a\n\nb", "\n", "x\r\ny\r", "a\r\n\r\n", " \r"] {
        let got = words(lines_exec(&chars_of(s)));
        let want: Vec<String> = s.lines().map(|l| l.to_string()).collect();
        assert_eq!(got, want, "lines of {:?}", s);
    }
}

#[test]
fn trim_and_words_follow_str() {
    for s in ["", "  a b  ", "\u{3000}x\u{00a0}", "\t\n", "a\u{2028}b", "x\u{200b}"] {
        let t: String = trim_exec(&chars_of(s)).iter().collect();
        assert_eq!(t, s.trim(), "trim of {:?}", s);
        let w = words(split_ws_exec(&chars_of(s)));
        let want: Vec<String> = s.split_whitespace().map(|x| x.to_string()).collect();
        assert_eq!(w, want, "words of {:?}", s);
    }
}

#[test]
fn u8_parsing_follows_from_str() {
    for s in ["0", "255", "256", "+7", "+", "-1", "", "007", "1 ", "x", "00000000000000000000042", "99999999999"] {
        assert_eq!(parse_u8_exec(&chars_of(s)), s.parse::<u8>().ok(), "parse of {:?}", s);
    }
}

#[test]
fn decimal_and_concatenation() {
    assert_eq!(decimal_string(0), "0");
    assert_eq!(decimal_string(9999), "9999");
    assert_eq!(decimal_string(u64::MAX), u64::MAX.to_string());
    assert_eq!(joined("ab", "cd"), "abcd");
    assert_eq!(string_from(&['h', 'é']), "hé");
}
