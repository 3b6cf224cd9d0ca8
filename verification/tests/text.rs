use smol_dfr::text::{chars_of, decimal_string, line_bounds, trim_bounds};

fn lines_of(s: &str) -> Vec<String> {
    let cs = chars_of(s);
    line_bounds(&cs).iter().map(|&(a, b)| cs[a..b].iter().collect()).collect()
}

#[test]
fn lines_follow_str_lines() {
    for s in ["", "a", "a\n", "a\nb", "a\r\nb\r\n", "\n", "\n\n", "x\r", "x\ry\n", "a\r\r\n"] {
        let expected: Vec<String> = s.lines().map(|l| l.to_string()).collect();
        assert_eq!(lines_of(s), expected, "input {s:?}");
    }
}

#[test]
fn trim_follows_str_trim() {
    for s in ["", "  ", " a ", "\u{3000}x\u{2003}", "\u{85}y\t", "a b", "\u{200B}z"] {
        let cs = chars_of(s);
        let (lo, hi) = trim_bounds(&cs, 0, cs.len());
        let t: String = cs[lo..hi].iter().collect();
        assert_eq!(t, s.trim(), "input {s:?}");
    }
}

#[test]
fn decimal_strings() {
    for n in [0u32, 7, 10, 99, 100, 4294967295] {
        assert_eq!(decimal_string(n), n.to_string());
    }
    // Law: writing a number and reading it back gives the number.
    for n in [0u32, 5, 12345, 4294967295] {
        assert_eq!(decimal_string(n).parse::<u32>(), Ok(n));
    }
}
