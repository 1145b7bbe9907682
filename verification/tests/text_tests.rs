use ldr_plc::text::{ascii_upper_vec, chars_vec, split_chars, str_eq, trim_chars, trim_string};

const SAMPLES: &[&str] = &[
    "",
    "   ",
    "abc",
    "  a b  ",
    "\t\n\u{b}\u{c}\rx\r\n",
    "\u{85}\u{a0}\u{1680}y\u{2000}\u{200a}\u{2028}\u{2029}\u{202f}\u{205f}\u{3000}",
    "\u{200b}z\u{200b}",
    "中文 配方",
    ",a,,b,",
];

#[test]
fn trim_matches_std() {
    for s in SAMPLES {
        assert_eq!(trim_string(s), s.trim(), "input {s:?}");
        assert_eq!(trim_chars(s), s.trim().chars().collect::<Vec<_>>(), "input {s:?}");
    }
}

#[test]
fn upper_matches_std() {
    for s in SAMPLES.iter().chain(["aBcD", "ß ü z{"].iter()) {
        let up: String = ascii_upper_vec(&chars_vec(s)).into_iter().collect();
        assert_eq!(up, s.to_ascii_uppercase(), "input {s:?}");
    }
}

#[test]
fn split_matches_std() {
    for s in SAMPLES {
        let parts: Vec<String> = split_chars(&chars_vec(s), ',')
            .into_iter()
            .map(|p| p.into_iter().collect())
            .collect();
        let want: Vec<String> = s.split(',').map(String::from).collect();
        assert_eq!(parts, want, "input {s:?}");
    }
}

#[test]
fn string_equality() {
    assert!(str_eq("glstep", "glstep"));
    assert!(!str_eq("glstep", "glste"));
    assert!(!str_eq("a", "b"));
    assert!(str_eq("", ""));
}
