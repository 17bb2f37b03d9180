use slack_tui::text::{is_whitespace, measure_bytes};

#[test]
fn white_space_agrees_with_the_standard_library_on_every_char() {
    for code in 0u32..=0x10FFFF {
        if let Some(c) = char::from_u32(code) {
            assert_eq!(is_whitespace(c), c.is_whitespace(), "U+{:04X}", code);
        }
    }
}

#[test]
fn byte_measures_agree_with_the_standard_library() {
    let texts = ["", "a", "ab", "é", "€", "😀", "K", "kel", "k€x", "naïve", "日本語", "a😀b"];
    for s in texts {
        for t in texts {
            let sc: Vec<char> = s.chars().collect();
            let tc: Vec<char> = t.chars().collect();
            let (longer, cut) = measure_bytes(&sc, &tc);
            assert_eq!(longer, s.len() > t.len(), "{s:?} against {t:?}");
            let expected = if t.len() <= s.len() && s.is_char_boundary(t.len()) {
                Some(s[..t.len()].chars().count())
            } else {
                None
            };
            assert_eq!(cut, expected, "{s:?} cut at the length of {t:?}");
        }
    }
}
