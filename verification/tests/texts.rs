use ripgrep_web::text::{strip_leading_slashes, strip_line_end, trim, white_space};

#[test]
fn white_space_is_that_of_std() {
    for code in 0..=0x10ffffu32 {
        if let Some(c) = char::from_u32(code) {
            assert_eq!(white_space(c), c.is_whitespace(), "{:x}", code);
        }
    }
}

#[test]
fn trimming_is_that_of_std() {
    let texts = [
        "", " ", "a", " a", "a ", " a b ", "\t\r\n", "\u{3000}a\u{85}", "\u{200b}a",
        "日 志\u{a0}",
    ];
    for text in texts {
        assert_eq!(trim(text), text.trim());
    }
}

#[test]
fn slashes_at_the_start_are_dropped() {
    for text in ["", "/", "//", "a", "/a", "//a/", "a/b", " /a", "/日志"] {
        assert_eq!(strip_leading_slashes(text), text.trim_start_matches('/'));
    }
}

#[test]
fn line_ends_are_dropped() {
    let texts = [
        "", "\n", "\r\n", "a", "a\n", "a\r\n", "a\n\r\n\r", "a\nb\n", "a \n", "\na", "志\n",
    ];
    for text in texts {
        assert_eq!(strip_line_end(text), text.trim_end_matches(['\r', '\n']));
    }
}
