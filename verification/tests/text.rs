use actix_web_rsvp::text::{piece_key, query_keys, same_text, trim};

#[test]
fn trim_takes_white_space_off_both_ends() {
    assert_eq!(trim("  John Smith \t\n"), "John Smith");
    assert_eq!(trim("John"), "John");
    assert_eq!(trim(""), "");
    assert_eq!(trim(" \u{a0}\u{2003}\r\n"), "");
    assert_eq!(trim("\u{3000}é \u{feff}x\u{2028}"), "é \u{feff}x");
    assert_eq!(trim("a"), "a");
    assert_eq!(trim(" a"), "a");
    assert_eq!(trim("a "), "a");
    assert_eq!(trim("a  b"), "a  b");
}

#[test]
fn trim_agrees_with_std() {
    for text in ["", " ", "x", " x", "x ", "  x  y  ", "\t\u{85}ß\u{1680}", "\u{200b}x\u{200b}", "日本 語 "] {
        assert_eq!(trim(text), text.trim(), "{:?}", text);
    }
}

#[test]
fn piece_key_trims_and_lowers() {
    assert_eq!(piece_key("  JOHN Smith "), "john smith");
    assert_eq!(piece_key("ÉLODIE"), "élodie");
    assert_eq!(piece_key("ΟΔΥΣΣΕΥΣ"), "οδυσσευς");
    assert_eq!(piece_key(" "), "");
}

#[test]
fn query_keys_splits_at_each_ampersand() {
    assert_eq!(query_keys("Alice & Bob"), vec!["alice", "bob"]);
    assert_eq!(query_keys("Alice"), vec!["alice"]);
    assert_eq!(query_keys(""), vec![""]);
    assert_eq!(query_keys("&"), vec!["", ""]);
    assert_eq!(query_keys("A&&b &"), vec!["a", "", "b", ""]);
    assert_eq!(query_keys(" Émile&ZOË & x y "), vec!["émile", "zoë", "x y"]);
}

#[test]
fn query_keys_agrees_with_std() {
    for query in ["", "&", "a&b", " a & b ", "&&", "x&", "&x", "Ünï & cødé & "] {
        let expected: Vec<String> = query.split('&').map(|piece| piece.trim().to_lowercase()).collect();
        assert_eq!(query_keys(query), expected, "{:?}", query);
    }
}

#[test]
fn same_text_compares_character_by_character() {
    assert!(same_text("", ""));
    assert!(same_text("true", "true"));
    assert!(!same_text("true", "True"));
    assert!(!same_text("true", "true "));
    assert!(!same_text("é", "e\u{301}"));
    assert!(same_text("日本語", "日本語"));
    assert!(!same_text("abc", "abd"));
}

#[test]
fn white_space_is_what_unicode_lists() {
    let listed = |c: char| {
        matches!(
            c as u32,
            0x09..=0x0D
                | 0x20
                | 0x85
                | 0xA0
                | 0x1680
                | 0x2000..=0x200A
                | 0x2028
                | 0x2029
                | 0x202F
                | 0x205F
                | 0x3000
        )
    };
    let mut count = 0;
    for code in 0..=0x10FFFFu32 {
        if let Some(c) = char::from_u32(code) {
            let text = format!("a{}", c);
            assert_eq!(trim(&text) == "a", listed(c), "U+{:04X}", code);
            if listed(c) {
                count += 1;
            }
        }
    }
    assert_eq!(count, 25);
}

#[test]
fn an_ampersand_is_not_trimmed() {
    assert_eq!(trim(" & "), "&");
    assert_eq!(piece_key(" A&b "), "a&b");
}
