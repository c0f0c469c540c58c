use chainsawman_api::text::{char_is_space, join, find_char, find_sub, split, starts_at, trim};

#[test]
fn trim_takes_white_space_off_both_ends() {
    assert_eq!(trim("  Devil Hunter \n"), "Devil Hunter");
    assert_eq!(trim("\u{3000}ポチタ\u{a0}"), "ポチタ");
    assert_eq!(trim("inner  space"), "inner  space");
}

#[test]
fn trim_of_white_space_alone_is_empty() {
    assert_eq!(trim(" \t\r\n"), "");
    assert_eq!(trim(""), "");
}

#[test]
fn trim_agrees_with_std_on_every_white_space_character() {
    for code in 0u32..0x3100 {
        if let Some(c) = char::from_u32(code) {
            assert_eq!(char_is_space(c), c.is_whitespace(), "code point {}", code);
        }
    }
}

#[test]
fn find_char_gives_the_first_index_or_the_length() {
    assert_eq!(find_char("a:b:c", ':', 0), 1);
    assert_eq!(find_char("a:b:c", ':', 2), 3);
    assert_eq!(find_char("abc", ':', 0), 3);
    assert_eq!(find_char("デ:ビ", ':', 0), 1);
}

#[test]
fn starts_at_compares_characters() {
    assert!(starts_at("a<br>b", "<br>", 1));
    assert!(!starts_at("a<br>b", "<br>", 0));
    assert!(!starts_at("a<br", "<br>", 1));
    assert!(starts_at("abc", "", 3));
    assert!(!starts_at("abc", "", 4));
}

#[test]
fn find_sub_gives_the_first_occurrence() {
    assert_eq!(find_sub("a<br>b<br>c", "<br>", 0), 1);
    assert_eq!(find_sub("a<br>b<br>c", "<br>", 2), 6);
    assert!(!starts_at("abc", "<br>", find_sub("abc", "<br>", 0)));
}

#[test]
fn split_agrees_with_std() {
    for text in ["a<br>b<br>c", "<br>", "", "no break", "x<br><br>y", "<br<br>>", "é<br>ü"] {
        let expected: Vec<String> = text.split("<br>").map(|s| s.to_string()).collect();
        assert_eq!(split(text, "<br>"), expected, "{}", text);
    }
}

#[test]
fn join_puts_the_parts_in_order() {
    let parts = vec!["Chain".to_string(), "saw".to_string(), "".to_string(), " Devil".to_string()];
    assert_eq!(join(&parts), "Chainsaw Devil");
    assert_eq!(join(&Vec::new()), "");
}
