use hass_backend::text::{
    begins_with, cut_before, decimal_i64, decimal_u64, find_text, has_char, join_first, same_text,
    split_on, strip_end_char, strip_end_text,
};

#[test]
fn splitting_agrees_with_the_standard_library() {
    for text in ["", "_", "a", "a_b", "_a__b_", "äö_ü", "no separator"] {
        let expected: Vec<String> = text.split('_').map(|s| s.to_string()).collect();
        let parts = split_on(text, '_');
        assert_eq!(parts, expected);
        assert_eq!(join_first(&parts, parts.len()), text);
    }
}

#[test]
fn joining_takes_the_first_pieces() {
    let parts = split_on("a_b_c", '_');
    assert_eq!(join_first(&parts, 0), "");
    assert_eq!(join_first(&parts, 1), "a");
    assert_eq!(join_first(&parts, 2), "a_b");
}

#[test]
fn searching_counts_characters() {
    assert_eq!(find_text("äbcbc", "bc"), Some(1));
    assert_eq!(find_text("abc", "abcd"), None);
    assert_eq!(find_text("abc", ""), Some(0));
    assert_eq!(find_text("", ""), Some(0));
    assert_eq!(find_text("aab", "ab"), Some(1));
}

#[test]
fn cutting_and_comparing() {
    assert_eq!(cut_before("switch.a.b", '.'), "switch");
    assert_eq!(cut_before("switch", '.'), "switch");
    assert_eq!(cut_before(".a", '.'), "");
    assert!(has_char("a.b", '.'));
    assert!(!has_char("ab", '.'));
    assert!(begins_with("switch.a", "switch."));
    assert!(!begins_with("switch", "switch."));
    assert!(same_text("a", "a"));
    assert!(!same_text("a", "A"));
}

#[test]
fn trimming_agrees_with_the_standard_library() {
    for text in ["", "/", "///", "a/", "a//b//", "/graphql", "x/graphql/graphql", "x/graphql/"] {
        assert_eq!(strip_end_char(text, '/'), text.trim_end_matches('/'));
        assert_eq!(
            strip_end_text(text, "/graphql"),
            text.trim_end_matches("/graphql")
        );
    }
}

#[test]
fn decimal_forms_agree_with_the_standard_library() {
    for n in [0, 7, 10, 1805, u64::MAX] {
        assert_eq!(decimal_u64(n), n.to_string());
    }
    for n in [0, -1, 42, -1000, i64::MAX, i64::MIN] {
        assert_eq!(decimal_i64(n), n.to_string());
    }
}
