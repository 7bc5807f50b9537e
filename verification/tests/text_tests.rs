use jwglxt::text::{find_from, parse_u32, replace_all, str_has, u32_to_string};

#[test]
fn substring_search_finds_first_occurrence() {
    assert_eq!(find_from("abcabc", "bc", 0), Some(1));
    assert_eq!(find_from("abcabc", "bc", 2), Some(4));
    assert_eq!(find_from("abcabc", "zz", 0), None);
    assert_eq!(find_from("", "a", 0), None);
    assert_eq!(find_from("abc", "", 1), Some(1));
}

#[test]
fn containment_matches_search() {
    assert!(str_has("第3周", "周"));
    assert!(!str_has("第3回", "周"));
    assert!(str_has("anything", ""));
}

#[test]
fn replace_all_rewrites_left_to_right() {
    assert_eq!(replace_all("aaa", "aa", "b"), "ba");
    assert_eq!(replace_all("1周2周", "周", ""), "12");
    assert_eq!(replace_all("xyz", "周", "!"), "xyz");
    assert_eq!(replace_all("", "a", "b"), "");
}

#[test]
fn decimal_parsing_is_exact() {
    assert_eq!(parse_u32("0"), Some(0));
    assert_eq!(parse_u32("2021"), Some(2021));
    assert_eq!(parse_u32("4294967295"), Some(u32::MAX));
    assert_eq!(parse_u32("4294967296"), None);
    assert_eq!(parse_u32(""), None);
    assert_eq!(parse_u32("12a"), None);
    assert_eq!(parse_u32("-3"), None);
    assert_eq!(parse_u32("+3"), None);
}

#[test]
fn decimal_rendering_is_exact() {
    assert_eq!(u32_to_string(0), "0");
    assert_eq!(u32_to_string(7), "7");
    assert_eq!(u32_to_string(2021), "2021");
    assert_eq!(u32_to_string(u32::MAX), "4294967295");
}
