use zju_booking::text::{
    contains_exec, reverse_str, split_first_exec, split_second_exec, str_lt, strip_prefix_exec,
    substring,
};

#[test]
fn split_second_takes_text_between_first_two_markers() {
    assert_eq!(split_second_exec("a=1;b=2;c=3", ";"), Some("b=2".to_string()));
    assert_eq!(split_second_exec("a=1;b=2", ";"), Some("b=2".to_string()));
    assert_eq!(split_second_exec("a=1", ";"), None);
    assert_eq!(split_second_exec(";", ";"), Some(String::new()));
    assert_eq!(split_second_exec("xcas=cas=y", "cas="), Some(String::new()));
}

#[test]
fn split_first_takes_text_before_marker() {
    assert_eq!(split_first_exec("abc\"def", "\""), "abc");
    assert_eq!(split_first_exec("abcdef", "\""), "abcdef");
    assert_eq!(split_first_exec("&x", "&"), "");
}

#[test]
fn contains_and_strip_prefix() {
    assert!(contains_exec("https://zjuam/cas/login?x", "login"));
    assert!(!contains_exec("https://booking/ticket", "login"));
    assert!(contains_exec("abc", ""));
    assert_eq!(strip_prefix_exec("Bearer tok", "Bearer "), Some("tok".to_string()));
    assert_eq!(strip_prefix_exec("bearer tok", "Bearer "), None);
    assert_eq!(strip_prefix_exec("Bearer ", "Bearer "), Some(String::new()));
    assert_eq!(strip_prefix_exec("", "Bearer "), None);
}

#[test]
fn string_order_matches_std() {
    let samples = ["", "a", "b", "ab", "aa", "A001", "A010", "A01", "中", "z", "2024-03-01T08:00", "2024-03-01T07:59"];
    for a in samples.iter() {
        for b in samples.iter() {
            assert_eq!(str_lt(a, b), a < b, "{} < {}", a, b);
        }
    }
}

#[test]
fn reverse_and_substring() {
    assert_eq!(reverse_str("20240301"), "10304202");
    assert_eq!(reverse_str(""), "");
    assert_eq!(reverse_str("ab中"), "中ba");
    assert_eq!(substring("ab中cd", 1, 3), "b中");
}
