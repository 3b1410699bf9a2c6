use shaft::text::{chars_le_exec, chars_of, concat_str, decimal_string, substring};

#[test]
fn decimal_rendering() {
    assert_eq!(decimal_string(0), "0");
    assert_eq!(decimal_string(7), "7");
    assert_eq!(decimal_string(22), "22");
    assert_eq!(decimal_string(65535), "65535");
    assert_eq!(decimal_string(u64::MAX), "18446744073709551615");
}

#[test]
fn code_point_order() {
    let a: Vec<char> = "abc".chars().collect();
    let b: Vec<char> = "abd".chars().collect();
    let p: Vec<char> = "ab".chars().collect();
    assert!(chars_le_exec(&a, &b));
    assert!(!chars_le_exec(&b, &a));
    assert!(chars_le_exec(&p, &a));
    assert!(!chars_le_exec(&a, &p));
    assert!(chars_le_exec(&a, &a));
    let upper: Vec<char> = "Z".chars().collect();
    let lower: Vec<char> = "a".chars().collect();
    assert!(chars_le_exec(&upper, &lower));
}

#[test]
fn char_helpers() {
    let cs = chars_of("héllo");
    assert_eq!(cs.len(), 5);
    assert_eq!(substring(&cs, 1, 3), "él");
    assert_eq!(concat_str("Auth failed: ", "x"), "Auth failed: x");
}
