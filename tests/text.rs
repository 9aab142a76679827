use cursetool::text::{push_decimal, replace_char, str_eq, str_le};

#[test]
fn decimal_rendering() {
    let mut s = String::from("n=");
    push_decimal(&mut s, 0);
    push_decimal(&mut s, 18446744073709551615);
    assert_eq!(s, "n=018446744073709551615");
}

#[test]
fn char_replacement() {
    assert_eq!(replace_char("a+b+", '+', "%2B"), "a%2Bb%2B");
    assert_eq!(replace_char("(x)", '(', ""), "x)");
    assert_eq!(replace_char("", 'a', "b"), "");
}

#[test]
fn string_order() {
    assert!(str_le("iron-chests", "jei"));
    assert!(!str_le("jei", "iron-chests"));
    assert!(str_le("ab", "abc"));
    assert!(str_le("abc", "abc"));
    assert!(str_eq("é", "é"));
    assert!(!str_eq("a", "ab"));
}
