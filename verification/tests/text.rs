use unit_manager::text::str_eq;

#[test]
fn equal_texts() {
    assert!(str_eq("", ""));
    assert!(str_eq("db.service", "db.service"));
    assert!(str_eq("h\u{e9}llo \u{26a0}", "h\u{e9}llo \u{26a0}"));
    assert!(str_eq("a\nb", &format!("a{}b", '\n')));
}

#[test]
fn different_texts() {
    assert!(!str_eq("", " "));
    assert!(!str_eq("db.service", "db.servicE"));
    assert!(!str_eq("db.service", "db.service\n"));
    assert!(!str_eq("abc", "abd"));
    assert!(!str_eq("bbc", "abc"));
    assert!(!str_eq("\u{e9}", "e"));
    assert!(!str_eq("\u{e9}", "\u{e8}"));
    assert!(!str_eq("ab", "ba"));
}
