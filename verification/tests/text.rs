use global_env::text::{chars_of, str_eq};

#[test]
fn chars_of_gives_every_character_in_order() {
    assert_eq!(chars_of(""), Vec::<char>::new());
    assert_eq!(chars_of("a=b"), vec!['a', '=', 'b']);
    assert_eq!(chars_of("h\u{e9}\u{4e16}!"), vec!['h', '\u{e9}', '\u{4e16}', '!']);
}

#[test]
fn str_eq_tells_equal_from_different() {
    assert!(str_eq("", ""));
    assert!(str_eq("HOME", "HOME"));
    assert!(!str_eq("HOME", "HOM"));
    assert!(!str_eq("HOM", "HOME"));
    assert!(!str_eq("HOME", "home"));
    assert!(!str_eq("", "x"));
    assert!(str_eq("\u{e9}t\u{e9}", "\u{e9}t\u{e9}"));
    assert!(!str_eq("\u{e9}t\u{e9}", "\u{e9}te"));
}
