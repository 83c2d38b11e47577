use process_supervisor::text::{copy_from, same_text};

#[test]
fn same_text_compares_whole_strings() {
    assert!(same_text("", ""));
    assert!(same_text("path.join", "path.join"));
    assert!(!same_text("path.join", "path.joi"));
    assert!(!same_text("path.join", "path.joim"));
    assert!(!same_text("path.join", "Path.join"));
    assert!(!same_text("", " "));
}

#[test]
fn same_text_outside_ascii() {
    assert!(same_text("zo\u{eb}", "zo\u{eb}"));
    assert!(!same_text("zo\u{eb}", "zoe"));
    assert!(!same_text("\u{30d7}", "\u{30ed}"));
}

#[test]
fn copy_from_takes_the_tail() {
    let list = vec!["a".to_string(), "b".to_string(), "c".to_string()];
    assert_eq!(copy_from(&list, 0), list);
    assert_eq!(copy_from(&list, 2), vec!["c".to_string()]);
    assert_eq!(copy_from(&list, 3), Vec::<String>::new());
}
