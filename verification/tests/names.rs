use depac::names::{dedup, has_name, lines_to_vec, subtract};

fn list(names: &[&str]) -> Vec<String> {
    names.iter().map(|name| name.to_string()).collect()
}

#[test]
fn blank_lines_are_dropped() {
    assert_eq!(lines_to_vec("  linux \n\n\t\nmpv\r\n kitty"), list(&["linux", "mpv", "kitty"]));
    assert!(lines_to_vec(" \n\t\n").is_empty());
    assert!(lines_to_vec("").is_empty());
}

#[test]
fn subtraction_keeps_order_and_repetition() {
    assert_eq!(
        subtract(&list(&["c", "a", "b", "c", "d"]), &list(&["b", "x", "d"])),
        list(&["c", "a", "c"])
    );
    assert_eq!(subtract(&list(&["a"]), &list(&[])), list(&["a"]));
    assert!(subtract(&list(&["a", "a"]), &list(&["a"])).is_empty());
}

#[test]
fn repeated_names_are_kept_once() {
    assert_eq!(dedup(&list(&["b", "a", "b", "c", "a"])), list(&["b", "a", "c"]));
}

#[test]
fn names_are_found() {
    let names = list(&["a", "b"]);
    assert!(has_name(&names, &"b".to_string()));
    assert!(!has_name(&names, &"c".to_string()));
}
