use depac::output::{captured, command_line, run_capture};

fn list(names: &[&str]) -> Vec<String> {
    names.iter().map(|name| name.to_string()).collect()
}

#[test]
fn output_is_trimmed() {
    let said = run_capture("pacman", &list(&["-Qq"]), true, b" linux\nmpv\n\n", b"warning");
    assert_eq!(said, Ok("linux\nmpv".to_string()));
}

#[test]
fn a_failed_command_is_reported() {
    let said = run_capture("pacman", &list(&["-Qi", "x"]), false, b"out", b"error: no x\n");
    assert_eq!(said, Err("Command failed (pacman -Qi x): error: no x\n".to_string()));
    let said = captured("pacman", &[], false, "", "why");
    assert_eq!(said, Err("Command failed (pacman ): why".to_string()));
}

#[test]
fn bytes_that_are_no_text_are_replaced() {
    let said = run_capture("p", &[], true, b"a\xffb \xc3\xa9", b"");
    assert_eq!(said, Ok("a\u{fffd}b é".to_string()));
}

#[test]
fn words_are_joined_by_single_spaces() {
    assert_eq!(command_line(&[]), "");
    assert_eq!(command_line(&list(&["a"])), "a");
    assert_eq!(command_line(&list(&["a", "", "b"])), "a  b");
}
