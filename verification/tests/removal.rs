use depac::removal::{
    accepts, check_package_warn_limit, confirmed, filter_removable, get_required_by, prompt, Held,
};

fn list(names: &[&str]) -> Vec<String> {
    names.iter().map(|name| name.to_string()).collect()
}

fn lists(all: &[&[&str]]) -> Vec<Vec<String>> {
    all.iter().map(|names| list(names)).collect()
}

fn held(package: &str, required_by: &[&str]) -> Held {
    Held { package: package.to_string(), required_by: list(required_by) }
}

#[test]
fn required_by_is_read() {
    let raw = "Name            : glibc\nRequired By     : bash  coreutils\nOptional For    : None\n";
    assert_eq!(get_required_by(raw), list(&["bash", "coreutils"]));
    assert!(get_required_by("Required By     : None").is_empty());
    assert!(get_required_by("Name            : glibc").is_empty());
    assert!(get_required_by("Required By bash").is_empty());
    assert_eq!(get_required_by("Required By : a None b"), list(&["a", "b"]));
}

#[test]
fn only_the_first_required_by_counts() {
    assert!(get_required_by("Required By\nRequired By : a").is_empty());
    assert_eq!(get_required_by("Required By : a:b\nRequired By : c"), list(&["a:b"]));
}

#[test]
fn a_chain_that_is_held_from_outside_stays() {
    // c requires a, and a requires b.
    let picked = filter_removable(&list(&["a", "b"]), &lists(&[&["c"], &["a"]]));
    assert!(picked.leaving.is_empty());
    assert_eq!(picked.staying, vec![held("a", &["c"]), held("b", &["a"])]);
}

#[test]
fn those_found_first_stay_first() {
    let picked = filter_removable(&list(&["b", "a"]), &lists(&[&["a"], &["c"]]));
    assert_eq!(picked.staying, vec![held("a", &["c"]), held("b", &["a"])]);
}

#[test]
fn packages_that_require_each_other_leave() {
    let picked = filter_removable(
        &list(&["a", "b", "c", "d"]),
        &lists(&[&["b"], &["a"], &["other"], &[]]),
    );
    assert_eq!(picked.leaving, list(&["a", "b", "d"]));
    assert_eq!(picked.staying, vec![held("c", &["other"])]);
}

#[test]
fn the_order_of_candidates_does_not_matter() {
    let one = filter_removable(&list(&["a", "b", "c"]), &lists(&[&["b"], &[], &["x"]]));
    let two = filter_removable(&list(&["c", "b", "a"]), &lists(&[&["x"], &[], &["b"]]));
    let mut first = one.leaving;
    let mut second = two.leaving;
    first.sort();
    second.sort();
    assert_eq!(first, second);
}

#[test]
fn a_repeated_candidate_is_decided_once_by_its_last_entry() {
    let picked = filter_removable(&list(&["a", "a"]), &lists(&[&["x"], &[]]));
    assert_eq!(picked.leaving, list(&["a"]));
    assert!(picked.staying.is_empty());
    let picked = filter_removable(&list(&["a", "a"]), &lists(&[&[], &["x"]]));
    assert!(picked.leaving.is_empty());
    assert_eq!(picked.staying, vec![held("a", &["x"])]);
}

#[test]
fn nothing_is_picked_of_nothing() {
    let picked = filter_removable(&[], &Vec::new());
    assert!(picked.leaving.is_empty());
    assert!(picked.staying.is_empty());
}

#[test]
fn the_limit_is_the_last_count_without_a_question() {
    assert!(check_package_warn_limit(&[], 0));
    assert!(!check_package_warn_limit(&list(&["a"]), 0));
    assert!(check_package_warn_limit(&list(&["a"]), 1));
    assert!(!check_package_warn_limit(&list(&["a", "b"]), 1));
}

#[test]
fn answers_are_read_without_case() {
    for default in [true, false] {
        assert!(confirmed(" Y\n", default));
        assert!(confirmed("yEs", default));
        assert!(!confirmed("n", default));
        assert!(!confirmed("yeah", default));
        assert!(!confirmed("Ÿ", default));
        assert_eq!(confirmed("", default), default);
        assert_eq!(confirmed(" \r\n", default), default);
    }
}

#[test]
fn answers_in_lower_case_are_read() {
    assert!(accepts(&"y".to_string(), false));
    assert!(accepts(&"yes".to_string(), false));
    assert!(!accepts(&"YES".to_string(), true));
    assert!(accepts(&String::new(), true));
}

#[test]
fn ascii_lower_case_is_that_of_the_letters() {
    for code in 0..128u8 {
        let text = (code as char).to_string();
        assert_eq!(text.to_lowercase(), text.to_ascii_lowercase());
    }
}

#[test]
fn the_prompt_shows_the_default() {
    assert_eq!(prompt(true), "[Y/n]");
    assert_eq!(prompt(false), "[y/N]");
}
