use safe_cargo::args::Args;
use safe_cargo::args::split_cargo_args;

fn v(items: &[&str]) -> Vec<String> {
    items.iter().map(|s| s.to_string()).collect()
}

#[test]
fn check_split_cargo_args() {
    let Args { args, cargo_args } = split_cargo_args(v(&[]));
    assert_eq!(args, v(&[]), "safe-cargo arguments are not valid");
    assert_eq!(cargo_args, v(&[]), "cargo arguments are not valid");

    let Args { args, cargo_args } = split_cargo_args(v(&["build"]));
    assert_eq!(args, v(&[]), "safe-cargo arguments are not valid");
    assert_eq!(cargo_args, v(&["build"]), "cargo arguments are not valid");

    let Args { args, cargo_args } = split_cargo_args(v(&["+nightly", "build"]));
    assert_eq!(args, v(&[]), "safe-cargo arguments are not valid");
    assert_eq!(cargo_args, v(&["+nightly", "build"]), "cargo arguments are not valid");

    let Args { args, cargo_args } = split_cargo_args(v(&["--", "+nightly", "build"]));
    assert_eq!(args, v(&[]), "safe-cargo arguments are not valid");
    assert_eq!(cargo_args, v(&["+nightly", "build"]), "cargo arguments are not valid");

    let Args { args, cargo_args } = split_cargo_args(v(&["--dump", "--", "+nightly", "build"]));
    assert_eq!(args, v(&["--dump"]), "safe-cargo arguments are not valid");
    assert_eq!(cargo_args, v(&["+nightly", "build"]), "cargo arguments are not valid");

    let Args { args, cargo_args } = split_cargo_args(v(&["--dump", "--"]));
    assert_eq!(args, v(&["--dump"]), "safe-cargo arguments are not valid");
    assert_eq!(cargo_args, v(&[]), "cargo arguments are not valid");

    let Args { args, cargo_args } = split_cargo_args(v(&["--dump", "--", "run", "--", "-a"]));
    assert_eq!(args, v(&["--dump"]), "safe-cargo arguments are not valid");
    assert_eq!(cargo_args, v(&["run", "--", "-a"]), "cargo arguments are not valid");
}

#[test]
fn split_keeps_only_first_separator() {
    let Args { args, cargo_args } = split_cargo_args(v(&["a", "--", "b", "--", "c"]));
    assert_eq!(args, v(&["a"]));
    assert_eq!(cargo_args, v(&["b", "--", "c"]));
}
