use entrypoint::cli::{is_kill_arg, is_restart_arg, strip_control_args};

#[test]
fn recognizes_restart_flags() {
    assert!(is_restart_arg("-_R"));
    assert!(is_restart_arg("--_RESTART"));
    assert!(!is_restart_arg("-r"));
    assert!(!is_restart_arg("--restart"));
    assert!(!is_restart_arg(""));
}

#[test]
fn recognizes_kill_flags() {
    assert!(is_kill_arg("-_K"));
    assert!(is_kill_arg("--_KILL"));
    assert!(!is_kill_arg("-k"));
    assert!(!is_kill_arg("-_R"));
}

#[test]
fn strips_control_flags_and_keeps_order() {
    let argv = vec![
        "prog".to_string(),
        "a".to_string(),
        "-_R".to_string(),
        "b".to_string(),
        "--_KILL".to_string(),
    ];
    let r = strip_control_args(argv);
    assert_eq!(r.argv, vec!["prog".to_string(), "a".to_string(), "b".to_string()]);
    assert!(r.restart);
    assert!(r.kill);
}

#[test]
fn no_control_flags_means_no_change() {
    let argv = vec!["prog".to_string(), "x".to_string()];
    let r = strip_control_args(argv);
    assert_eq!(r.argv, vec!["prog".to_string(), "x".to_string()]);
    assert!(!r.restart);
    assert!(!r.kill);
}
