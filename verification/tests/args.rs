use shaken::maybe_exit;

#[test]
fn args_maybe_exit() {
    let tests = vec![
        (vec![true], true),
        (vec![false], false),
        (vec![true, false], true),
        (vec![true, true], true),
        (vec![false, false], false),
        (vec![true, false, false], true),
        (vec![true, true, true], true),
        (vec![false, false, false], false),
    ];

    for (input, output) in tests {
        assert_eq!(maybe_exit(input), output);
    }
}

#[test]
fn mod_maybe_exit() {
    let tests = vec![
        (vec![true], true),
        (vec![false], false),
        (vec![true, false], true),
        (vec![true, true], true),
        (vec![false, false], false),
        (vec![true, false, false], true),
        (vec![true, true, true], true),
        (vec![false, false, false], false),
    ];

    for (input, output) in tests {
        assert_eq!(maybe_exit(input), output);
    }
}
