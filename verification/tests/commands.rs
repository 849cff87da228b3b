use funscript_transform::args::{Arguments, Command, PendingOp};

fn args(tokens: &[&str]) -> Arguments {
    Arguments {
        input: String::from("in.funscript"),
        output: String::from("out.funscript"),
        pretty: false,
        log: None,
        commands: tokens.iter().map(|t| String::from(*t)).collect(),
    }
}

#[test]
fn commands_parses_every_operation() {
    let r = args(&["normalize", "scale-linear", "2.5", "scale-sqrt", "shorten", "0.5"])
        .commands()
        .unwrap();
    assert_eq!(
        r,
        vec![
            Command::Normalize,
            Command::ScaleLinear { scale: (2.5f64).to_bits() },
            Command::ScaleSqrt,
            Command::Shorten { diff: (0.5f64).to_bits() },
        ]
    );
}

#[test]
fn commands_match_case_insensitively() {
    let r = args(&["NORMALIZE", "Scale-Sqrt"]).commands().unwrap();
    assert_eq!(r, vec![Command::Normalize, Command::ScaleSqrt]);
}

#[test]
fn commands_parses_negative_parameter() {
    let r = args(&["scale-linear", "-0.5"]).commands().unwrap();
    assert_eq!(r, vec![Command::ScaleLinear { scale: (-0.5f64).to_bits() }]);
}

#[test]
fn commands_reports_malformed_parameter_with_token_and_operation() {
    let e = args(&["scale-linear", "ABC"]).commands().unwrap_err();
    assert_eq!(e.token, "ABC");
    assert_eq!(e.pending, PendingOp::ScaleLinear);

    let e = args(&["shorten", "1.2.3"]).commands().unwrap_err();
    assert_eq!(e.token, "1.2.3");
    assert_eq!(e.pending, PendingOp::Shorten);
}

#[test]
fn commands_ignores_unknown_tokens_without_pending_operation() {
    let r = args(&["bogus", "normalize"]).commands().unwrap();
    assert_eq!(r, vec![Command::Normalize]);
}

#[test]
fn commands_empty_token_list_yields_empty_chain() {
    let r = args(&[]).commands().unwrap();
    assert_eq!(r, vec![]);
}

#[test]
fn commands_pending_operation_without_parameter_yields_nothing() {
    let r = args(&["scale-linear"]).commands().unwrap();
    assert_eq!(r, vec![]);
}

#[test]
fn commands_pending_operation_persists_over_several_parameters() {
    // The pending state is never cleared: every further numeric token
    // yields one more command of the same operation.
    let r = args(&["scale-linear", "2", "3"]).commands().unwrap();
    assert_eq!(
        r,
        vec![
            Command::ScaleLinear { scale: (2.0f64).to_bits() },
            Command::ScaleLinear { scale: (3.0f64).to_bits() },
        ]
    );
}

#[test]
fn commands_keyword_keeps_pending_operation() {
    // An operation name is matched even while a parameter is awaited, and
    // the pending operation still takes the next numeric token.
    let r = args(&["shorten", "normalize", "5"]).commands().unwrap();
    assert_eq!(
        r,
        vec![Command::Normalize, Command::Shorten { diff: (5.0f64).to_bits() }]
    );
}
