use icodex_execpolicy::ArgMatcher;
use icodex_execpolicy::ArgType;
use icodex_execpolicy::Error;
use icodex_execpolicy::ExecCall;
use icodex_execpolicy::MatchedArg;
use icodex_execpolicy::MatchedExec;
use icodex_execpolicy::MatchedFlag;
use icodex_execpolicy::Policy;
use icodex_execpolicy::PolicyParser;
use icodex_execpolicy::ValidExec;
use icodex_execpolicy::get_default_policy;

fn parse(source: &str) -> Policy {
    PolicyParser::new("props", source)
        .parse()
        .expect("policy source should parse")
}

// A program with no declared patterns and no declared flags accepts exactly
// the zero-argument call, with empty argument and flag lists.
#[test]
fn test_zero_pattern_zero_arg_match() {
    let policy = parse(r#"define_program(program="true")"#);
    let call = ExecCall::new("true", &[]);
    assert_eq!(
        Ok(MatchedExec::Match(ValidExec {
            program: "true".into(),
            ..Default::default()
        })),
        policy.check(&call)
    );
}

// Checking is a pure function: the same policy and call give the same
// result, call after call, and across separately loaded policies.
#[test]
fn test_check_deterministic() {
    let policy1 = get_default_policy().expect("failed to load default policy");
    let policy2 = get_default_policy().expect("failed to load default policy");
    let calls = [
        ExecCall::new("cp", &[]),
        ExecCall::new("cp", &["a"]),
        ExecCall::new("cp", &["a", "b"]),
        ExecCall::new("pwd", &["-L", "x"]),
        ExecCall::new("nonesuch", &[]),
    ];
    for call in calls.iter() {
        assert_eq!(policy1.check(call), policy1.check(call));
        assert_eq!(policy1.check(call), policy2.check(call));
    }
}

// A literal mismatch at position i is reported with the exact expected and
// actual values, no matter what stands at position i + 1.
#[test]
fn test_literal_mismatch_ignores_tail() {
    let policy = parse(r#"define_program(program="tool", args=["alpha", "beta"])"#);
    let expected = Err(Error::LiteralValueDidNotMatch {
        expected: "alpha".to_string(),
        actual: "gamma".to_string(),
    });
    let one = ExecCall::new("tool", &["gamma", "beta"]);
    let other = ExecCall::new("tool", &["gamma", "something-else-entirely"]);
    assert_eq!(expected, policy.check(&one));
    assert_eq!(expected, policy.check(&other));
}

// A vararg matcher with no reserved tail still must bind at least one
// argument: zero arguments is a vararg failure, one argument matches.
#[test]
fn test_vararg_alone_needs_one_arg() {
    let policy = parse(r#"define_program(program="cat", args=[ARG_RFILES])"#);
    let empty = ExecCall::new("cat", &[]);
    match policy.check(&empty) {
        Err(Error::VarargMatcherDidNotMatchAnything { program, .. }) => {
            assert_eq!(program, "cat");
        }
        other => panic!("expected vararg failure, got {:?}", other),
    }
    let one = ExecCall::new("cat", &["a"]);
    assert_eq!(
        Ok(MatchedExec::Match(ValidExec {
            program: "cat".into(),
            args: vec![MatchedArg {
                index: 0,
                arg_type: ArgType::ReadableFile,
                value: "a".to_string()
            }],
            ..Default::default()
        })),
        policy.check(&one)
    );
}

// Flags are extracted before positional matching begins, so a flag standing
// between two vararg-matched files is recognized and the files keep their
// original indices.
#[test]
fn test_flag_between_vararg_files() {
    let policy = parse(r#"define_program(program="cat", args=[ARG_RFILES], flags=["-n"])"#);
    let call = ExecCall::new("cat", &["a", "-n", "b"]);
    assert_eq!(
        Ok(MatchedExec::Match(ValidExec {
            program: "cat".into(),
            args: vec![
                MatchedArg {
                    index: 0,
                    arg_type: ArgType::ReadableFile,
                    value: "a".to_string()
                },
                MatchedArg {
                    index: 2,
                    arg_type: ArgType::ReadableFile,
                    value: "b".to_string()
                },
            ],
            flags: vec![MatchedFlag::new("-n")],
            ..Default::default()
        })),
        policy.check(&call)
    );
}

// A program without a policy entry is a distinguishable outcome, never a
// match.
#[test]
fn test_unknown_program() {
    let policy = get_default_policy().expect("failed to load default policy");
    let call = ExecCall::new("nonesuch", &["whatever"]);
    assert_eq!(
        Err(Error::NoPolicyForProgram {
            program: "nonesuch".to_string()
        }),
        policy.check(&call)
    );
}

// The constructor of a matched argument refuses a literal role whose value
// differs from the literal it claims.
#[test]
fn test_matched_arg_literal_mismatch() {
    assert_eq!(
        Err(Error::LiteralValueDidNotMatch {
            expected: "a".to_string(),
            actual: "b".to_string()
        }),
        MatchedArg::new(0, ArgType::Literal("a".to_string()), "b")
    );
}

// A call that runs out of arguments at a literal position reports the
// arguments it supplied and exactly the pattern entries still unmatched.
#[test]
fn test_not_enough_args_reports_remaining_patterns() {
    let policy = parse(r#"define_program(program="tool", args=["alpha", "beta"])"#);
    let call = ExecCall::new("tool", &["alpha"]);
    assert_eq!(
        Err(Error::NotEnoughArgs {
            program: "tool".to_string(),
            args: vec!["alpha".to_string()],
            arg_patterns: vec![ArgMatcher::Literal("beta".to_string())],
        }),
        policy.check(&call)
    );
}

// Flags are recorded in their order of appearance.
#[test]
fn test_flag_order_preserved() {
    let policy = get_default_policy().expect("failed to load default policy");
    let call = ExecCall::new("pwd", &["-P", "-L"]);
    assert_eq!(
        Ok(MatchedExec::Match(ValidExec {
            program: "pwd".into(),
            flags: vec![MatchedFlag::new("-P"), MatchedFlag::new("-L")],
            ..Default::default()
        })),
        policy.check(&call)
    );
}

// ExecCall::new copies the program and the arguments in order.
#[test]
fn test_exec_call_new_copies() {
    let call = ExecCall::new("cp", &["x", "y"]);
    assert_eq!(call.program, "cp".to_string());
    assert_eq!(call.args, vec!["x".to_string(), "y".to_string()]);
}
