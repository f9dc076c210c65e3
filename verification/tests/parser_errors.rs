use icodex_execpolicy::Error;
use icodex_execpolicy::ExecCall;
use icodex_execpolicy::PolicyParser;
use icodex_execpolicy::get_default_policy;

// A character that can start no token is reported at its exact position,
// under the name supplied for the source.
#[test]
fn test_parse_bad_character() {
    let parser = PolicyParser::new("bad", "!");
    assert_eq!(
        Err(Error::ParseError {
            source_name: "bad".to_string(),
            position: 0
        }),
        parser.parse()
    );
}

// An unknown matcher name inside args=[...] is a parse error, reported at
// the character position where the name starts.
#[test]
fn test_parse_unknown_matcher() {
    let parser = PolicyParser::new("t", r#"define_program(program="x", args=[ARG_BOGUS])"#);
    assert_eq!(
        Err(Error::ParseError {
            source_name: "t".to_string(),
            position: 34
        }),
        parser.parse()
    );
}

// A string left open is a parse error, reported at its opening quote.
#[test]
fn test_parse_unterminated_string() {
    let parser = PolicyParser::new("t", r#"define_program(program="x"#);
    assert_eq!(
        Err(Error::ParseError {
            source_name: "t".to_string(),
            position: 23
        }),
        parser.parse()
    );
}

// Declaring the same program twice is a parse error.
#[test]
fn test_parse_duplicate_program() {
    let source = r#"
define_program(program="x")
define_program(program="x")
"#;
    let parser = PolicyParser::new("t", source);
    match parser.parse() {
        Err(Error::ParseError { source_name, .. }) => assert_eq!(source_name, "t"),
        other => panic!("expected a parse error, got {:?}", other),
    }
}

// A declaration without a program field is a parse error.
#[test]
fn test_parse_missing_program_field() {
    let parser = PolicyParser::new("t", r#"define_program(args=[ARG_RFILE])"#);
    match parser.parse() {
        Err(Error::ParseError { source_name, .. }) => assert_eq!(source_name, "t"),
        other => panic!("expected a parse error, got {:?}", other),
    }
}

// An empty source parses to a policy that knows no program.
#[test]
fn test_parse_empty_source() {
    let policy = PolicyParser::new("empty", "")
        .parse()
        .expect("empty source should parse");
    assert_eq!(
        Err(Error::NoPolicyForProgram {
            program: "pwd".to_string()
        }),
        policy.check(&ExecCall::new("pwd", &[]))
    );
}

// The embedded default policy set always loads, and loading is
// deterministic.
#[test]
fn test_default_policy_loads() {
    let one = get_default_policy().expect("failed to load default policy");
    let two = get_default_policy().expect("failed to load default policy");
    assert_eq!(one, two);
}
