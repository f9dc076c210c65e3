use vstd::prelude::*;
use crate::arg_matcher::ArgMatcher;
use crate::arg_matcher::ArgMatcherView;
use crate::arg_matcher::matchers_view;
use crate::exec_call::strings_view;
use crate::valid_exec::PositionalArg;
use crate::valid_exec::PositionalArgView;
use crate::valid_exec::positional_seq_view;

verus! {

/// Everything that can go wrong while loading a policy or checking a call.
/// All variants are plain data, always returned to the caller as values and
/// never recovered inside the engine.
#[derive(Debug, PartialEq, Eq)]
pub enum Error {
    /// The policy source could not be parsed; carries the identifier the
    /// caller supplied for the source and the character position of the
    /// offending text.
    ParseError { source_name: String, position: usize },
    /// No policy entry exists for the call's program.  This is the
    /// distinguishable "no applicable policy" outcome: the caller must treat
    /// the call as not provably safe, never as accepted.
    NoPolicyForProgram { program: String },
    /// The call supplies fewer arguments than the pattern requires at the
    /// point reached: carries the program, the arguments supplied, and the
    /// pattern entries still unmatched.
    NotEnoughArgs { program: String, args: Vec<String>, arg_patterns: Vec<ArgMatcher> },
    /// A vararg matcher was reached but zero arguments were available for it
    /// after reserving the trailing slots.
    VarargMatcherDidNotMatchAnything { program: String, matcher: ArgMatcher },
    /// A literal pattern position did not equal the supplied argument.
    LiteralValueDidNotMatch { expected: String, actual: String },
    /// Trailing arguments remain after the pattern and flag set are
    /// exhausted, each listed with its original index and value.
    UnexpectedArguments { program: String, args: Vec<PositionalArg> },
}

/// Mathematical value of an `Error`.
pub enum ErrorView {
    ParseError { source_name: Seq<char>, position: int },
    NoPolicyForProgram { program: Seq<char> },
    NotEnoughArgs { program: Seq<char>, args: Seq<Seq<char>>, arg_patterns: Seq<ArgMatcherView> },
    VarargMatcherDidNotMatchAnything { program: Seq<char>, matcher: ArgMatcherView },
    LiteralValueDidNotMatch { expected: Seq<char>, actual: Seq<char> },
    UnexpectedArguments { program: Seq<char>, args: Seq<PositionalArgView> },
}

impl View for Error {
    type V = ErrorView;

    open spec fn view(&self) -> ErrorView {
        match self {
            Error::ParseError { source_name, position } => ErrorView::ParseError {
                source_name: source_name@,
                position: *position as int,
            },
            Error::NoPolicyForProgram { program } => ErrorView::NoPolicyForProgram {
                program: program@,
            },
            Error::NotEnoughArgs { program, args, arg_patterns } => ErrorView::NotEnoughArgs {
                program: program@,
                args: strings_view(args@),
                arg_patterns: matchers_view(arg_patterns@),
            },
            Error::VarargMatcherDidNotMatchAnything { program, matcher } => (
            ErrorView::VarargMatcherDidNotMatchAnything { program: program@, matcher: matcher@ }),
            Error::LiteralValueDidNotMatch { expected, actual } => (
            ErrorView::LiteralValueDidNotMatch { expected: expected@, actual: actual@ }),
            Error::UnexpectedArguments { program, args } => ErrorView::UnexpectedArguments {
                program: program@,
                args: positional_seq_view(args@),
            },
        }
    }
}

} // verus!
