use vstd::prelude::*;
use crate::arg_matcher::ArgType;
use crate::arg_matcher::ArgTypeView;
use crate::error::Error;
use crate::exec_call::strings_view;

verus! {

/// One successfully matched positional argument: its zero-based position in
/// the original argument list, the role it resolved to, and the original
/// string value.
#[derive(Debug, PartialEq, Eq)]
pub struct MatchedArg {
    pub index: usize,
    pub arg_type: ArgType,
    pub value: String,
}

/// Mathematical value of a `MatchedArg`.
pub struct MatchedArgView {
    pub index: int,
    pub arg_type: ArgTypeView,
    pub value: Seq<char>,
}

impl View for MatchedArg {
    type V = MatchedArgView;

    open spec fn view(&self) -> MatchedArgView {
        MatchedArgView { index: self.index as int, arg_type: self.arg_type@, value: self.value@ }
    }
}

/// Viewing a sequence of matched arguments elementwise.
pub open spec fn matched_args_view(s: Seq<MatchedArg>) -> Seq<MatchedArgView> {
    Seq::new(s.len(), |i: int| s[i]@)
}

impl MatchedArg {
    /// Builds a matched argument, enforcing that a `Literal` role carries
    /// exactly the literal it claims to have matched; any other role accepts
    /// the value as given.
    pub fn new(index: usize, arg_type: ArgType, value: &str) -> (r: Result<MatchedArg, Error>)
        ensures
            r is Err <==> (arg_type@ matches ArgTypeView::Literal(s) && s != value@),
            r matches Ok(m) ==> m@ == (MatchedArgView {
                index: index as int,
                arg_type: arg_type@,
                value: value@,
            }),
            r matches Err(e) ==> (arg_type@ matches ArgTypeView::Literal(s) && e@
                == (crate::error::ErrorView::LiteralValueDidNotMatch {
                expected: s,
                actual: value@,
            })),
    {
        let mismatch = match &arg_type {
            ArgType::Literal(expected) => {
                if *expected == value.to_owned() {
                    None
                } else {
                    Some(expected.clone())
                }
            },
            ArgType::ReadableFile => None,
            ArgType::WriteableFile => None,
        };
        match mismatch {
            Some(expected) => Err(
                Error::LiteralValueDidNotMatch { expected, actual: value.to_owned() },
            ),
            None => Ok(MatchedArg { index, arg_type, value: value.to_owned() }),
        }
    }
}

/// One recognized flag token, recorded as it appeared in the call.
#[derive(Debug, PartialEq, Eq)]
pub struct MatchedFlag {
    pub flag: String,
}

/// Mathematical value of a `MatchedFlag`.
pub struct MatchedFlagView {
    pub flag: Seq<char>,
}

impl View for MatchedFlag {
    type V = MatchedFlagView;

    open spec fn view(&self) -> MatchedFlagView {
        MatchedFlagView { flag: self.flag@ }
    }
}

/// Viewing a sequence of matched flags elementwise.
pub open spec fn matched_flags_seq_view(s: Seq<MatchedFlag>) -> Seq<MatchedFlagView> {
    Seq::new(s.len(), |i: int| s[i]@)
}

impl MatchedFlag {
    /// Records the given flag token.
    pub fn new(flag: &str) -> (r: MatchedFlag)
        ensures
            r@.flag == flag@,
    {
        MatchedFlag { flag: flag.to_owned() }
    }
}

/// An argument remembered by position and value, as reported for trailing
/// arguments that nothing in the pattern accounts for.
#[derive(Debug, PartialEq, Eq)]
pub struct PositionalArg {
    pub index: usize,
    pub value: String,
}

/// Mathematical value of a `PositionalArg`.
pub struct PositionalArgView {
    pub index: int,
    pub value: Seq<char>,
}

impl View for PositionalArg {
    type V = PositionalArgView;

    open spec fn view(&self) -> PositionalArgView {
        PositionalArgView { index: self.index as int, value: self.value@ }
    }
}

/// Viewing a sequence of positional arguments elementwise.
pub open spec fn positional_seq_view(s: Seq<PositionalArg>) -> Seq<PositionalArgView> {
    Seq::new(s.len(), |i: int| s[i]@)
}

/// A fully attributed, safe invocation: every argument is accounted for as a
/// matched positional argument or a recognized flag, and the program's
/// acceptable resolved executable paths are carried through for the caller to
/// verify against the binary that would actually run.
#[derive(Debug, PartialEq, Eq)]
pub struct ValidExec {
    pub program: String,
    pub args: Vec<MatchedArg>,
    pub flags: Vec<MatchedFlag>,
    pub system_path: Vec<String>,
}

/// Mathematical value of a `ValidExec`.
pub struct ValidExecView {
    pub program: Seq<char>,
    pub args: Seq<MatchedArgView>,
    pub flags: Seq<MatchedFlagView>,
    pub system_path: Seq<Seq<char>>,
}

impl View for ValidExec {
    type V = ValidExecView;

    open spec fn view(&self) -> ValidExecView {
        ValidExecView {
            program: self.program@,
            args: matched_args_view(self.args@),
            flags: matched_flags_seq_view(self.flags@),
            system_path: strings_view(self.system_path@),
        }
    }
}

impl Default for ValidExec {
    /// The zero-argument safe call: everything empty.
    fn default() -> (r: ValidExec)
        ensures
            r@.program == Seq::<char>::empty(),
            r@.args == Seq::<MatchedArgView>::empty(),
            r@.flags == Seq::<MatchedFlagView>::empty(),
            r@.system_path == Seq::<Seq<char>>::empty(),
    {
        let r = ValidExec {
            program: String::new(),
            args: Vec::new(),
            flags: Vec::new(),
            system_path: Vec::new(),
        };
        proof {
            assert(r@.args =~= Seq::<MatchedArgView>::empty());
            assert(r@.flags =~= Seq::<MatchedFlagView>::empty());
            assert(r@.system_path =~= Seq::<Seq<char>>::empty());
        }
        r
    }
}

impl ValidExec {
    /// Builds a fully attributed call with no flags, copying the resolved
    /// executable paths in order.
    pub fn new(program: &str, args: Vec<MatchedArg>, system_path: &[&str]) -> (r: ValidExec)
        ensures
            r@.program == program@,
            r@.args == matched_args_view(args@),
            r@.flags == Seq::<MatchedFlagView>::empty(),
            r@.system_path.len() == system_path@.len(),
            forall|i: int| 0 <= i < system_path@.len() ==> r@.system_path[i] == system_path@[i]@,
    {
        let mut paths: Vec<String> = Vec::new();
        let mut i: usize = 0;
        while i < system_path.len()
            invariant
                i <= system_path@.len(),
                paths@.len() == i,
                forall|j: int| 0 <= j < i ==> paths@[j]@ == system_path@[j]@,
            decreases system_path@.len() - i,
        {
            paths.push(system_path[i].to_owned());
            i = i + 1;
        }
        let r = ValidExec { program: program.to_owned(), args, flags: Vec::new(), system_path: paths };
        proof {
            assert(r@.flags =~= Seq::<MatchedFlagView>::empty());
        }
        r
    }
}

/// The result envelope of a successful check: the call fully matched and is
/// established safe.
#[derive(Debug, PartialEq, Eq)]
pub enum MatchedExec {
    Match(ValidExec),
}

/// Mathematical value of a `MatchedExec`.
pub enum MatchedExecView {
    Match(ValidExecView),
}

impl View for MatchedExec {
    type V = MatchedExecView;

    open spec fn view(&self) -> MatchedExecView {
        match self {
            MatchedExec::Match(v) => MatchedExecView::Match(v@),
        }
    }
}

} // verus!
