use vstd::prelude::*;

verus! {

/// Viewing a sequence of strings elementwise as character sequences.
pub open spec fn strings_view(s: Seq<String>) -> Seq<Seq<char>> {
    Seq::new(s.len(), |i: int| s[i]@)
}

/// A candidate program invocation submitted for a safety decision: the
/// program name plus the ordered argument strings as they would appear on a
/// command line, excluding argv[0].  Immutable once built.
#[derive(Debug, PartialEq, Eq)]
pub struct ExecCall {
    pub program: String,
    pub args: Vec<String>,
}

/// Mathematical value of an `ExecCall`.
pub struct ExecCallView {
    pub program: Seq<char>,
    pub args: Seq<Seq<char>>,
}

impl View for ExecCall {
    type V = ExecCallView;

    open spec fn view(&self) -> ExecCallView {
        ExecCallView { program: self.program@, args: strings_view(self.args@) }
    }
}

impl ExecCall {
    /// Builds a call from borrowed string slices, copying each argument in
    /// order.
    pub fn new(program: &str, args: &[&str]) -> (c: ExecCall)
        ensures
            c@.program == program@,
            c@.args.len() == args@.len(),
            forall|i: int| 0 <= i < args@.len() ==> c@.args[i] == args@[i]@,
    {
        let mut owned: Vec<String> = Vec::new();
        let mut i: usize = 0;
        while i < args.len()
            invariant
                i <= args@.len(),
                owned@.len() == i,
                forall|j: int| 0 <= j < i ==> owned@[j]@ == args@[j]@,
            decreases args@.len() - i,
        {
            owned.push(args[i].to_owned());
            i = i + 1;
        }
        ExecCall { program: program.to_owned(), args: owned }
    }
}

} // verus!
