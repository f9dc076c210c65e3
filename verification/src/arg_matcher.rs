use vstd::prelude::*;

verus! {

/// One way a single positional slot (or a run of slots) in a program's
/// argument pattern can be validated.  Matchers are pure tags: they carry no
/// behavior beyond identity, and the file-role matchers make an advisory
/// claim only — the engine never touches the filesystem.
#[derive(Debug, PartialEq, Eq)]
pub enum ArgMatcher {
    /// Matches exactly the stored value, compared byte for byte with no
    /// normalization of case, whitespace, or path form.
    Literal(String),
    /// Matches one argument naming a file the program intends to read.
    ReadableFile,
    /// Matches one argument naming a file the program intends to write.
    WriteableFile,
    /// Vararg form: greedily matches a run of arguments naming files to be
    /// read, leaving exactly the slots that the matchers after it require.
    ReadableFiles,
    /// Matches exactly the stored flag token.
    Flag(String),
}

/// Mathematical value of an `ArgMatcher`, with strings as character sequences.
pub enum ArgMatcherView {
    Literal(Seq<char>),
    ReadableFile,
    WriteableFile,
    ReadableFiles,
    Flag(Seq<char>),
}

impl View for ArgMatcher {
    type V = ArgMatcherView;

    open spec fn view(&self) -> ArgMatcherView {
        match self {
            ArgMatcher::Literal(s) => ArgMatcherView::Literal(s@),
            ArgMatcher::ReadableFile => ArgMatcherView::ReadableFile,
            ArgMatcher::WriteableFile => ArgMatcherView::WriteableFile,
            ArgMatcher::ReadableFiles => ArgMatcherView::ReadableFiles,
            ArgMatcher::Flag(s) => ArgMatcherView::Flag(s@),
        }
    }
}

impl ArgMatcher {
    /// Structural copy whose view equals this matcher's view.
    pub fn duplicate(&self) -> (m: ArgMatcher)
        ensures
            m@ == self@,
    {
        match self {
            ArgMatcher::Literal(s) => ArgMatcher::Literal(s.clone()),
            ArgMatcher::ReadableFile => ArgMatcher::ReadableFile,
            ArgMatcher::WriteableFile => ArgMatcher::WriteableFile,
            ArgMatcher::ReadableFiles => ArgMatcher::ReadableFiles,
            ArgMatcher::Flag(s) => ArgMatcher::Flag(s.clone()),
        }
    }
}

/// Viewing a sequence of matchers elementwise.
pub open spec fn matchers_view(s: Seq<ArgMatcher>) -> Seq<ArgMatcherView> {
    Seq::new(s.len(), |i: int| s[i]@)
}

/// The resolved role of one successfully matched positional argument.
/// This is the matcher vocabulary restricted to what a single argument can
/// resolve to (a vararg run resolves each of its arguments to `ReadableFile`).
#[derive(Debug, PartialEq, Eq)]
pub enum ArgType {
    Literal(String),
    ReadableFile,
    WriteableFile,
}

/// Mathematical value of an `ArgType`.
pub enum ArgTypeView {
    Literal(Seq<char>),
    ReadableFile,
    WriteableFile,
}

impl View for ArgType {
    type V = ArgTypeView;

    open spec fn view(&self) -> ArgTypeView {
        match self {
            ArgType::Literal(s) => ArgTypeView::Literal(s@),
            ArgType::ReadableFile => ArgTypeView::ReadableFile,
            ArgType::WriteableFile => ArgTypeView::WriteableFile,
        }
    }
}

} // verus!
