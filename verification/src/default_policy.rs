use vstd::prelude::*;
use crate::error::Error;
use crate::parser::PolicyParser;
use crate::parser::parse_result_view;
use crate::parser::spec_parse_source;
use crate::policy::Policy;

verus! {

/// The embedded policy source for common, low-risk utilities: `cp` takes one
/// or more readable sources and one writeable destination and may resolve to
/// the usual system locations; `pwd` takes no positional arguments and
/// recognizes its two standard flags.
pub open spec fn default_policy_source_view() -> Seq<char> {
    r#"
define_program(
    program="cp",
    args=[ARG_RFILES, ARG_WFILE],
    system_path=["/bin/cp", "/usr/bin/cp"],
)

define_program(
    program="pwd",
    flags=["-L", "-P"],
)
"#@
}

/// The embedded default policy source text.
pub fn default_policy_source() -> (s: &'static str)
    ensures
        s@ == default_policy_source_view(),
{
    r#"
define_program(
    program="cp",
    args=[ARG_RFILES, ARG_WFILE],
    system_path=["/bin/cp", "/usr/bin/cp"],
)

define_program(
    program="pwd",
    flags=["-L", "-P"],
)
"#
}

/// Loads the embedded default policy set through the parser, exactly as any
/// other source would be loaded.  A parse failure here means the shipped
/// policy data itself is broken; the caller treats it as a fatal
/// initialization error.
pub fn get_default_policy() -> (r: Result<Policy, Error>)
    ensures
        parse_result_view(r) == spec_parse_source(default_policy_source_view(), "default"@),
        r matches Result::Ok(p) ==> p@.wf(),
{
    let parser = PolicyParser::new("default", default_policy_source());
    parser.parse()
}

} // verus!
