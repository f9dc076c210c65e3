//! Execution-policy engine: decides whether a concrete program invocation is
//! provably accounted for by a declarative per-program policy, and if not,
//! reports precisely why.
//!
//! A `Policy` maps program names to argument patterns (literals, file roles,
//! a greedy vararg with a reserved tail) and recognized flags.  `Policy::check`
//! walks a call's arguments against the pattern and either fully attributes
//! every argument (`MatchedExec::Match`) or returns a typed `Error`.  Policies
//! are written in a small declarative source format read by `PolicyParser`;
//! `get_default_policy` loads the embedded set for common utilities.

mod arg_matcher;
mod conversation;
mod default_policy;
mod error;
mod exec_call;
mod parser;
mod policy;
mod tools;
mod valid_exec;

pub use arg_matcher::ArgMatcher;
pub use arg_matcher::ArgMatcherView;
pub use arg_matcher::ArgType;
pub use arg_matcher::ArgTypeView;
pub use conversation::Codex;
pub use conversation::CodexConversation;
pub use default_policy::get_default_policy;
pub use error::Error;
pub use error::ErrorView;
pub use exec_call::ExecCall;
pub use exec_call::ExecCallView;
pub use parser::PolicyParser;
pub use policy::Policy;
pub use policy::PolicyView;
pub use policy::ProgramPolicy;
pub use policy::ProgramPolicyView;
pub use tools::create_shell_tool;
pub use tools::create_shell_tool_for_sandbox;
pub use tools::OpenAiTool;
pub use tools::SandboxPolicy;
pub use valid_exec::MatchedArg;
pub use valid_exec::MatchedArgView;
pub use valid_exec::MatchedExec;
pub use valid_exec::MatchedExecView;
pub use valid_exec::MatchedFlag;
pub use valid_exec::MatchedFlagView;
pub use valid_exec::PositionalArg;
pub use valid_exec::PositionalArgView;
pub use valid_exec::ValidExec;
pub use valid_exec::ValidExecView;
