use vstd::prelude::*;

verus! {

/// Tool definition offered to the model provider for running shell
/// commands.  Only the variant that the surrounding program hands out is
/// modeled here.
#[derive(Debug, Clone, Copy, PartialEq, Eq, Structural)]
pub enum OpenAiTool {
    /// The provider-native local shell tool.
    LocalShell,
}

/// The confinement regime a shell command would run under when it is not
/// provably safe to execute directly.
#[derive(Debug, Clone, Copy, PartialEq, Eq, Structural)]
pub enum SandboxPolicy {
    /// No confinement at all.
    DangerFullAccess,
    /// The command may read but not write.
    ReadOnly,
    /// The command may write inside the workspace only.
    WorkspaceWrite,
}

/// The shell tool handed to the provider when no sandbox is requested.
pub fn create_shell_tool() -> (t: OpenAiTool)
    ensures
        t == OpenAiTool::LocalShell,
{
    OpenAiTool::LocalShell
}

/// The shell tool handed to the provider when commands are to run under the
/// given sandbox policy.  The tool definition itself does not vary with the
/// policy; confinement is applied by the runtime that executes the command.
pub fn create_shell_tool_for_sandbox(policy: &SandboxPolicy) -> (t: OpenAiTool)
    ensures
        t == OpenAiTool::LocalShell,
{
    let _ = policy;
    OpenAiTool::LocalShell
}

} // verus!
