use icodex_execpolicy::Codex;
use icodex_execpolicy::CodexConversation;
use icodex_execpolicy::OpenAiTool;
use icodex_execpolicy::SandboxPolicy;
use icodex_execpolicy::create_shell_tool;
use icodex_execpolicy::create_shell_tool_for_sandbox;

#[test]
fn test_create_shell_tool() {
    assert_eq!(OpenAiTool::LocalShell, create_shell_tool());
}

#[test]
fn test_create_shell_tool_for_sandbox() {
    assert_eq!(
        OpenAiTool::LocalShell,
        create_shell_tool_for_sandbox(&SandboxPolicy::ReadOnly)
    );
    assert_eq!(
        OpenAiTool::LocalShell,
        create_shell_tool_for_sandbox(&SandboxPolicy::WorkspaceWrite)
    );
    assert_eq!(
        OpenAiTool::LocalShell,
        create_shell_tool_for_sandbox(&SandboxPolicy::DangerFullAccess)
    );
}

#[test]
fn test_conversation_wraps_engine() {
    let engine = Codex {
        conversation_id: 7,
    };
    let _conversation = CodexConversation::new(engine);
}
