//! The agent's sandbox modes and approval policies, their command-line
//! names and the names a user may give them.
use vstd::prelude::*;
use crate::text::{lower_of, lowercase, same_text, trim, trim_text};

verus! {

/// What the library refuses before any process is started.
#[derive(Debug, Clone, Copy, PartialEq, Eq, Structural)]
pub enum CodexError {
    EmptyPrompt,
    EmptyPackage,
    EmptyTool,
    EmptyPackages,
    EmptyScript,
    NodeMissing,
    NpmMissing,
}

impl CodexError {
    pub open spec fn text(&self) -> Seq<char> {
        match self {
            CodexError::EmptyPrompt => "prompt ne doit pas etre vide"@,
            CodexError::EmptyPackage => "package ne doit pas etre vide"@,
            CodexError::EmptyTool => "tool ne doit pas etre vide"@,
            CodexError::EmptyPackages => "packages ne doit pas etre vide"@,
            CodexError::EmptyScript => "script ne doit pas etre vide"@,
            CodexError::NodeMissing => "node portable introuvable"@,
            CodexError::NpmMissing => "npm-cli.js introuvable"@,
        }
    }

    /// The message shown to the user for this error.
    pub fn message(&self) -> (r: &'static str)
        ensures
            r@ == self.text(),
    {
        match self {
            CodexError::EmptyPrompt => "prompt ne doit pas etre vide",
            CodexError::EmptyPackage => "package ne doit pas etre vide",
            CodexError::EmptyTool => "tool ne doit pas etre vide",
            CodexError::EmptyPackages => "packages ne doit pas etre vide",
            CodexError::EmptyScript => "script ne doit pas etre vide",
            CodexError::NodeMissing => "node portable introuvable",
            CodexError::NpmMissing => "npm-cli.js introuvable",
        }
    }
}

/// How much of the file system the agent may touch.
#[derive(Debug, Clone, Copy, PartialEq, Eq, Structural)]
pub enum CodexSandboxMode {
    ReadOnly,
    WorkspaceWrite,
    DangerFullAccess,
}

impl CodexSandboxMode {
    /// The value passed after `--sandbox`.
    pub open spec fn name(&self) -> Seq<char> {
        match self {
            CodexSandboxMode::ReadOnly => "read-only"@,
            CodexSandboxMode::WorkspaceWrite => "workspace-write"@,
            CodexSandboxMode::DangerFullAccess => "danger-full-access"@,
        }
    }

    pub fn as_str(&self) -> (r: &'static str)
        ensures
            r@ == self.name(),
    {
        match self {
            CodexSandboxMode::ReadOnly => "read-only",
            CodexSandboxMode::WorkspaceWrite => "workspace-write",
            CodexSandboxMode::DangerFullAccess => "danger-full-access",
        }
    }

    pub open spec fn label_text(&self) -> Seq<char> {
        match self {
            CodexSandboxMode::ReadOnly => "lecture seule"@,
            CodexSandboxMode::WorkspaceWrite => "agent (workspace)"@,
            CodexSandboxMode::DangerFullAccess => "danger (acces complet)"@,
        }
    }

    /// The name shown in the interface.
    pub fn label(&self) -> (r: &'static str)
        ensures
            r@ == self.label_text(),
    {
        match self {
            CodexSandboxMode::ReadOnly => "lecture seule",
            CodexSandboxMode::WorkspaceWrite => "agent (workspace)",
            CodexSandboxMode::DangerFullAccess => "danger (acces complet)",
        }
    }

    /// The next mode in the cycle read-only, workspace, full access.
    pub fn next(&self) -> (r: CodexSandboxMode)
        ensures
            r == match self {
                CodexSandboxMode::ReadOnly => CodexSandboxMode::WorkspaceWrite,
                CodexSandboxMode::WorkspaceWrite => CodexSandboxMode::DangerFullAccess,
                CodexSandboxMode::DangerFullAccess => CodexSandboxMode::ReadOnly,
            },
    {
        match self {
            CodexSandboxMode::ReadOnly => CodexSandboxMode::WorkspaceWrite,
            CodexSandboxMode::WorkspaceWrite => CodexSandboxMode::DangerFullAccess,
            CodexSandboxMode::DangerFullAccess => CodexSandboxMode::ReadOnly,
        }
    }
}

/// When the agent must ask before acting.
#[derive(Debug, Clone, Copy, PartialEq, Eq, Structural)]
pub enum CodexApprovalPolicy {
    Untrusted,
    OnFailure,
    OnRequest,
    Never,
}

impl CodexApprovalPolicy {
    /// The value passed after `--ask-for-approval`.
    pub open spec fn name(&self) -> Seq<char> {
        match self {
            CodexApprovalPolicy::Untrusted => "untrusted"@,
            CodexApprovalPolicy::OnFailure => "on-failure"@,
            CodexApprovalPolicy::OnRequest => "on-request"@,
            CodexApprovalPolicy::Never => "never"@,
        }
    }

    pub fn as_str(&self) -> (r: &'static str)
        ensures
            r@ == self.name(),
    {
        match self {
            CodexApprovalPolicy::Untrusted => "untrusted",
            CodexApprovalPolicy::OnFailure => "on-failure",
            CodexApprovalPolicy::OnRequest => "on-request",
            CodexApprovalPolicy::Never => "never",
        }
    }

    pub open spec fn label_text(&self) -> Seq<char> {
        match self {
            CodexApprovalPolicy::Untrusted => "non fiable"@,
            CodexApprovalPolicy::OnFailure => "sur echec"@,
            CodexApprovalPolicy::OnRequest => "sur demande"@,
            CodexApprovalPolicy::Never => "jamais"@,
        }
    }

    /// The name shown in the interface.
    pub fn label(&self) -> (r: &'static str)
        ensures
            r@ == self.label_text(),
    {
        match self {
            CodexApprovalPolicy::Untrusted => "non fiable",
            CodexApprovalPolicy::OnFailure => "sur echec",
            CodexApprovalPolicy::OnRequest => "sur demande",
            CodexApprovalPolicy::Never => "jamais",
        }
    }

    /// The next policy in the cycle on-request, on-failure, untrusted, never.
    pub fn next(&self) -> (r: CodexApprovalPolicy)
        ensures
            r == match self {
                CodexApprovalPolicy::OnRequest => CodexApprovalPolicy::OnFailure,
                CodexApprovalPolicy::OnFailure => CodexApprovalPolicy::Untrusted,
                CodexApprovalPolicy::Untrusted => CodexApprovalPolicy::Never,
                CodexApprovalPolicy::Never => CodexApprovalPolicy::OnRequest,
            },
    {
        match self {
            CodexApprovalPolicy::OnRequest => CodexApprovalPolicy::OnFailure,
            CodexApprovalPolicy::OnFailure => CodexApprovalPolicy::Untrusted,
            CodexApprovalPolicy::Untrusted => CodexApprovalPolicy::Never,
            CodexApprovalPolicy::Never => CodexApprovalPolicy::OnRequest,
        }
    }
}

/// The sandbox mode that a lowercased name stands for.
pub open spec fn sandbox_mode_named(n: Seq<char>) -> Option<CodexSandboxMode> {
    if n == "read-only"@ || n == "readonly"@ || n == "ro"@ {
        Some(CodexSandboxMode::ReadOnly)
    } else if n == "workspace-write"@ || n == "workspace"@ || n == "write"@ || n == "agent"@ {
        Some(CodexSandboxMode::WorkspaceWrite)
    } else if n == "danger-full-access"@ || n == "danger"@ || n == "full"@ || n == "full-access"@ {
        Some(CodexSandboxMode::DangerFullAccess)
    } else {
        None
    }
}

/// The approval policy that a lowercased name stands for.
pub open spec fn approval_policy_named(n: Seq<char>) -> Option<CodexApprovalPolicy> {
    if n == "untrusted"@ {
        Some(CodexApprovalPolicy::Untrusted)
    } else if n == "on-failure"@ || n == "onfailure"@ {
        Some(CodexApprovalPolicy::OnFailure)
    } else if n == "on-request"@ || n == "onrequest"@ {
        Some(CodexApprovalPolicy::OnRequest)
    } else if n == "never"@ || n == "none"@ || n == "off"@ {
        Some(CodexApprovalPolicy::Never)
    } else {
        None
    }
}

/// The sandbox mode named by an already trimmed and lowercased text.
pub fn sandbox_mode_from_name(n: &str) -> (r: Option<CodexSandboxMode>)
    ensures
        r == sandbox_mode_named(n@),
{
    if same_text(n, "read-only") || same_text(n, "readonly") || same_text(n, "ro") {
        Some(CodexSandboxMode::ReadOnly)
    } else if same_text(n, "workspace-write") || same_text(n, "workspace") || same_text(n, "write")
        || same_text(n, "agent") {
        Some(CodexSandboxMode::WorkspaceWrite)
    } else if same_text(n, "danger-full-access") || same_text(n, "danger") || same_text(n, "full")
        || same_text(n, "full-access") {
        Some(CodexSandboxMode::DangerFullAccess)
    } else {
        None
    }
}

/// The approval policy named by an already trimmed and lowercased text.
pub fn approval_policy_from_name(n: &str) -> (r: Option<CodexApprovalPolicy>)
    ensures
        r == approval_policy_named(n@),
{
    if same_text(n, "untrusted") {
        Some(CodexApprovalPolicy::Untrusted)
    } else if same_text(n, "on-failure") || same_text(n, "onfailure") {
        Some(CodexApprovalPolicy::OnFailure)
    } else if same_text(n, "on-request") || same_text(n, "onrequest") {
        Some(CodexApprovalPolicy::OnRequest)
    } else if same_text(n, "never") || same_text(n, "none") || same_text(n, "off") {
        Some(CodexApprovalPolicy::Never)
    } else {
        None
    }
}

/// Reads a sandbox mode as a user writes it: surrounding space and case
/// do not matter.
pub fn parse_codex_sandbox_mode(value: &str) -> (r: Option<CodexSandboxMode>)
    ensures
        r == sandbox_mode_named(lower_of(trim(value@))),
{
    let t = trim_text(value);
    let l = lowercase(t.as_str());
    sandbox_mode_from_name(l.as_str())
}

/// Reads an approval policy as a user writes it: surrounding space and case
/// do not matter.
pub fn parse_codex_approval_policy(value: &str) -> (r: Option<CodexApprovalPolicy>)
    ensures
        r == approval_policy_named(lower_of(trim(value@))),
{
    let t = trim_text(value);
    let l = lowercase(t.as_str());
    approval_policy_from_name(l.as_str())
}

} // verus!
