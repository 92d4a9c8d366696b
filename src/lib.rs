//! Process orchestration and agent-protocol adaptation for a portable IDE
//! shell: command lines for the agent CLI and the Python tools, the
//! negotiation of the agent's optional flags, the normalization of its
//! newline-delimited JSON output into display items, and word wrapping.
pub mod json;
pub mod text;
pub mod normalize;
pub mod options;
pub mod diagnostics;
pub mod session;
pub mod wrap;
pub mod paths;
pub mod argv;
pub mod process;
pub mod input;
