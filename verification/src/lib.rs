//! Verified core of the OpenFang agent runtime.

pub mod codex_app_server;
pub mod decimal;
pub mod file_laws;
pub mod json;
pub mod json_laws;
pub mod json_text;
pub mod llm;
pub mod order;
pub mod path;
pub mod session_auth;
pub mod session_laws;
pub mod text;
pub mod text_laws;
pub mod trusted;
pub mod value_laws;
pub mod workspace;
pub mod workspace_laws;
