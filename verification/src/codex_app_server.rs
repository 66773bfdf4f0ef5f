//! OpenAI Codex app-server backend driver.
//!
//! The driver talks to `codex app-server --listen stdio://` in JSON lines.
//! Authentication is owned by the Codex CLI (`codex login`), so no OpenAI API
//! key is required or forwarded. What is decided stands here; the process is
//! run, and its lines are read and written, by the caller.

pub mod environment;
pub mod laws;
pub mod prompt;
pub mod prompt_laws;
pub mod protocol;
pub mod protocol_laws;
pub mod threads;
pub mod turn;
pub mod turn_laws;
pub mod value_laws;

use vstd::prelude::*;

use crate::text::lossy_text;
use crate::text::no_text;
use crate::text::option_text;
use crate::text::trim;
use crate::text::trim_text;
use crate::trusted::utf8_lossy;

use self::environment::filled;

verus! {

/// How long a turn may take, where nothing else is said.
pub const DEFAULT_MESSAGE_TIMEOUT_SECS: u64 = 300;

/// A driver backed by the local Codex app-server process.
#[derive(Debug)]
pub struct CodexAppServerDriver {
    pub cli_path: String,
    pub message_timeout_secs: u64,
}

/// What running `codex app-server --help` gave.
#[derive(Debug)]
pub struct CommandOutput {
    pub success: bool,
    pub stdout: Vec<u8>,
}

/// The help text of an app-server command that ran and succeeded.
pub open spec fn detected(output: Option<CommandOutput>) -> Option<Seq<char>> {
    match output {
        Some(o) => if o.success {
            Some(trim_text(lossy_text(o.stdout@)))
        } else {
            None
        },
        None => None,
    }
}

impl CodexAppServerDriver {
    /// Creates a driver. `cli_path` overrides the CLI binary; `codex` on PATH is
    /// the default.
    pub fn new(cli_path: Option<String>) -> (r: CodexAppServerDriver)
        ensures
            r.cli_path@ == match filled(option_text(cli_path)) {
                Some(path) => path,
                None => "codex"@,
            },
            r.message_timeout_secs == DEFAULT_MESSAGE_TIMEOUT_SECS,
    {
        let cli_path: String = match cli_path {
            Some(path) => if no_text(path.as_str()) {
                "codex".to_owned()
            } else {
                path
            },
            None => "codex".to_owned(),
        };
        CodexAppServerDriver { cli_path, message_timeout_secs: DEFAULT_MESSAGE_TIMEOUT_SECS }
    }

    /// Creates a driver with a turn timeout of its own.
    pub fn with_timeout(cli_path: Option<String>, timeout_secs: u64) -> (r: CodexAppServerDriver)
        ensures
            r.cli_path@ == match filled(option_text(cli_path)) {
                Some(path) => path,
                None => "codex"@,
            },
            r.message_timeout_secs == timeout_secs,
    {
        let mut driver: CodexAppServerDriver = CodexAppServerDriver::new(cli_path);
        driver.message_timeout_secs = timeout_secs;
        driver
    }

    /// The help text of the app-server command, where it is available. `output`
    /// is what running it gave, none where it could not be run.
    pub fn detect(output: &Option<CommandOutput>) -> (r: Option<String>)
        ensures
            option_text(r) == detected(*output),
    {
        match output {
            Some(o) => if o.success {
                let text: String = utf8_lossy(o.stdout.as_slice());
                Some(trim(text.as_str()).to_owned())
            } else {
                None
            },
            None => None,
        }
    }
}

/// Whether the Codex app-server is available, by what running its help gave.
pub fn codex_app_server_available(output: &Option<CommandOutput>) -> (r: bool)
    ensures
        r == (detected(*output) is Some),
{
    CodexAppServerDriver::detect(output).is_some()
}

} // verus!
