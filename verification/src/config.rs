//! The configuration of the server and its validation.

use vstd::prelude::*;
use crate::error::Error;
use crate::pattern::{check_regex, is_regex};
use crate::text::{is_blank, is_blank_chars, str_eq, to_chars};

verus! {

/// The whole configuration.
#[derive(Debug, Clone)]
pub struct ServerConfig {
    /// Settings of the dispatcher.
    pub server: ServerSettings,
    /// What may be run.
    pub security: SecuritySettings,
    /// Tuning of snapshots and waits.
    pub detection: DetectionSettings,
    /// Defaults for new sessions.
    pub terminal: TerminalSettings,
}

/// Settings of the dispatcher.
#[derive(Debug, Clone)]
pub struct ServerSettings {
    /// How the server talks to its clients.
    pub transport: String,
    /// How many sessions may exist at a time.
    pub max_sessions: usize,
    /// After how many seconds a session times out.
    pub session_timeout: u64,
    /// How much is logged.
    pub log_level: String,
}

/// What may be run.
#[derive(Debug, Clone)]
pub struct SecuritySettings {
    /// The commands that may be run; every command where the list is empty.
    pub allowed_commands: Vec<String>,
    /// How sessions are confined.
    pub sandbox_mode: String,
}

/// Tuning of snapshots and waits.
#[derive(Debug, Clone)]
pub struct DetectionSettings {
    /// How long no output must have come for the terminal to count as idle, in
    /// milliseconds.
    pub idle_threshold_ms: u64,
    /// How long to wait for idleness at most, in milliseconds.
    pub max_idle_wait_ms: u64,
    /// Patterns of the user's own.
    pub custom_patterns: Vec<CustomPatternConfig>,
}

/// A pattern of the user's own.
#[derive(Debug, Clone)]
pub struct CustomPatternConfig {
    /// Name of the pattern.
    pub name: String,
    /// The regular expression.
    pub pattern: String,
    /// The type of element that a match makes.
    pub element_type: String,
    /// The groups of the expression that are kept.
    pub captures: Vec<CaptureConfig>,
}

/// A group of a pattern that is kept.
#[derive(Debug, Clone)]
pub struct CaptureConfig {
    /// Name of the group.
    pub name: String,
}

/// Defaults for new sessions.
#[derive(Debug, Clone)]
pub struct TerminalSettings {
    /// Number of rows.
    pub default_rows: u16,
    /// Number of columns.
    pub default_cols: u16,
    /// How many lines of history are kept.
    pub scrollback_lines: usize,
    /// The terminal type announced to programs.
    pub term: String,
}

impl Default for ServerSettings {
    /// Standard input and output, ten sessions, an hour, `info`.
    fn default() -> (s: Self)
        ensures
            s.transport@ == "stdio"@,
            s.max_sessions == 10,
            s.session_timeout == 3600,
            s.log_level@ == "info"@,
    {
        ServerSettings {
            transport: String::from_str("stdio"),
            max_sessions: 10,
            session_timeout: 3600,
            log_level: String::from_str("info"),
        }
    }
}

impl Default for SecuritySettings {
    /// Every command allowed, no sandbox.
    fn default() -> (s: Self)
        ensures
            s.allowed_commands@.len() == 0,
            s.sandbox_mode@ == "none"@,
    {
        SecuritySettings { allowed_commands: Vec::new(), sandbox_mode: String::from_str("none") }
    }
}

impl Default for DetectionSettings {
    /// A hundred milliseconds of quiet, five seconds of waiting, no patterns.
    fn default() -> (s: Self)
        ensures
            s.idle_threshold_ms == 100,
            s.max_idle_wait_ms == 5000,
            s.custom_patterns@.len() == 0,
    {
        DetectionSettings {
            idle_threshold_ms: 100,
            max_idle_wait_ms: 5000,
            custom_patterns: Vec::new(),
        }
    }
}

impl Default for TerminalSettings {
    /// 24 by 80, ten thousand lines of history, `xterm-256color`.
    fn default() -> (s: Self)
        ensures
            s.default_rows == 24,
            s.default_cols == 80,
            s.scrollback_lines == 10000,
            s.term@ == "xterm-256color"@,
    {
        TerminalSettings {
            default_rows: 24,
            default_cols: 80,
            scrollback_lines: 10000,
            term: String::from_str("xterm-256color"),
        }
    }
}

impl Default for ServerConfig {
    /// The default of every part.
    fn default() -> (c: Self)
        ensures
            c.server.max_sessions == 10,
            c.server.transport@ == "stdio"@,
            c.terminal.default_rows == 24,
            c.terminal.default_cols == 80,
            c.security.allowed_commands@.len() == 0,
            c.detection.custom_patterns@.len() == 0,
            c.valid(),
    {
        ServerConfig {
            server: ServerSettings::default(),
            security: SecuritySettings::default(),
            detection: DetectionSettings::default(),
            terminal: TerminalSettings::default(),
        }
    }
}

impl SecuritySettings {
    /// Whether `command` may be run: every command where the list is empty, else the
    /// commands of the list.
    pub open spec fn allows(&self, command: Seq<char>) -> bool {
        self.allowed_commands@.len() == 0 || exists|i: int|
            0 <= i < self.allowed_commands@.len() && (#[trigger] self.allowed_commands@[i])@
                == command
    }

    /// Whether `command` may be run.
    pub fn is_command_allowed(&self, command: &str) -> (b: bool)
        ensures
            b == self.allows(command@),
    {
        if self.allowed_commands.len() == 0 {
            return true;
        }
        let mut i: usize = 0;
        while i < self.allowed_commands.len()
            invariant
                i <= self.allowed_commands.len(),
                forall|k: int| 0 <= k < i ==> (#[trigger] self.allowed_commands@[k])@ != command@,
            decreases self.allowed_commands.len() - i,
        {
            if str_eq(self.allowed_commands[i].as_str(), command) {
                return true;
            }
            i += 1;
        }
        false
    }
}

impl CustomPatternConfig {
    /// Whether the pattern is valid: its name and element type hold more than white
    /// space, and its pattern is a regular expression.
    pub open spec fn valid(&self) -> bool {
        !is_blank(self.name@) && is_regex(self.pattern@) && !is_blank(self.element_type@)
    }

    /// Checks the pattern. Fails with a configuration error exactly where it is not valid:
    /// for a blank name first, then for a pattern that is no regular expression, then for
    /// a blank element type.
    pub fn validate(&self) -> (r: Result<(), Error>)
        ensures
            r is Ok <==> self.valid(),
            r matches Err(e) ==> e is Config,
            is_blank(self.name@) ==> (r matches Err(Error::Config(m)) && m@
                == "custom pattern name cannot be empty"@),
            !is_blank(self.name@) && is_regex(self.pattern@) && is_blank(self.element_type@) ==> (
            r matches Err(Error::Config(m)) && m@
                == "custom pattern element_type cannot be empty"@),
    {
        let name = to_chars(self.name.as_str());
        if is_blank_chars(&name) {
            return Err(Error::Config(String::from_str("custom pattern name cannot be empty")));
        }
        match check_regex(self.pattern.as_str(), "Invalid regex pattern: ") {
            Ok(_) => {},
            Err(e) => {
                let message = e.to_string();
                return Err(Error::Config(message));
            },
        }
        let kind = to_chars(self.element_type.as_str());
        if is_blank_chars(&kind) {
            return Err(
                Error::Config(String::from_str("custom pattern element_type cannot be empty")),
            );
        }
        Ok(())
    }
}

impl ServerConfig {
    /// Whether the configuration is valid: it allows at least one session, the default
    /// terminal has rows and columns, and every custom pattern is valid.
    pub open spec fn valid(&self) -> bool {
        &&& self.server.max_sessions > 0
        &&& self.terminal.default_rows > 0
        &&& self.terminal.default_cols > 0
        &&& forall|i: int|
            0 <= i < self.detection.custom_patterns@.len() ==> (
            #[trigger] self.detection.custom_patterns@[i]).valid()
    }

    /// Checks the configuration. Fails with a configuration error exactly where it is
    /// not valid: for a limit of no sessions first, then for a default terminal without
    /// rows or columns, then for the first custom pattern that is not valid.
    pub fn validate(&self) -> (r: Result<(), Error>)
        ensures
            r is Ok <==> self.valid(),
            r matches Err(e) ==> e is Config,
            self.server.max_sessions == 0 ==> (r matches Err(Error::Config(m)) && m@
                == "server.max_sessions must be > 0"@),
            self.server.max_sessions > 0 && (self.terminal.default_rows == 0
                || self.terminal.default_cols == 0) ==> (r matches Err(Error::Config(m)) && m@
                == "terminal dimensions must be > 0"@),
    {
        if self.server.max_sessions == 0 {
            return Err(Error::Config(String::from_str("server.max_sessions must be > 0")));
        }
        if self.terminal.default_rows == 0 || self.terminal.default_cols == 0 {
            return Err(Error::Config(String::from_str("terminal dimensions must be > 0")));
        }
        let mut i: usize = 0;
        while i < self.detection.custom_patterns.len()
            invariant
                i <= self.detection.custom_patterns.len(),
                self.server.max_sessions > 0,
                self.terminal.default_rows > 0,
                self.terminal.default_cols > 0,
                forall|k: int|
                    0 <= k < i ==> (#[trigger] self.detection.custom_patterns@[k]).valid(),
            decreases self.detection.custom_patterns.len() - i,
        {
            match self.detection.custom_patterns[i].validate() {
                Ok(_) => {},
                Err(e) => {
                    return Err(e);
                },
            }
            i += 1;
        }
        Ok(())
    }
}

} // verus!
