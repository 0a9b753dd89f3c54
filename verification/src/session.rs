//! Session identity, status and configuration.

use vstd::prelude::*;
use crate::geometry::Dimensions;

verus! {

/// The lower-case hexadecimal digit of `n`, for `n` below sixteen.
pub open spec fn hex_digit(n: int) -> char {
    if n < 10 {
        ((0x30 + n) as u8) as char
    } else {
        ((0x61 + n - 10) as u8) as char
    }
}

/// The `k`-th group of four bits of `id`, counted from the most significant.
pub open spec fn nibble(id: u128, k: int) -> int {
    ((id >> ((4 * (31 - k)) as u128)) & 0xf) as int
}

/// The hyphenated form of an identifier: thirty-two lower-case hexadecimal digits, most
/// significant first, in groups of 8, 4, 4, 4 and 12 separated by hyphens.
pub open spec fn hyphenated(id: u128) -> Seq<char> {
    Seq::new(
        36,
        |i: int|
            if i == 8 || i == 13 || i == 18 || i == 23 {
                '-'
            } else if i < 8 {
                hex_digit(nibble(id, i))
            } else if i < 13 {
                hex_digit(nibble(id, i - 1))
            } else if i < 18 {
                hex_digit(nibble(id, i - 2))
            } else if i < 23 {
                hex_digit(nibble(id, i - 3))
            } else {
                hex_digit(nibble(id, i - 4))
            },
    )
}

/// A fresh random identifier.
///
/// Stands for `uuid::Uuid::new_v4` followed by `uuid::Uuid::as_u128`. The value is random,
/// so nothing is promised of it.
#[verifier::external_body]
fn random_id() -> (id: u128) {
    uuid::Uuid::new_v4().as_u128()
}

/// The text of an identifier.
///
/// Stands for `uuid::Uuid::from_u128` followed by the `Display` form of `uuid::Uuid`,
/// which is the hyphenated lower-case form.
#[verifier::external_body]
fn id_text(id: u128) -> (text: String)
    ensures
        text@ == hyphenated(id),
{
    uuid::Uuid::from_u128(id).to_string()
}

/// The opaque 128-bit identifier of a session.
#[derive(Debug, Clone, Copy, PartialEq, Eq, Hash, Structural)]
pub struct SessionId {
    value: u128,
}

impl SessionId {
    /// The 128 bits of the identifier.
    pub closed spec fn bits(&self) -> u128 {
        self.value
    }

    /// The identifier with the given bits.
    pub closed spec fn of_bits(bits: u128) -> SessionId {
        SessionId { value: bits }
    }

    /// An identifier is its bits: the identifier of some bits has those bits, and an
    /// identifier is that of its bits.
    pub proof fn lemma_bits(id: SessionId, bits: u128)
        ensures
            SessionId::of_bits(bits).bits() == bits,
            SessionId::of_bits(id.bits()) == id,
    {
    }

    /// A fresh random identifier.
    pub fn new() -> (id: Self) {
        SessionId { value: random_id() }
    }

    /// The identifier with the given bits.
    pub fn from_u128(value: u128) -> (id: Self)
        ensures
            id.bits() == value,
            id == SessionId::of_bits(value),
    {
        SessionId { value }
    }

    /// The 128 bits of the identifier.
    pub fn as_u128(&self) -> (value: u128)
        ensures
            value == self.bits(),
    {
        self.value
    }

    /// The hyphenated text of the identifier, 36 characters long.
    pub fn to_string(&self) -> (text: String)
        ensures
            text@ == hyphenated(self.bits()),
            text@.len() == 36,
    {
        id_text(self.value)
    }
}

impl Default for SessionId {
    /// A fresh random identifier.
    fn default() -> (id: Self) {
        SessionId::new()
    }
}

/// The stage of life of a session as the configuration layer names it.
#[derive(Debug, Clone, Copy, PartialEq, Eq, Hash, Structural)]
pub enum SessionStatus {
    /// Being set up.
    Initializing,
    /// Running and accepting input.
    Active,
    /// Suspended.
    Paused,
    /// Ended.
    Terminated,
}

/// What a session is started with.
#[derive(Debug, Clone, PartialEq, Eq)]
pub struct SessionConfig {
    /// Size of the terminal.
    pub dimensions: Dimensions,
    /// The shell to run.
    pub shell: String,
    /// Directory to start in, if not the current one.
    pub working_directory: Option<String>,
    /// Environment variables to set, as name and value.
    pub env: Vec<(String, String)>,
}

impl SessionConfig {
    /// The configuration for the shell `shell`: a 24 by 80 terminal, the current directory
    /// and no additional environment.
    pub fn with_shell(shell: String) -> (c: Self)
        ensures
            c.dimensions == (Dimensions { rows: 24, cols: 80 }),
            c.shell == shell,
            c.working_directory is None,
            c.env@.len() == 0,
    {
        SessionConfig {
            dimensions: Dimensions::new(24, 80),
            shell,
            working_directory: None,
            env: Vec::new(),
        }
    }
}

impl Default for SessionConfig {
    /// A 24 by 80 terminal running `/bin/bash` in the current directory.
    fn default() -> (c: Self)
        ensures
            c.dimensions == (Dimensions { rows: 24, cols: 80 }),
            c.shell@ == "/bin/bash"@,
            c.working_directory is None,
            c.env@.len() == 0,
    {
        SessionConfig::with_shell(String::from_str("/bin/bash"))
    }
}

/// A session as listed: its identifier, status and configuration.
#[derive(Debug, Clone, PartialEq, Eq)]
pub struct SessionInfo {
    /// Identifier of the session.
    pub id: SessionId,
    /// Status of the session.
    pub status: SessionStatus,
    /// What the session was started with.
    pub config: SessionConfig,
}

impl SessionInfo {
    /// The listing entry made of the three parts.
    pub fn new(id: SessionId, status: SessionStatus, config: SessionConfig) -> (info: Self)
        ensures
            info.id == id,
            info.status == status,
            info.config == config,
    {
        SessionInfo { id, status, config }
    }
}

} // verus!
