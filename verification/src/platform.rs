//! The platform the server runs on.

use vstd::prelude::*;
use crate::text::{ascii_lower, has_sub, to_ascii_lower, to_chars};

verus! {

/// A platform.
#[derive(Debug, Clone, Copy, PartialEq, Eq, Hash, Structural)]
pub enum Platform {
    /// Linux proper.
    Linux,
    /// macOS.
    MacOS,
    /// Windows.
    Windows,
    /// Linux under Windows.
    WSL,
}

/// The text with its ASCII capitals in lower case.
pub open spec fn lowered(s: Seq<char>) -> Seq<char> {
    Seq::new(s.len(), |i: int| ascii_lower(s[i]))
}

/// Whether a Linux system is one under Windows: the version text of its kernel names
/// Microsoft, or its interoperability entry exists.
pub open spec fn is_wsl(kernel_version: Option<Seq<char>>, interop_entry: bool) -> bool {
    interop_entry || (kernel_version is Some && has_sub(
        lowered(kernel_version->0),
        "microsoft"@,
    ))
}

impl Platform {
    /// The platform of a Linux system, given the version text of its kernel, where it can
    /// be read, and whether its interoperability entry exists.
    pub fn of_linux(kernel_version: Option<&str>, interop_entry: bool) -> (p: Self)
        ensures
            p == (if is_wsl(
                match kernel_version {
                    Some(v) => Some(v@),
                    None => None,
                },
                interop_entry,
            ) {
                Platform::WSL
            } else {
                Platform::Linux
            }),
    {
        match kernel_version {
            Some(version) => {
                let chars = to_chars(version);
                let mut lower: Vec<char> = Vec::new();
                let mut i: usize = 0;
                while i < chars.len()
                    invariant
                        i <= chars.len(),
                        lower@.len() == i,
                        forall|k: int| 0 <= k < i ==> lower@[k] == ascii_lower(chars@[k]),
                    decreases chars.len() - i,
                {
                    lower.push(to_ascii_lower(chars[i]));
                    i += 1;
                }
                assert(lower@ =~= lowered(version@));
                let needle = to_chars("microsoft");
                if crate::text::contains_sub(&lower, &needle) {
                    return Platform::WSL;
                }
            },
            None => {},
        }
        if interop_entry {
            Platform::WSL
        } else {
            Platform::Linux
        }
    }

    /// The name of the platform as it is shown.
    pub open spec fn label(&self) -> Seq<char> {
        match *self {
            Platform::Linux => "Linux"@,
            Platform::MacOS => "macOS"@,
            Platform::Windows => "Windows"@,
            Platform::WSL => "WSL"@,
        }
    }

    /// The name of the platform.
    pub fn name(&self) -> (n: &'static str)
        ensures
            n@ == self.label(),
    {
        match self {
            Platform::Linux => "Linux",
            Platform::MacOS => "macOS",
            Platform::Windows => "Windows",
            Platform::WSL => "WSL",
        }
    }

    /// Whether the platform is of the Unix kind: Linux, macOS or Linux under Windows.
    pub fn is_unix(&self) -> (b: bool)
        ensures
            b == (*self == Platform::Linux || *self == Platform::MacOS || *self == Platform::WSL),
    {
        match self {
            Platform::Linux | Platform::MacOS | Platform::WSL => true,
            Platform::Windows => false,
        }
    }

    /// Whether Windows runs underneath: Windows itself or Linux under Windows.
    pub fn is_windows_based(&self) -> (b: bool)
        ensures
            b == (*self == Platform::Windows || *self == Platform::WSL),
    {
        match self {
            Platform::Windows | Platform::WSL => true,
            Platform::Linux | Platform::MacOS => false,
        }
    }

    /// The name of the platform as it is shown.
    pub fn to_string(&self) -> (text: String)
        ensures
            text@ == self.label(),
    {
        String::from_str(self.name())
    }
}

} // verus!
