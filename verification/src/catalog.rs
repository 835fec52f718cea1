//! The remote catalog of available versions: one entry per published
//! version, with its optional long-term-support label and the
//! platform-architecture tags of the artifacts built for it. Also the
//! platform and architecture labels that name those artifacts.

use vstd::prelude::*;
use crate::semver::SemVer;

verus! {

/// One entry of the remote version index.
#[derive(Debug)]
pub struct CatalogEntry {
    /// The published version.
    pub version: SemVer,
    /// Its long-term-support label, if it carries one.
    pub lts: Option<String>,
    /// The platform-architecture tags of the available artifacts.
    pub files: Vec<String>,
}

/// The raw shape of the long-term-support field in the remote index:
/// either a boolean flag (always meaning "no label") or a label string.
#[derive(Debug)]
pub enum LtsField {
    Flag(bool),
    Label(String),
}

/// What a raw long-term-support field normalizes to.
pub open spec fn lts_label_spec(raw: LtsField) -> Option<String> {
    match raw {
        LtsField::Flag(_) => None,
        LtsField::Label(s) => Some(s),
    }
}

/// Normalizes the two-shape long-term-support field to an optional
/// label, exactly once, at the parsing boundary.
pub fn normalize_lts(raw: LtsField) -> (r: Option<String>)
    ensures
        r == lts_label_spec(raw),
{
    match raw {
        LtsField::Flag(_) => None,
        LtsField::Label(s) => Some(s),
    }
}

/// The operating-system family an artifact is built for.
#[derive(Clone, Copy, PartialEq, Eq, Structural, Debug)]
pub enum Os {
    Windows,
    Macos,
    Linux,
    Unknown,
}

/// The processor architecture an artifact is built for.
#[derive(Clone, Copy, PartialEq, Eq, Structural, Debug)]
pub enum Arch {
    X86,
    X64,
    Unknown,
}

/// The label under which an operating system appears in artifact names.
pub open spec fn os_label_spec(os: Os) -> Seq<char> {
    match os {
        Os::Windows => seq!['w', 'i', 'n'],
        Os::Macos => seq!['d', 'a', 'r', 'w', 'i', 'n'],
        Os::Linux => seq!['l', 'i', 'n', 'u', 'x'],
        Os::Unknown => seq!['u', 'n', 'k', 'n', 'o', 'w', 'n'],
    }
}

/// The label under which an architecture appears in artifact names.
pub open spec fn arch_label_spec(arch: Arch) -> Seq<char> {
    match arch {
        Arch::X86 => seq!['x', '8', '6'],
        Arch::X64 => seq!['x', '6', '4'],
        Arch::Unknown => seq!['u', 'n', 'k', 'n', 'o', 'w', 'n'],
    }
}

impl Os {
    /// The artifact-name label of this operating system.
    pub fn label(&self) -> (r: &'static str)
        ensures
            r@ == os_label_spec(*self),
    {
        match self {
            Os::Windows => {
                let s = "win";
                proof {
                    reveal_strlit("win");
                    assert(s@ =~= os_label_spec(Os::Windows));
                }
                s
            },
            Os::Macos => {
                let s = "darwin";
                proof {
                    reveal_strlit("darwin");
                    assert(s@ =~= os_label_spec(Os::Macos));
                }
                s
            },
            Os::Linux => {
                let s = "linux";
                proof {
                    reveal_strlit("linux");
                    assert(s@ =~= os_label_spec(Os::Linux));
                }
                s
            },
            Os::Unknown => {
                let s = "unknown";
                proof {
                    reveal_strlit("unknown");
                    assert(s@ =~= os_label_spec(Os::Unknown));
                }
                s
            },
        }
    }
}

impl Arch {
    /// The artifact-name label of this architecture.
    pub fn label(&self) -> (r: &'static str)
        ensures
            r@ == arch_label_spec(*self),
    {
        match self {
            Arch::X86 => {
                let s = "x86";
                proof {
                    reveal_strlit("x86");
                    assert(s@ =~= arch_label_spec(Arch::X86));
                }
                s
            },
            Arch::X64 => {
                let s = "x64";
                proof {
                    reveal_strlit("x64");
                    assert(s@ =~= arch_label_spec(Arch::X64));
                }
                s
            },
            Arch::Unknown => {
                let s = "unknown";
                proof {
                    reveal_strlit("unknown");
                    assert(s@ =~= arch_label_spec(Arch::Unknown));
                }
                s
            },
        }
    }
}

} // verus!
