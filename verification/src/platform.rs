//! Platform descriptor: maps the host operating system and CPU architecture
//! to the short tokens that key the vendors' download URLs.

use vstd::prelude::*;

verus! {

/// Operating systems with dedicated download buckets.
#[derive(Clone, Copy, Debug, PartialEq, Eq, Structural)]
pub enum Os {
    Linux,
    Windows,
    MacOs,
}

/// CPU architectures the descriptor distinguishes. Anything that is not
/// x86 or x86-64 is mapped to the 32-bit download of its platform.
#[derive(Clone, Copy, Debug, PartialEq, Eq, Structural)]
pub enum Arch {
    X86,
    X86_64,
    Other,
}

/// The browsers the resolver recognizes.
#[derive(Clone, Copy, Debug, PartialEq, Eq, Structural)]
pub enum BrowserKind {
    Firefox,
    Chrome,
}

/// The operating system named by `s`, if recognized. Both the raw Rust
/// constant (`macos`) and the short form (`mac`) name the macOS platform.
pub open spec fn parse_os_spec(s: Seq<char>) -> Option<Os> {
    if s == "linux"@ {
        Some(Os::Linux)
    } else if s == "windows"@ {
        Some(Os::Windows)
    } else if s == "mac"@ || s == "macos"@ {
        Some(Os::MacOs)
    } else {
        None
    }
}

/// The architecture named by `s`; unknown names count as non-64-bit.
pub open spec fn parse_arch_spec(s: Seq<char>) -> Arch {
    if s == "x86_64"@ {
        Arch::X86_64
    } else if s == "x86"@ {
        Arch::X86
    } else {
        Arch::Other
    }
}

/// The browser named by `s`, if recognized.
pub open spec fn parse_browser_spec(s: Seq<char>) -> Option<BrowserKind> {
    if s == "firefox"@ {
        Some(BrowserKind::Firefox)
    } else if s == "chrome"@ {
        Some(BrowserKind::Chrome)
    } else {
        None
    }
}

/// The platform token keying a browser's driver archive. The Chrome driver
/// bucket packages the 64-bit Windows driver under `win32` and the macOS
/// driver under `mac64` (vendor packaging asymmetry), while geckodriver
/// uses `win64` and `macos`.
pub open spec fn driver_token_spec(kind: BrowserKind, os: Os, arch: Arch) -> Seq<char> {
    match os {
        Os::Linux => if arch is X86_64 {
            "linux64"@
        } else {
            "linux"@
        },
        Os::Windows => if arch is X86_64 {
            if kind is Chrome {
                "win32"@
            } else {
                "win64"@
            }
        } else {
            "win"@
        },
        Os::MacOs => if kind is Chrome {
            "mac64"@
        } else {
            "macos"@
        },
    }
}

/// The platform token keying the Firefox installer download endpoint,
/// which uses `osx` for macOS and has no Chrome asymmetry.
pub open spec fn installer_token_spec(os: Os, arch: Arch) -> Seq<char> {
    match os {
        Os::Linux => if arch is X86_64 {
            "linux64"@
        } else {
            "linux"@
        },
        Os::Windows => if arch is X86_64 {
            "win64"@
        } else {
            "win"@
        },
        Os::MacOs => "osx"@,
    }
}

/// The fixed set of tokens the descriptor can produce.
pub open spec fn token_set() -> Set<Seq<char>> {
    set![
        "linux"@,
        "linux64"@,
        "win"@,
        "win32"@,
        "win64"@,
        "mac64"@,
        "macos"@,
        "osx"@,
    ]
}

/// The descriptor is a pure function of its arguments, and every token it
/// produces lies in the fixed enumerated set.
pub proof fn lemma_tokens_enumerated(kind: BrowserKind, os: Os, arch: Arch)
    ensures
        token_set().contains(driver_token_spec(kind, os, arch)),
        token_set().contains(installer_token_spec(os, arch)),
{
}

pub fn parse_os(s: &str) -> (r: Option<Os>)
    ensures
        r == parse_os_spec(s@),
{
    if crate::strutil::str_eq(s, "linux") {
        Some(Os::Linux)
    } else if crate::strutil::str_eq(s, "windows") {
        Some(Os::Windows)
    } else if crate::strutil::str_eq(s, "mac") || crate::strutil::str_eq(s, "macos") {
        Some(Os::MacOs)
    } else {
        None
    }
}

pub fn parse_arch(s: &str) -> (r: Arch)
    ensures
        r == parse_arch_spec(s@),
{
    if crate::strutil::str_eq(s, "x86_64") {
        Arch::X86_64
    } else if crate::strutil::str_eq(s, "x86") {
        Arch::X86
    } else {
        Arch::Other
    }
}

pub fn parse_browser(s: &str) -> (r: Option<BrowserKind>)
    ensures
        r == parse_browser_spec(s@),
{
    if crate::strutil::str_eq(s, "firefox") {
        Some(BrowserKind::Firefox)
    } else if crate::strutil::str_eq(s, "chrome") {
        Some(BrowserKind::Chrome)
    } else {
        None
    }
}

/// The driver-archive platform token for a browser on a host.
pub fn describe(kind: BrowserKind, os: Os, arch: Arch) -> (r: &'static str)
    ensures
        r@ == driver_token_spec(kind, os, arch),
{
    match os {
        Os::Linux => if matches!(arch, Arch::X86_64) {
            "linux64"
        } else {
            "linux"
        },
        Os::Windows => if matches!(arch, Arch::X86_64) {
            if matches!(kind, BrowserKind::Chrome) {
                "win32"
            } else {
                "win64"
            }
        } else {
            "win"
        },
        Os::MacOs => if matches!(kind, BrowserKind::Chrome) {
            "mac64"
        } else {
            "macos"
        },
    }
}

/// The Firefox-installer platform token for a host.
pub fn installer_token(os: Os, arch: Arch) -> (r: &'static str)
    ensures
        r@ == installer_token_spec(os, arch),
{
    match os {
        Os::Linux => if matches!(arch, Arch::X86_64) {
            "linux64"
        } else {
            "linux"
        },
        Os::Windows => if matches!(arch, Arch::X86_64) {
            "win64"
        } else {
            "win"
        },
        Os::MacOs => "osx",
    }
}

} // verus!
