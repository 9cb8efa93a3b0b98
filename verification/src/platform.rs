//! The platform the manager runs on, in the tokens the download services use.

use vstd::prelude::*;
use crate::text::{concat3, owned, str_eq};

verus! {

/// Operating system and processor, as tokens and as labels for people.
#[derive(Clone, Debug)]
pub struct PlatformInfo {
    pub os: String,
    pub arch: String,
    pub os_label: String,
    pub arch_label: String,
}

/// The mathematical value of a [`PlatformInfo`].
pub struct PlatformModel {
    pub os: Seq<char>,
    pub arch: Seq<char>,
    pub os_label: Seq<char>,
    pub arch_label: Seq<char>,
}

impl View for PlatformInfo {
    type V = PlatformModel;

    open spec fn view(&self) -> PlatformModel {
        PlatformModel {
            os: self.os@,
            arch: self.arch@,
            os_label: self.os_label@,
            arch_label: self.arch_label@,
        }
    }
}

/// The operating system token and label for a Rust target OS name.
pub open spec fn spec_os(target_os: Seq<char>) -> (Seq<char>, Seq<char>) {
    if target_os == "windows"@ {
        ("windows"@, "Windows"@)
    } else if target_os == "linux"@ {
        ("linux"@, "Linux"@)
    } else if target_os == "macos"@ {
        ("mac"@, "macOS"@)
    } else {
        ("unknown"@, "Unknown OS"@)
    }
}

/// The processor token and label for a Rust target architecture name.
pub open spec fn spec_arch(target_arch: Seq<char>) -> (Seq<char>, Seq<char>) {
    if target_arch == "x86_64"@ {
        ("x64"@, "x86_64 (x64)"@)
    } else if target_arch == "aarch64"@ {
        ("aarch64"@, "aarch64 (arm64)"@)
    } else if target_arch == "x86"@ {
        ("x32"@, "x86 (32-bit)"@)
    } else if target_arch == "arm"@ {
        ("arm"@, "arm"@)
    } else {
        ("unknown"@, "Unknown arch"@)
    }
}

/// The platform description for the Rust target `target_os` / `target_arch`
/// (the values of `cfg!(target_os)` and `cfg!(target_arch)` of the build).
pub fn detect_platform(target_os: &str, target_arch: &str) -> (r: PlatformInfo)
    ensures
        (r@.os, r@.os_label) == spec_os(target_os@),
        (r@.arch, r@.arch_label) == spec_arch(target_arch@),
{
    let (os, os_label) = if str_eq(target_os, "windows") {
        ("windows", "Windows")
    } else if str_eq(target_os, "linux") {
        ("linux", "Linux")
    } else if str_eq(target_os, "macos") {
        ("mac", "macOS")
    } else {
        ("unknown", "Unknown OS")
    };
    let (arch, arch_label) = if str_eq(target_arch, "x86_64") {
        ("x64", "x86_64 (x64)")
    } else if str_eq(target_arch, "aarch64") {
        ("aarch64", "aarch64 (arm64)")
    } else if str_eq(target_arch, "x86") {
        ("x32", "x86 (32-bit)")
    } else if str_eq(target_arch, "arm") {
        ("arm", "arm")
    } else {
        ("unknown", "Unknown arch")
    };
    PlatformInfo {
        os: owned(os),
        arch: owned(arch),
        os_label: owned(os_label),
        arch_label: owned(arch_label),
    }
}

/// The operating system name that the Adoptium API uses for `os`, or the refusal.
pub open spec fn spec_adoptium_os(os: Seq<char>) -> Result<Seq<char>, Seq<char>> {
    if os == "windows"@ {
        Ok("windows"@)
    } else if os == "linux"@ {
        Ok("linux"@)
    } else if os == "mac"@ {
        Ok("mac"@)
    } else {
        Err("Adoptium has no binary for OS '"@ + os + "'"@)
    }
}

/// The architecture name that the Adoptium API uses for `arch`, or the refusal.
pub open spec fn spec_adoptium_arch(arch: Seq<char>) -> Result<Seq<char>, Seq<char>> {
    if arch == "x64"@ {
        Ok("x64"@)
    } else if arch == "aarch64"@ {
        Ok("aarch64"@)
    } else if arch == "x32"@ {
        Ok("x86"@)
    } else if arch == "arm"@ {
        Ok("arm"@)
    } else {
        Err("Adoptium has no binary for arch '"@ + arch + "'"@)
    }
}

/// The Adoptium API's operating system name for the platform.
pub fn adoptium_os_for(platform: &PlatformInfo) -> (r: Result<&'static str, String>)
    ensures
        r matches Ok(s) ==> spec_adoptium_os(platform@.os) == Ok::<Seq<char>, Seq<char>>(s@),
        r matches Err(e) ==> spec_adoptium_os(platform@.os) == Err::<Seq<char>, Seq<char>>(e@),
{
    let os = platform.os.as_str();
    if str_eq(os, "windows") {
        Ok("windows")
    } else if str_eq(os, "linux") {
        Ok("linux")
    } else if str_eq(os, "mac") {
        Ok("mac")
    } else {
        Err(concat3("Adoptium has no binary for OS '", os, "'"))
    }
}

/// The Adoptium API's architecture name for the platform.
pub fn adoptium_arch_for(platform: &PlatformInfo) -> (r: Result<&'static str, String>)
    ensures
        r matches Ok(s) ==> spec_adoptium_arch(platform@.arch) == Ok::<Seq<char>, Seq<char>>(s@),
        r matches Err(e) ==> spec_adoptium_arch(platform@.arch) == Err::<Seq<char>, Seq<char>>(e@),
{
    let arch = platform.arch.as_str();
    if str_eq(arch, "x64") {
        Ok("x64")
    } else if str_eq(arch, "aarch64") {
        Ok("aarch64")
    } else if str_eq(arch, "x32") {
        Ok("x86")
    } else if str_eq(arch, "arm") {
        Ok("arm")
    } else {
        Err(concat3("Adoptium has no binary for arch '", arch, "'"))
    }
}

/// The platforms that have builds of most distributions.
#[derive(Clone, Copy, Debug)]
pub enum PlatformPair {
    WindowsX64,
    WindowsAarch64,
    LinuxX64,
    LinuxAarch64,
    MacX64,
    MacAarch64,
}

/// Which of the common platforms `(os, arch)` is, if any.
pub open spec fn spec_platform_pair(os: Seq<char>, arch: Seq<char>) -> Option<PlatformPair> {
    if os == "windows"@ && arch == "x64"@ {
        Some(PlatformPair::WindowsX64)
    } else if os == "windows"@ && arch == "aarch64"@ {
        Some(PlatformPair::WindowsAarch64)
    } else if os == "linux"@ && arch == "x64"@ {
        Some(PlatformPair::LinuxX64)
    } else if os == "linux"@ && arch == "aarch64"@ {
        Some(PlatformPair::LinuxAarch64)
    } else if os == "mac"@ && arch == "x64"@ {
        Some(PlatformPair::MacX64)
    } else if os == "mac"@ && arch == "aarch64"@ {
        Some(PlatformPair::MacAarch64)
    } else {
        None
    }
}

/// Which of the common platforms `platform` is, if any.
pub fn platform_pair(platform: &PlatformInfo) -> (r: Option<PlatformPair>)
    ensures
        r == spec_platform_pair(platform@.os, platform@.arch),
{
    let os = platform.os.as_str();
    let arch = platform.arch.as_str();
    let win = str_eq(os, "windows");
    let linux = str_eq(os, "linux");
    let mac = str_eq(os, "mac");
    let x64 = str_eq(arch, "x64");
    let arm64 = str_eq(arch, "aarch64");
    if win && x64 {
        Some(PlatformPair::WindowsX64)
    } else if win && arm64 {
        Some(PlatformPair::WindowsAarch64)
    } else if linux && x64 {
        Some(PlatformPair::LinuxX64)
    } else if linux && arm64 {
        Some(PlatformPair::LinuxAarch64)
    } else if mac && x64 {
        Some(PlatformPair::MacX64)
    } else if mac && arm64 {
        Some(PlatformPair::MacAarch64)
    } else {
        None
    }
}

} // verus!
