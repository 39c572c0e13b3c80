//! The build information of the kernel.
use vstd::prelude::*;

verus! {

/// How, when and from what the kernel was built.
#[derive(Debug, Clone, Copy)]
pub struct KernelBuildInfo {
    pub version: &'static str,
    pub release: &'static str,
    pub build_user: &'static str,
    pub build_host: &'static str,
    pub build_time: &'static str,
    pub compiler_info: &'static str,
    pub linker_info: &'static str,
    pub git_commit: &'static str,
    pub git_branch: &'static str,
    pub config_flags: &'static str,
}

/// The build information of this kernel.
pub fn get_kernel_build_info() -> (r: KernelBuildInfo)
    ensures
        r.version@ == "#41-dragonos-0.2.0 Sat Nov 15 11:24:24 UTC 2025"@,
        r.release@ == "6.6.21-dragonos"@,
        r.build_user@ == "godones"@,
        r.build_host@ == "Alien"@,
        r.build_time@ == "Sat Nov 15 11:24:24 UTC 2025"@,
        r.compiler_info@ == "rustc 1.91.0-nightly (ca7750494 2025-08-09)"@,
        r.linker_info@ == "GNU ld (GNU Binutils for Ubuntu) 2.38"@,
        r.git_commit@ == "5ca5c0cf-dirty"@,
        r.git_branch@ == "patch-ssh"@,
        r.config_flags@ == ""@,
{
    KernelBuildInfo {
        version: "#41-dragonos-0.2.0 Sat Nov 15 11:24:24 UTC 2025",
        release: "6.6.21-dragonos",
        build_user: "godones",
        build_host: "Alien",
        build_time: "Sat Nov 15 11:24:24 UTC 2025",
        compiler_info: "rustc 1.91.0-nightly (ca7750494 2025-08-09)",
        linker_info: "GNU ld (GNU Binutils for Ubuntu) 2.38",
        git_commit: "5ca5c0cf-dirty",
        git_branch: "patch-ssh",
        config_flags: "",
    }
}

} // verus!
