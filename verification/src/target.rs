//! The machine the recompiled code is built for.
use vstd::prelude::*;

verus! {

/// Target architecture.
#[derive(Debug, Clone, Copy, PartialEq, Eq, Structural)]
pub enum TargetArch {
    X86_64,
    Arm64,
    Arm,
    PowerPC,
}

/// A target: architecture, operating system, SIMD use and hardware
/// features.
pub struct TargetSpec {
    pub arch: TargetArch,
    pub os: Option<String>,
    pub enable_simd: bool,
    pub hardware_features: Vec<String>,
}

impl Default for TargetSpec {
    /// 64-bit x86 Linux with SIMD.
    fn default() -> (t: TargetSpec)
        ensures
            t.arch == TargetArch::X86_64,
            t.os matches Some(s) && s@ == "linux"@,
            t.enable_simd,
            t.hardware_features@.len() == 0,
    {
        TargetSpec {
            arch: TargetArch::X86_64,
            os: Some(String::from_str("linux")),
            enable_simd: true,
            hardware_features: Vec::new(),
        }
    }
}

/// Checks a target: on x86-64, SIMD needs an operating system.
pub fn validate_target(target: &TargetSpec) -> (r: Result<(), String>)
    ensures
        (target.arch == TargetArch::X86_64 && target.enable_simd && target.os is None) ==> (r matches Err(
            m,
        ) && m@ == "SIMD requires OS specification"@),
        !(target.arch == TargetArch::X86_64 && target.enable_simd && target.os is None) ==> r is Ok,
{
    match target.arch {
        TargetArch::X86_64 => {
            if target.enable_simd && target.os.is_none() {
                return Err(String::from_str("SIMD requires OS specification"));
            }
        },
        TargetArch::PowerPC => {},
        _ => {},
    }
    Ok(())
}

} // verus!
