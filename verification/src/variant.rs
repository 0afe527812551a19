//! Build variants of the recompiled game and the settings each one uses.
use vstd::prelude::*;

verus! {

/// How the recompiled game is built.
#[derive(Debug, Clone, Copy, PartialEq, Eq, Structural)]
pub enum BuildVariant {
    /// With debug information.
    Debug,
    /// Optimized.
    Release,
    /// Optimized, without debug information.
    Stripped,
    /// Optimized for size.
    SizeOptimized,
}

/// Settings of a build.
#[derive(Debug, Clone, Copy, PartialEq, Eq, Structural)]
pub struct BuildConfig {
    pub variant: BuildVariant,
    /// Whether profile-guided optimization is used.
    pub pgo: bool,
    pub opt_level: u8,
}

/// The optimization level of a variant: 0 for debug builds, 2 for
/// size-optimized ones, 3 otherwise.
pub open spec fn variant_opt_level(v: BuildVariant) -> u8 {
    match v {
        BuildVariant::Debug => 0,
        BuildVariant::Release => 3,
        BuildVariant::Stripped => 3,
        BuildVariant::SizeOptimized => 2,
    }
}

impl BuildConfig {
    /// The settings of a variant; no variant uses profile-guided
    /// optimization.
    pub fn new(variant: BuildVariant) -> (c: BuildConfig)
        ensures
            c.variant == variant,
            c.opt_level == variant_opt_level(variant),
            !c.pgo,
    {
        let (opt_level, pgo) = match variant {
            BuildVariant::Debug => (0u8, false),
            BuildVariant::Release => (3u8, false),
            BuildVariant::Stripped => (3u8, false),
            BuildVariant::SizeOptimized => (2u8, false),
        };
        BuildConfig { variant, pgo, opt_level }
    }
}

} // verus!
