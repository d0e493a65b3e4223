//! The order of stages and versions, and its laws.

use vstd::prelude::*;
use core::cmp::Ordering;
use vstd::std_specs::cmp::PartialOrdSpecImpl;
use crate::version::{Version, VersionStage};

verus! {

/// The position of a stage in `Alpha < Beta < Release`.
pub open spec fn stage_rank(s: VersionStage) -> int {
    match s {
        VersionStage::Alpha => 0,
        VersionStage::Beta => 1,
        VersionStage::Release => 2,
    }
}

/// Three-way comparison of two integers.
pub open spec fn compare_int(a: int, b: int) -> Ordering {
    if a < b {
        Ordering::Less
    } else if a == b {
        Ordering::Equal
    } else {
        Ordering::Greater
    }
}

/// Three-way comparison of two `u32`s.
pub open spec fn compare_u32_spec(a: u32, b: u32) -> Ordering {
    if a < b {
        Ordering::Less
    } else if a == b {
        Ordering::Equal
    } else {
        Ordering::Greater
    }
}

/// The order of stages.
pub open spec fn stage_order(a: VersionStage, b: VersionStage) -> Ordering {
    compare_int(stage_rank(a), stage_rank(b))
}

/// The order of versions: by major, then minor, then patch, then stage, then build.
pub open spec fn version_order(a: Version, b: Version) -> Ordering {
    if a.major != b.major {
        compare_u32_spec(a.major, b.major)
    } else if a.minor != b.minor {
        compare_u32_spec(a.minor, b.minor)
    } else if a.patch != b.patch {
        compare_u32_spec(a.patch, b.patch)
    } else if a.stage != b.stage {
        stage_order(a.stage, b.stage)
    } else {
        compare_u32_spec(a.build, b.build)
    }
}

/// `a` comes strictly before `b`.
pub open spec fn version_lt(a: Version, b: Version) -> bool {
    version_order(a, b) == Ordering::Less
}

impl VersionStage {
    /// Compares two stages: `Alpha < Beta < Release`.
    pub fn cmp(&self, other: &Self) -> (r: Ordering)
        ensures
            r == stage_order(*self, *other),
    {
        match (self, other) {
            (VersionStage::Alpha, VersionStage::Alpha) | (VersionStage::Beta, VersionStage::Beta) | (
                VersionStage::Release,
                VersionStage::Release,
            ) => Ordering::Equal,
            (VersionStage::Alpha, _) => Ordering::Less,
            (VersionStage::Beta, VersionStage::Alpha) => Ordering::Greater,
            (VersionStage::Beta, VersionStage::Release) => Ordering::Less,
            (VersionStage::Release, _) => Ordering::Greater,
        }
    }
}

impl PartialOrd for VersionStage {
    fn partial_cmp(&self, other: &Self) -> (r: Option<Ordering>)
        ensures
            r == Some(stage_order(*self, *other)),
    {
        Some(self.cmp(other))
    }
}

impl PartialOrdSpecImpl for VersionStage {
    open spec fn obeys_partial_cmp_spec() -> bool {
        true
    }

    open spec fn partial_cmp_spec(&self, other: &Self) -> Option<Ordering> {
        Some(stage_order(*self, *other))
    }
}

fn compare_u32(a: u32, b: u32) -> (r: Ordering)
    ensures
        r == compare_u32_spec(a, b),
{
    if a < b {
        Ordering::Less
    } else if a == b {
        Ordering::Equal
    } else {
        Ordering::Greater
    }
}

impl Version {
    /// Compares two versions field by field: major, minor, patch, stage, build.
    pub fn cmp(&self, other: &Self) -> (r: Ordering)
        ensures
            r == version_order(*self, *other),
    {
        if self.major != other.major {
            compare_u32(self.major, other.major)
        } else if self.minor != other.minor {
            compare_u32(self.minor, other.minor)
        } else if self.patch != other.patch {
            compare_u32(self.patch, other.patch)
        } else if self.stage != other.stage {
            self.stage.cmp(&other.stage)
        } else {
            compare_u32(self.build, other.build)
        }
    }
}

impl PartialOrd for Version {
    fn partial_cmp(&self, other: &Self) -> (r: Option<Ordering>)
        ensures
            r == Some(version_order(*self, *other)),
    {
        Some(self.cmp(other))
    }
}

impl PartialOrdSpecImpl for Version {
    open spec fn obeys_partial_cmp_spec() -> bool {
        true
    }

    open spec fn partial_cmp_spec(&self, other: &Self) -> Option<Ordering> {
        Some(version_order(*self, *other))
    }
}

// ---------------------------------------------------------------------------
// Laws
// ---------------------------------------------------------------------------

/// The stages are ordered `Alpha < Beta < Release`.
pub proof fn lemma_stage_chain()
    ensures
        stage_order(VersionStage::Alpha, VersionStage::Beta) == Ordering::Less,
        stage_order(VersionStage::Beta, VersionStage::Release) == Ordering::Less,
        stage_order(VersionStage::Alpha, VersionStage::Release) == Ordering::Less,
{
}

/// A version comes before another exactly where it is older: a smaller major
/// number; or the same major and a smaller minor number; or the same major and
/// minor and a smaller patch number; or the same numbers and an earlier stage
/// (alpha before beta before release); or all that the same and a smaller build.
pub proof fn lemma_version_order_lexicographic(a: Version, b: Version)
    ensures
        a.major < b.major ==> version_order(a, b) == Ordering::Less,
        a.major > b.major ==> version_order(a, b) == Ordering::Greater,
        a.major == b.major && a.minor < b.minor ==> version_order(a, b) == Ordering::Less,
        a.major == b.major && a.minor > b.minor ==> version_order(a, b) == Ordering::Greater,
        a.major == b.major && a.minor == b.minor && a.patch < b.patch ==> version_order(a, b)
            == Ordering::Less,
        a.major == b.major && a.minor == b.minor && a.patch > b.patch ==> version_order(a, b)
            == Ordering::Greater,
        a.major == b.major && a.minor == b.minor && a.patch == b.patch && ((a.stage
            == VersionStage::Alpha && b.stage != VersionStage::Alpha) || (a.stage
            == VersionStage::Beta && b.stage == VersionStage::Release)) ==> version_order(a, b)
            == Ordering::Less,
        a.major == b.major && a.minor == b.minor && a.patch == b.patch && ((b.stage
            == VersionStage::Alpha && a.stage != VersionStage::Alpha) || (b.stage
            == VersionStage::Beta && a.stage == VersionStage::Release)) ==> version_order(a, b)
            == Ordering::Greater,
        a.major == b.major && a.minor == b.minor && a.patch == b.patch && a.stage == b.stage
            && a.build < b.build ==> version_order(a, b) == Ordering::Less,
        a.major == b.major && a.minor == b.minor && a.patch == b.patch && a.stage == b.stage
            && a.build > b.build ==> version_order(a, b) == Ordering::Greater,
        a == b ==> version_order(a, b) == Ordering::Equal,
{
}

/// Two stages compare equal exactly when they are the same stage.
pub proof fn lemma_stage_order_equal(a: VersionStage, b: VersionStage)
    ensures
        (stage_order(a, b) == Ordering::Equal) <==> (a == b),
{
}

/// Two versions compare equal exactly when they are the same version.
pub proof fn lemma_version_order_equal(a: Version, b: Version)
    ensures
        (version_order(a, b) == Ordering::Equal) <==> (a == b),
{
}

/// Swapping the arguments reverses the comparison.
pub proof fn lemma_version_order_antisymmetric(a: Version, b: Version)
    ensures
        (version_order(a, b) == Ordering::Less) <==> (version_order(b, a) == Ordering::Greater),
        (version_order(a, b) == Ordering::Equal) <==> (version_order(b, a) == Ordering::Equal),
{
}

/// The order of versions is transitive.
pub proof fn lemma_version_order_transitive(a: Version, b: Version, c: Version)
    requires
        version_order(a, b) == Ordering::Less,
        version_order(b, c) == Ordering::Less,
    ensures
        version_order(a, c) == Ordering::Less,
{
}

/// Coming before is transitive.
pub proof fn lemma_version_lt_transitive(a: Version, b: Version, c: Version)
    requires
        version_lt(a, b),
        version_lt(b, c),
    ensures
        version_lt(a, c),
{
}

/// No version comes before itself, and of two versions at most one comes first.
pub proof fn lemma_version_lt_strict(a: Version, b: Version)
    ensures
        !version_lt(a, a),
        version_lt(a, b) ==> !version_lt(b, a),
{
}

/// Any two versions are comparable: one comes first, or they are equal.
pub proof fn lemma_version_order_total(a: Version, b: Version)
    ensures
        version_lt(a, b) || a == b || version_lt(b, a),
{
}

} // verus!
