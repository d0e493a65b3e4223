use std::cmp::Ordering;

use mineplace3d_launcher::version::{Version, VersionStage};

fn v(major: u32, minor: u32, patch: u32, stage: VersionStage, build: u32) -> Version {
    Version { major, minor, patch, stage, build }
}

#[test]
fn stages_are_ordered_alpha_beta_release() {
    assert_eq!(VersionStage::Alpha.cmp(&VersionStage::Beta), Ordering::Less);
    assert_eq!(VersionStage::Beta.cmp(&VersionStage::Release), Ordering::Less);
    assert_eq!(VersionStage::Release.cmp(&VersionStage::Alpha), Ordering::Greater);
    assert_eq!(VersionStage::Beta.cmp(&VersionStage::Beta), Ordering::Equal);
    assert!(VersionStage::Alpha < VersionStage::Release);
    assert_eq!(
        VersionStage::Beta.partial_cmp(&VersionStage::Alpha),
        Some(Ordering::Greater)
    );
}

#[test]
fn versions_are_ordered_field_by_field() {
    let a = v(1, 2, 3, VersionStage::Release, 0);
    assert_eq!(a.cmp(&v(1, 2, 3, VersionStage::Release, 0)), Ordering::Equal);
    assert_eq!(a.cmp(&v(2, 0, 0, VersionStage::Alpha, 0)), Ordering::Less);
    assert_eq!(a.cmp(&v(1, 3, 0, VersionStage::Alpha, 0)), Ordering::Less);
    assert_eq!(a.cmp(&v(1, 2, 4, VersionStage::Alpha, 0)), Ordering::Less);
    assert_eq!(a.cmp(&v(1, 2, 3, VersionStage::Beta, 9)), Ordering::Greater);
    assert_eq!(a.cmp(&v(1, 2, 3, VersionStage::Release, 1)), Ordering::Less);
    assert!(v(0, 3, 0, VersionStage::Alpha, 1) < v(0, 3, 0, VersionStage::Alpha, 2));
    assert!(v(0, 3, 0, VersionStage::Beta, 0) > v(0, 3, 0, VersionStage::Alpha, 7));
    assert_eq!(a.partial_cmp(&v(0, 9, 9, VersionStage::Release, 0)), Some(Ordering::Greater));
}

#[test]
fn order_is_total_and_antisymmetric_on_samples() {
    let stages = [VersionStage::Alpha, VersionStage::Beta, VersionStage::Release];
    let mut all = Vec::new();
    for &s in &stages {
        for a in 0..2u32 {
            for b in 0..2u32 {
                all.push(v(a, b, 1, s, a + b));
            }
        }
    }
    for x in &all {
        for y in &all {
            let c = x.cmp(y);
            assert_eq!(c, y.cmp(x).reverse());
            assert_eq!(c == Ordering::Equal, x == y);
            assert_eq!(c, Ord::cmp(x, y));
            for z in &all {
                if x.cmp(y) == Ordering::Less && y.cmp(z) == Ordering::Less {
                    assert_eq!(x.cmp(z), Ordering::Less);
                }
            }
        }
    }
}
