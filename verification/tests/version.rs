use tanoshi::version::{check, Compatibility, Incompatibility, InterfaceVersion};

fn v(major: u32, minor: u32) -> InterfaceVersion {
    InterfaceVersion { major, minor }
}

#[test]
fn same_version_is_compatible() {
    assert_eq!(check(v(1, 4), v(1, 4)), Compatibility::Compatible);
}

#[test]
fn older_minor_is_compatible() {
    assert_eq!(check(v(1, 0), v(1, 4)), Compatibility::Compatible);
    assert_eq!(check(v(1, 3), v(1, 4)), Compatibility::Compatible);
}

#[test]
fn newer_minor_is_rejected_with_both_minors() {
    assert_eq!(
        check(v(1, 5), v(1, 4)),
        Compatibility::Incompatible(Incompatibility::MinorTooNew { declared: 5, host: 4 })
    );
}

#[test]
fn other_major_is_rejected_with_both_majors() {
    assert_eq!(
        check(v(2, 0), v(1, 4)),
        Compatibility::Incompatible(Incompatibility::MajorMismatch { declared: 2, host: 1 })
    );
    assert_eq!(
        check(v(0, 0), v(1, 4)),
        Compatibility::Incompatible(Incompatibility::MajorMismatch { declared: 0, host: 1 })
    );
}

#[test]
fn major_mismatch_is_reported_before_minor() {
    assert_eq!(
        check(v(2, 9), v(1, 4)),
        Compatibility::Incompatible(Incompatibility::MajorMismatch { declared: 2, host: 1 })
    );
}

#[test]
fn extreme_versions() {
    assert_eq!(check(v(u32::MAX, u32::MAX), v(u32::MAX, u32::MAX)), Compatibility::Compatible);
    assert_eq!(
        check(v(0, u32::MAX), v(0, 0)),
        Compatibility::Incompatible(Incompatibility::MinorTooNew { declared: u32::MAX, host: 0 })
    );
}
