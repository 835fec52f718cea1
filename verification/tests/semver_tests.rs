use volt::catalog::{normalize_lts, Arch, LtsField, Os};
use volt::semver::{u64_to_string, version_string, SemVer};

fn ver(major: u64, minor: u64, patch: u64) -> SemVer {
    SemVer { major, minor, patch }
}

#[test]
fn numbers_render_in_decimal() {
    assert_eq!(u64_to_string(0), "0");
    assert_eq!(u64_to_string(7), "7");
    assert_eq!(u64_to_string(10), "10");
    assert_eq!(u64_to_string(16), "16");
    assert_eq!(u64_to_string(1234567890), "1234567890");
    assert_eq!(u64_to_string(u64::MAX), "18446744073709551615");
}

#[test]
fn versions_render_as_dotted_triples() {
    assert_eq!(version_string(&ver(16, 1, 0)), "16.1.0");
    assert_eq!(version_string(&ver(0, 0, 0)), "0.0.0");
    assert_eq!(version_string(&ver(10, 20, 30)), "10.20.30");
}

#[test]
fn version_order_is_lexicographic_on_the_triple() {
    assert!(ver(9, 11, 0).lt(&ver(10, 0, 0)));
    assert!(ver(16, 0, 9).lt(&ver(16, 1, 0)));
    assert!(ver(16, 1, 0).lt(&ver(16, 1, 1)));
    assert!(!ver(16, 1, 0).lt(&ver(16, 1, 0)));
    assert!(ver(16, 1, 0).le(&ver(16, 1, 0)));
    assert!(!ver(18, 0, 0).le(&ver(16, 1, 0)));
}

#[test]
fn lts_flag_normalizes_to_no_label() {
    assert_eq!(normalize_lts(LtsField::Flag(false)), None);
    assert_eq!(normalize_lts(LtsField::Flag(true)), None);
}

#[test]
fn lts_label_normalizes_to_its_string() {
    assert_eq!(
        normalize_lts(LtsField::Label("Gallium".to_string())),
        Some("Gallium".to_string())
    );
}

#[test]
fn platform_labels_match_the_artifact_convention() {
    assert_eq!(Os::Windows.label(), "win");
    assert_eq!(Os::Macos.label(), "darwin");
    assert_eq!(Os::Linux.label(), "linux");
    assert_eq!(Os::Unknown.label(), "unknown");
    assert_eq!(Arch::X86.label(), "x86");
    assert_eq!(Arch::X64.label(), "x64");
    assert_eq!(Arch::Unknown.label(), "unknown");
}
