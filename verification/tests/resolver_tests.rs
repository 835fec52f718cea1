use volt::catalog::CatalogEntry;
use volt::resolver::{resolve_all, resolve_one, Resolution, ResolveErrorKind};
use volt::semver::SemVer;

fn ver(major: u64, minor: u64, patch: u64) -> SemVer {
    SemVer { major, minor, patch }
}

fn catalog(versions: &[(u64, u64, u64)]) -> Vec<CatalogEntry> {
    versions
        .iter()
        .map(|&(major, minor, patch)| CatalogEntry {
            version: ver(major, minor, patch),
            lts: None,
            files: Vec::new(),
        })
        .collect()
}

fn sample_catalog() -> Vec<CatalogEntry> {
    catalog(&[(16, 0, 0), (16, 1, 0), (18, 0, 0)])
}

#[test]
fn exact_specifier_present_resolves_to_itself() {
    let cat = sample_catalog();
    assert_eq!(
        resolve_one("16.0.0", &cat, false),
        Resolution::Resolved(ver(16, 0, 0))
    );
    assert_eq!(
        resolve_one("18.0.0", &cat, false),
        Resolution::Resolved(ver(18, 0, 0))
    );
}

#[test]
fn exact_specifier_absent_is_no_match() {
    let cat = sample_catalog();
    assert_eq!(resolve_one("20.0.0", &cat, false), Resolution::NoMatch);
    assert_eq!(resolve_one("16.0.1", &cat, false), Resolution::NoMatch);
}

#[test]
fn range_specifier_resolves_to_maximum_match() {
    let cat = sample_catalog();
    assert_eq!(
        resolve_one("^16", &cat, false),
        Resolution::Resolved(ver(16, 1, 0))
    );
    assert_eq!(
        resolve_one(">=16", &cat, false),
        Resolution::Resolved(ver(18, 0, 0))
    );
    assert_eq!(
        resolve_one("16.x", &cat, false),
        Resolution::Resolved(ver(16, 1, 0))
    );
}

#[test]
fn range_specifier_with_no_match_fails() {
    let cat = sample_catalog();
    assert_eq!(resolve_one("^20", &cat, false), Resolution::NoMatch);
}

#[test]
fn malformed_specifier_is_invalid() {
    let cat = sample_catalog();
    assert_eq!(resolve_one("not-a-version", &cat, false), Resolution::Invalid);
}

#[test]
fn wildcard_shapes_the_range_parser_rejects_are_invalid() {
    // An exact operator or a tilde on a wildcard major, and a tilde
    // partial with a wildcard minor but concrete patch, never reach
    // the range parser: it has no representation for them.
    let cat = sample_catalog();
    assert_eq!(resolve_one("=*", &cat, false), Resolution::Invalid);
    assert_eq!(resolve_one("=x", &cat, false), Resolution::Invalid);
    assert_eq!(resolve_one("= v X", &cat, false), Resolution::Invalid);
    assert_eq!(resolve_one("~*", &cat, false), Resolution::Invalid);
    assert_eq!(resolve_one("~x", &cat, false), Resolution::Invalid);
    assert_eq!(resolve_one("~>x", &cat, false), Resolution::Invalid);
    assert_eq!(resolve_one("~1.x.2", &cat, false), Resolution::Invalid);
}

#[test]
fn ordinary_wildcard_and_tilde_ranges_still_resolve() {
    let cat = sample_catalog();
    assert_eq!(resolve_one("*", &cat, false), Resolution::Resolved(ver(18, 0, 0)));
    assert_eq!(resolve_one("x", &cat, false), Resolution::Resolved(ver(18, 0, 0)));
    assert_eq!(resolve_one("~16.0", &cat, false), Resolution::Resolved(ver(16, 0, 0)));
    assert_eq!(resolve_one("~16.0.0", &cat, false), Resolution::Resolved(ver(16, 0, 0)));
    assert_eq!(resolve_one("~1.2.x", &cat, false), Resolution::NoMatch);
    assert_eq!(resolve_one(">=16", &cat, false), Resolution::Resolved(ver(18, 0, 0)));
    assert_eq!(resolve_one("=16.0.0", &cat, false), Resolution::Resolved(ver(16, 0, 0)));
}

#[test]
fn eligibility_excludes_versions_at_or_above_cutoff_on_x86_posix() {
    let cat = catalog(&[(9, 0, 0), (9, 11, 0), (16, 0, 0)]);
    // An exact request for an ineligible version is reported, not matched.
    assert_eq!(resolve_one("16.0.0", &cat, true), Resolution::Ineligible);
    // A range maximum is taken over the eligible candidates only.
    assert_eq!(
        resolve_one(">=9", &cat, true),
        Resolution::Resolved(ver(9, 11, 0))
    );
    // With every candidate ineligible, a range matches nothing.
    assert_eq!(resolve_one("^16", &cat, true), Resolution::NoMatch);
    // Off x86 POSIX the same requests see the whole catalog.
    assert_eq!(
        resolve_one(">=9", &cat, false),
        Resolution::Resolved(ver(16, 0, 0))
    );
}

#[test]
fn cutoff_boundary_is_exactly_ten() {
    let cat = catalog(&[(9, 11, 0), (10, 0, 0)]);
    assert_eq!(resolve_one("10.0.0", &cat, true), Resolution::Ineligible);
    assert_eq!(
        resolve_one("9.11.0", &cat, true),
        Resolution::Resolved(ver(9, 11, 0))
    );
}

#[test]
fn resolve_all_deduplicates_specifiers() {
    let cat = sample_catalog();
    let specs = vec!["16.1.0".to_string(), "^16".to_string()];
    let (resolved, skipped) = resolve_all(&specs, &cat, false).unwrap();
    assert_eq!(resolved, vec![ver(16, 1, 0)]);
    assert!(skipped.is_empty());
}

#[test]
fn resolve_all_keeps_distinct_versions() {
    let cat = sample_catalog();
    let specs = vec!["16.0.0".to_string(), "^16".to_string(), "18.0.0".to_string()];
    let (resolved, skipped) = resolve_all(&specs, &cat, false).unwrap();
    assert_eq!(resolved, vec![ver(16, 0, 0), ver(16, 1, 0), ver(18, 0, 0)]);
    assert!(skipped.is_empty());
}

#[test]
fn resolve_all_reports_first_invalid_specifier() {
    let cat = sample_catalog();
    let specs = vec!["16.0.0".to_string(), "bogus!".to_string(), "also bad".to_string()];
    let err = resolve_all(&specs, &cat, false).unwrap_err();
    assert_eq!(err.index, 1);
    assert_eq!(err.kind, ResolveErrorKind::InvalidSpecifier);
}

#[test]
fn resolve_all_reports_no_match() {
    let cat = sample_catalog();
    let specs = vec!["20.0.0".to_string()];
    let err = resolve_all(&specs, &cat, false).unwrap_err();
    assert_eq!(err.index, 0);
    assert_eq!(err.kind, ResolveErrorKind::NoMatch);
}

#[test]
fn resolve_all_skips_ineligible_requests() {
    let cat = catalog(&[(9, 0, 0), (16, 0, 0)]);
    let specs = vec!["9.0.0".to_string(), "16.0.0".to_string()];
    let (resolved, skipped) = resolve_all(&specs, &cat, true).unwrap();
    assert_eq!(resolved, vec![ver(9, 0, 0)]);
    assert_eq!(skipped, vec![1]);
}
