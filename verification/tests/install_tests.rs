use volt::catalog::{Arch, Os};
use volt::install::{
    artifact_archive_name, artifact_base, artifact_tarball_name, artifact_url, plan_install,
    record_install, record_results, InstallStep, UnitOutcome, UnitReport,
};
use volt::semver::SemVer;
use volt::store::{Installation, Store};

fn ver(major: u64, minor: u64, patch: u64) -> SemVer {
    SemVer { major, minor, patch }
}

#[test]
fn artifact_names_follow_the_mirror_convention() {
    let v = ver(16, 1, 0);
    assert_eq!(artifact_base(&v, Os::Linux, Arch::X64), "node-v16.1.0-linux-x64");
    assert_eq!(
        artifact_archive_name(&v, Os::Linux, Arch::X64),
        "node-v16.1.0-linux-x64.tar.xz"
    );
    assert_eq!(
        artifact_tarball_name(&v, Os::Linux, Arch::X64),
        "node-v16.1.0-linux-x64.tar"
    );
    assert_eq!(
        artifact_url("https://nodejs.org/dist", &v, Os::Linux, Arch::X64),
        "https://nodejs.org/dist/v16.1.0/node-v16.1.0-linux-x64.tar.xz"
    );
}

#[test]
fn artifact_names_use_the_platform_labels() {
    let v = ver(14, 0, 0);
    assert_eq!(artifact_base(&v, Os::Windows, Arch::X86), "node-v14.0.0-win-x86");
    assert_eq!(artifact_base(&v, Os::Macos, Arch::X64), "node-v14.0.0-darwin-x64");
    assert_eq!(
        artifact_base(&v, Os::Unknown, Arch::Unknown),
        "node-v14.0.0-unknown-unknown"
    );
}

#[test]
fn planning_short_circuits_installed_versions() {
    let store = Store {
        installed: vec![Installation {
            version: "16.0.0".to_string(),
            binaries: Vec::new(),
        }],
        active: None,
    };
    let units = plan_install(
        &store,
        &vec![ver(16, 0, 0), ver(18, 0, 0)],
        Os::Linux,
        Arch::X64,
        "https://nodejs.org/dist",
    );
    assert_eq!(units.len(), 2);
    assert!(matches!(units[0].step, InstallStep::AlreadyInstalled));
    match &units[1].step {
        InstallStep::Download { url, archive, tarball, extract_dir } => {
            assert_eq!(url, "https://nodejs.org/dist/v18.0.0/node-v18.0.0-linux-x64.tar.xz");
            assert_eq!(archive, "node-v18.0.0-linux-x64.tar.xz");
            assert_eq!(tarball, "node-v18.0.0-linux-x64.tar");
            assert_eq!(extract_dir, "node-v18.0.0-linux-x64");
        },
        InstallStep::AlreadyInstalled => panic!("expected a download step"),
    }
}

#[test]
fn recording_an_already_installed_version_changes_nothing() {
    let mut store = Store {
        installed: vec![Installation {
            version: "16.0.0".to_string(),
            binaries: vec!["node".to_string()],
        }],
        active: None,
    };
    let recorded = record_install(&mut store, &ver(16, 0, 0), Vec::new());
    assert!(!recorded);
    assert_eq!(store.installed.len(), 1);
    assert_eq!(store.installed[0].binaries, vec!["node".to_string()]);
}

#[test]
fn unpacking_recovers_the_compressed_bytes() {
    let payload: Vec<u8> = b"a tarball's worth of bytes".to_vec();
    let archive = lzma::compress(&payload, 6).unwrap();
    assert_ne!(archive, payload);
    let unpacked = volt::install::unpack_archive(&archive).unwrap();
    assert_eq!(unpacked, payload);
}

#[test]
fn unpacking_rejects_bytes_that_are_no_archive() {
    let garbage: Vec<u8> = vec![1, 2, 3, 4];
    let err = volt::install::unpack_archive(&garbage).unwrap_err();
    assert_eq!(err, volt::install::InstallUnitError::ExtractFailed);
}

#[test]
fn one_failed_unit_leaves_sibling_units_installed() {
    let mut store = Store { installed: Vec::new(), active: None };
    let reports = vec![
        UnitReport {
            version: ver(14, 0, 0),
            outcome: UnitOutcome::Completed,
            binaries: vec!["node".to_string()],
        },
        UnitReport {
            version: ver(16, 0, 0),
            outcome: UnitOutcome::Failed,
            binaries: Vec::new(),
        },
        UnitReport {
            version: ver(18, 0, 0),
            outcome: UnitOutcome::Completed,
            binaries: vec!["node".to_string()],
        },
    ];
    record_results(&mut store, &reports);
    let names = store.list().unwrap();
    assert_eq!(names, vec!["14.0.0".to_string(), "18.0.0".to_string()]);
}
