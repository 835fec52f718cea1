use volt::store::{FsAction, Installation, Platform, RemoveErrorKind, Store, StoreError};

fn inst(version: &str, binaries: &[&str]) -> Installation {
    Installation {
        version: version.to_string(),
        binaries: binaries.iter().map(|b| b.to_string()).collect(),
    }
}

fn two_version_store() -> Store {
    Store {
        installed: vec![
            inst("16.0.0", &["node", "npm"]),
            inst("18.0.0", &["node", "npm", "corepack"]),
        ],
        active: None,
    }
}

#[test]
fn list_names_every_installed_version() {
    let store = two_version_store();
    let names = store.list().unwrap();
    assert_eq!(names, vec!["16.0.0".to_string(), "18.0.0".to_string()]);
}

#[test]
fn list_refuses_an_empty_store() {
    let store = Store { installed: Vec::new(), active: None };
    assert_eq!(store.list().unwrap_err(), StoreError::NothingInstalled);
}

#[test]
fn first_activation_builds_current_link_and_farm() {
    let mut store = two_version_store();
    let plan = store.activate(&"16.0.0".to_string(), Platform::Posix).unwrap();
    assert_eq!(
        plan,
        vec![
            FsAction::CreateCurrentLink("16.0.0".to_string()),
            FsAction::CreateLink("node".to_string(), "16.0.0".to_string()),
            FsAction::CreateLink("npm".to_string(), "16.0.0".to_string()),
        ]
    );
    assert_eq!(store.active, Some("16.0.0".to_string()));
}

#[test]
fn switching_tears_down_old_links_before_building_new_ones() {
    let mut store = two_version_store();
    store.activate(&"18.0.0".to_string(), Platform::Posix).unwrap();
    let plan = store.activate(&"16.0.0".to_string(), Platform::Posix).unwrap();
    assert_eq!(
        plan,
        vec![
            FsAction::RemoveLink("node".to_string()),
            FsAction::RemoveLink("npm".to_string()),
            FsAction::RemoveLink("corepack".to_string()),
            FsAction::RemoveCurrentLink,
            FsAction::CreateCurrentLink("16.0.0".to_string()),
            FsAction::CreateLink("node".to_string(), "16.0.0".to_string()),
            FsAction::CreateLink("npm".to_string(), "16.0.0".to_string()),
        ]
    );
    assert_eq!(store.active, Some("16.0.0".to_string()));
}

#[test]
fn windows_activation_replaces_exe_and_marker() {
    let mut store = two_version_store();
    let plan = store.activate(&"18.0.0".to_string(), Platform::Windows).unwrap();
    assert_eq!(
        plan,
        vec![
            FsAction::CopyExeReplace("18.0.0".to_string()),
            FsAction::WriteMarker("18.0.0".to_string()),
        ]
    );
    assert_eq!(store.active, Some("18.0.0".to_string()));
}

#[test]
fn activating_a_missing_version_fails_and_changes_nothing() {
    let mut store = two_version_store();
    let err = store.activate(&"20.0.0".to_string(), Platform::Posix).unwrap_err();
    assert_eq!(err, StoreError::NotInstalled);
    assert_eq!(store.active, None);
    assert_eq!(store.list().unwrap().len(), 2);
}

#[test]
fn activate_then_list_includes_the_version() {
    let mut store = two_version_store();
    store.activate(&"16.0.0".to_string(), Platform::Posix).unwrap();
    let names = store.list().unwrap();
    assert!(names.contains(&"16.0.0".to_string()));
    // The active version always has an installed directory.
    let active = store.active.clone().unwrap();
    assert!(names.contains(&active));
}

#[test]
fn removing_the_active_version_clears_farm_link_and_listing() {
    let mut store = Store {
        installed: vec![inst("16.0.0", &["node", "npm"])],
        active: None,
    };
    store.activate(&"16.0.0".to_string(), Platform::Posix).unwrap();
    let plan = store
        .remove_all(&vec!["16.0.0".to_string()], Platform::Posix)
        .unwrap();
    assert_eq!(
        plan,
        vec![
            FsAction::RemoveLink("node".to_string()),
            FsAction::RemoveLink("npm".to_string()),
            FsAction::RemoveCurrentLink,
            FsAction::RemoveVersionDir("16.0.0".to_string()),
        ]
    );
    assert_eq!(store.active, None);
    assert_eq!(store.list().unwrap_err(), StoreError::NothingInstalled);
}

#[test]
fn removing_an_inactive_version_keeps_the_active_state() {
    let mut store = two_version_store();
    store.activate(&"18.0.0".to_string(), Platform::Posix).unwrap();
    let plan = store
        .remove_all(&vec!["16.0.0".to_string()], Platform::Posix)
        .unwrap();
    assert_eq!(plan, vec![FsAction::RemoveVersionDir("16.0.0".to_string())]);
    assert_eq!(store.active, Some("18.0.0".to_string()));
    assert_eq!(store.list().unwrap(), vec!["18.0.0".to_string()]);
}

#[test]
fn windows_removal_of_active_version_clears_exe_and_marker() {
    let mut store = two_version_store();
    store.activate(&"18.0.0".to_string(), Platform::Windows).unwrap();
    let plan = store
        .remove_all(&vec!["18.0.0".to_string()], Platform::Windows)
        .unwrap();
    assert_eq!(
        plan,
        vec![
            FsAction::RemoveCurrentExe,
            FsAction::RemoveMarker,
            FsAction::RemoveVersionDir("18.0.0".to_string()),
        ]
    );
    assert_eq!(store.active, None);
}

#[test]
fn removal_validates_the_whole_batch_before_deleting() {
    let mut store = two_version_store();
    let err = store
        .remove_all(
            &vec!["16.0.0".to_string(), "not-a-version".to_string()],
            Platform::Posix,
        )
        .unwrap_err();
    assert_eq!(err.index, 1);
    assert_eq!(err.kind, RemoveErrorKind::InvalidVersion);
    // Nothing was deleted: the batch was rejected before any action.
    assert_eq!(store.list().unwrap().len(), 2);
}

#[test]
fn removal_rejects_a_version_that_is_not_installed() {
    let mut store = two_version_store();
    let err = store
        .remove_all(&vec!["20.0.0".to_string()], Platform::Posix)
        .unwrap_err();
    assert_eq!(err.index, 0);
    assert_eq!(err.kind, RemoveErrorKind::NotInstalled);
    assert_eq!(store.list().unwrap().len(), 2);
}

#[test]
fn removing_several_versions_processes_them_in_order() {
    let mut store = two_version_store();
    store.activate(&"16.0.0".to_string(), Platform::Posix).unwrap();
    let plan = store
        .remove_all(
            &vec!["18.0.0".to_string(), "16.0.0".to_string()],
            Platform::Posix,
        )
        .unwrap();
    assert_eq!(
        plan,
        vec![
            FsAction::RemoveVersionDir("18.0.0".to_string()),
            FsAction::RemoveLink("node".to_string()),
            FsAction::RemoveLink("npm".to_string()),
            FsAction::RemoveCurrentLink,
            FsAction::RemoveVersionDir("16.0.0".to_string()),
        ]
    );
    assert_eq!(store.active, None);
    assert_eq!(store.list().unwrap_err(), StoreError::NothingInstalled);
}
