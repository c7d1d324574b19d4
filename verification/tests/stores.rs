use short::global::{GlobalCfg, GlobalProjectCfg};
use short::local::{LocalCfg, LocalSetupCfg, ProviderCfg};
use short::Error;

#[test]
fn project() {
    let path: String = "/project/short.yml".into();
    let project_cfg = GlobalProjectCfg::new(&path).unwrap();
    let mut global_cfg = GlobalCfg::new();

    // Add project to global conf
    global_cfg.add_project(project_cfg);
    global_cfg.add_project(GlobalProjectCfg::new(&path).unwrap()); // Ensure to remove duplicate project
    assert!(global_cfg.projects_len().eq(&1));

    let change_path: String = "/project_1/short.yml".into();
    {
        // Get project and update change the file
        let i = global_cfg.get_project_by_file(&path).unwrap();
        global_cfg.set_project_file(i, &change_path).unwrap();
    }

    // Try to delete first path : nothing append
    global_cfg.remove_project_by_file(&path);
    assert!(global_cfg.projects_len().eq(&1));

    // Try to delete last path : delete append
    global_cfg.remove_project_by_file(&change_path);
    assert!(global_cfg.projects_len().eq(&0));
}

#[test]
fn local_update_public_env_dir() {
    let provider_cfg = ProviderCfg::Unspecified;
    let setup_cfg = LocalSetupCfg::new("setup".into(), provider_cfg);

    let mut local_cfg = LocalCfg::new();
    local_cfg.add_setup(setup_cfg).unwrap();

    let env_path = local_cfg.env_paths();
    assert_eq!(env_path, vec![String::new()]);

    {
        let i = local_cfg.get_setup("setup").unwrap();
        local_cfg.set_setup_env_dir(i, Some("./env_dir/".into()));
    }

    let env_path = local_cfg.env_paths();
    assert_eq!(env_path, vec![String::from("./env_dir/")]);

    local_cfg.remove_by_name_setup("setup");
    assert!(local_cfg.get_setup("setup").is_none());
}

#[test]
fn sync_scenario_one_setup() {
    let mut local = LocalCfg::new();
    local
        .add_setup(LocalSetupCfg::new("setup_1".into(), ProviderCfg::Unspecified))
        .unwrap();
    local.set_file(&"/project/short.yml".to_string());

    let mut global = GlobalCfg::new();
    let i = global.sync_local_project(&local).unwrap();

    assert_eq!(global.projects_len(), 1);
    let project = global.project_at(i);
    assert_eq!(project.file().as_str(), "/project/short.yml");
    assert_eq!(project.setups_len(), 1);
    let setup = project.setup_at(0);
    assert_eq!(setup.name(), "setup_1");
    assert!(setup.private_env_dir().is_none());
    assert!(project.current().is_none());
}

#[test]
fn sync_twice_idempotent() {
    let mut local = LocalCfg::new();
    local
        .add_setup(LocalSetupCfg::new("setup_1".into(), ProviderCfg::Unspecified))
        .unwrap();
    local
        .add_setup(LocalSetupCfg::new("setup_2".into(), ProviderCfg::Unspecified))
        .unwrap();
    local.set_file(&"/project/short.yml".to_string());

    let mut global = GlobalCfg::new();
    global.sync_local_project(&local).unwrap();
    let i = global.sync_local_project(&local).unwrap();

    assert_eq!(global.projects_len(), 1);
    assert_eq!(global.project_at(i).setups_len(), 2);
}

#[test]
fn sync_upsert_keeps_overrides() {
    let mut local = LocalCfg::new();
    local
        .add_setup(LocalSetupCfg::new("setup_1".into(), ProviderCfg::Unspecified))
        .unwrap();
    local.set_file(&"/project/short.yml".to_string());

    let mut global = GlobalCfg::new();
    let i = global.sync_local_project(&local).unwrap();

    // A machine-only override on the existing mirror.
    let j = global.project_at(i).get_setup("setup_1").unwrap();
    global.set_project_setup_private_env_dir(i, j, Some("private/".into()));

    // A new local setup appears; syncing adds exactly one mirror and
    // leaves the override alone.
    local
        .add_setup(LocalSetupCfg::new("setup_2".into(), ProviderCfg::Unspecified))
        .unwrap();
    let i = global.sync_local_project(&local).unwrap();

    let project = global.project_at(i);
    assert_eq!(project.setups_len(), 2);
    let j1 = project.get_setup("setup_1").unwrap();
    assert_eq!(
        project.setup_at(j1).private_env_dir(),
        Some(&"private/".to_string())
    );
    let j2 = project.get_setup("setup_2").unwrap();
    assert!(project.setup_at(j2).private_env_dir().is_none());
}

#[test]
fn rekey_onto_existing_key_refused() {
    let first: String = "/project/short.yml".into();
    let second: String = "/other/short.yml".into();
    let mut global = GlobalCfg::new();
    global.add_project(GlobalProjectCfg::new(&first).unwrap());
    global.add_project(GlobalProjectCfg::new(&second).unwrap());

    let i = global.get_project_by_file(&second).unwrap();
    let err = global.set_project_file(i, &first).unwrap_err();
    assert!(matches!(err, Error::AlreadyExists { ref name } if name == &first));
    assert_eq!(global.projects_len(), 2);
    assert!(global.get_project_by_file(&second).is_some());

    // Re-keying an entry to its own key is allowed.
    global.set_project_file(i, &second).unwrap();
    assert!(global.get_project_by_file(&second).is_some());
}

#[test]
fn add_project_twice_single_entry() {
    let path: String = "/project/short.yml".into();
    let mut global = GlobalCfg::new();
    global.add_project(GlobalProjectCfg::new(&path).unwrap());
    global.add_project(GlobalProjectCfg::new(&path).unwrap());
    assert_eq!(global.projects_len(), 1);
}

#[test]
fn sync_unsaved_local_missing_path() {
    let local = LocalCfg::new();
    let mut global = GlobalCfg::new();
    let err = global.sync_local_project(&local).unwrap_err();
    assert!(matches!(err, Error::MissingPath));
    assert_eq!(global.projects_len(), 0);
}

#[test]
fn invalid_project_path() {
    let err = GlobalProjectCfg::new(&"relative/short.yml".to_string()).unwrap_err();
    assert!(matches!(err, Error::InvalidPath { .. }));

    let err = GlobalProjectCfg::new(&"/ends/with/slash/".to_string()).unwrap_err();
    assert!(matches!(err, Error::InvalidPath { .. }));

    let mut local = LocalCfg::new();
    local.set_file(&"relative/short.yml".to_string());
    let mut global = GlobalCfg::new();
    let err = global.sync_local_project(&local).unwrap_err();
    assert!(matches!(err, Error::InvalidPath { .. }));
}

#[test]
fn add_setup_duplicate_already_exists() {
    let mut local = LocalCfg::new();
    local
        .add_setup(LocalSetupCfg::new("setup".into(), ProviderCfg::Unspecified))
        .unwrap();
    let err = local
        .add_setup(LocalSetupCfg::new("setup".into(), ProviderCfg::Unspecified))
        .unwrap_err();
    assert!(matches!(err, Error::AlreadyExists { ref name } if name == "setup"));
    assert_eq!(local.setups_len(), 1);
}
