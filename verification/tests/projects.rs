use short::project::{CurrentProject, Projects};
use short::Error;

#[test]
fn current_template() {
    let projects = Projects::fake();
    let current_template_file = projects
        .current_project()
        .unwrap()
        .template_file_abs()
        .unwrap();
    assert_eq!(
        current_template_file,
        String::from("/path/to/local/project_test.tpl")
    );
}

#[test]
fn current_project() {
    let projects = Projects::fake();
    let current_project = projects.current_project().unwrap();
    assert_eq!(current_project.name(), String::from("project_test"));
}

#[test]
fn current_env() {
    let projects = Projects::fake();
    let current_env = projects.current_env().unwrap();
    assert_eq!(current_env, String::from("env_test"));
}

#[test]
fn temporary_current_project() {
    let mut projects = Projects::fake();
    projects.set_temporary_current_project(CurrentProject::new("project_test_bis"));

    let current_project = projects.current_project().unwrap();
    assert_eq!(current_project.name(), String::from("project_test_bis"));
    assert!(projects.current_env().is_err());

    let mut projects = Projects::fake();
    projects.set_temporary_current_project(
        CurrentProject::new("project_test_bis").set_env("watever_env"),
    );
    assert_eq!(projects.current_env().unwrap(), String::from("watever_env"));
}

#[test]
fn list_projects() {
    let projects = Projects::fake();
    let lists = projects.list();
    assert_eq!(lists.len(), 2);
}

#[test]
fn add_registers_both_stores() {
    let local = short::project::LocalProjects::new("/work/repo");
    let global = short::project::GlobalProjects::new();
    let mut projects = Projects::from_stores(local, global);

    let project = projects
        .add("api", "/work/repo/infra/api.yaml")
        .unwrap();
    assert_eq!(project.name(), "api");
    assert_eq!(project.project_directory_abs().unwrap(), "/work/repo");
    assert_eq!(
        project.template_file_abs().unwrap(),
        "/work/repo/infra/api.yaml"
    );
    assert_eq!(project.template_file_rel().unwrap(), "infra/api.yaml");
    assert_eq!(
        project.public_env_directory_abs().unwrap(),
        "/work/repo/infra"
    );

    // Registered: findable and listed.
    let found = projects.found("api").unwrap();
    assert_eq!(found.name(), "api");
    assert_eq!(projects.list().len(), 1);

    // A second registration of the same name fails.
    let err = projects.add("api", "/work/repo/infra/api.yaml").unwrap_err();
    assert!(matches!(err, Error::AlreadyExists { .. }));

    // A template outside the store's directory fails.
    let err = projects.add("other", "/elsewhere/x.yaml").unwrap_err();
    assert!(matches!(err, Error::InvalidPath { .. }));
}

#[test]
fn add_template_at_store_directory_fails() {
    let local = short::project::LocalProjects::new("/work/repo");
    let global = short::project::GlobalProjects::new();
    let mut projects = Projects::from_stores(local, global);

    // The store's directory itself names no template file.
    let err = projects.add("api", "/work/repo").unwrap_err();
    assert!(matches!(err, Error::InvalidPath { ref path } if path == "/work/repo"));
    assert_eq!(projects.list().len(), 0);
}

#[test]
fn set_current_project_keeps_env() {
    let local = short::project::LocalProjects::new("/work/repo");
    let global = short::project::GlobalProjects::new();
    let mut projects = Projects::from_stores(local, global);
    projects.add("api", "/work/repo/infra/api.yaml").unwrap();
    projects.add("web", "/work/repo/site/web.yaml").unwrap();

    projects.set_current_project_name("api");
    projects.set_current_env_name("dev").unwrap();

    // Re-pointing the current project leaves the chosen env alone.
    projects.set_current_project_name("web");
    assert_eq!(projects.current_project().unwrap().name(), "web");
    assert_eq!(projects.current_env().unwrap(), "dev");
}

#[test]
fn found_missing_not_found() {
    let projects = Projects::fake();
    let err = projects.found("no_such_project").unwrap_err();
    assert!(matches!(err, Error::NotFound { ref name } if name == "no_such_project"));
}

#[test]
fn current_selection_pointers() {
    let local = short::project::LocalProjects::new("/work/repo");
    let global = short::project::GlobalProjects::new();
    let mut projects = Projects::from_stores(local, global);

    // Nothing current yet.
    assert!(matches!(
        projects.current_env().unwrap_err(),
        Error::NoCurrentSelection
    ));
    let err = projects.set_current_env_name("dev").unwrap_err();
    assert!(matches!(err, Error::NoCurrentSelection));

    projects.add("api", "/work/repo/infra/api.yaml").unwrap();
    projects.set_current_project_name("api");
    projects.set_current_env_name("dev").unwrap();
    assert_eq!(projects.current_project().unwrap().name(), "api");
    assert_eq!(projects.current_env().unwrap(), "dev");
}
