use docat::config::app::App;
use docat::selection::{filter_projects, get_parameters, get_project, get_projects, Args, SelectionError};

fn names(list: &[&str]) -> Vec<String> {
    list.iter().map(|n| n.to_string()).collect()
}

fn keys(app: &App, selected: &docat::sorted_map::SortedMap<docat::config::project::Project>) -> Vec<String> {
    let mut found = Vec::new();
    for i in 0..selected.len() {
        let key = selected.key_at(i).clone();
        assert_eq!(selected.value_at(i), app.projects.get(&key).unwrap());
        found.push(key);
    }
    found
}

fn sample_app() -> App {
    let mut app = App::new();
    app.config.install_dir = "/home/u/root".to_string();
    app.config.shared_dir = "/home/u".to_string();
    for (key, label, install) in [
        ("api", Some("backend"), false),
        ("db", None, false),
        ("root", None, true),
        ("web", Some("frontend"), false),
    ] {
        let p = app.add_project(key);
        p.dir_name = key.to_string();
        p.dir = format!("/home/u/{}", key);
        p.name = label.map(|l| l.to_string());
        p.is_install = install;
    }
    app
}

#[test]
fn filter_without_names_returns_every_project() {
    let app = sample_app();
    let all = filter_projects(&app, &Vec::new(), false);
    assert_eq!(all, app.projects);
    assert_eq!(keys(&app, &all), names(&["api", "db", "root", "web"]));
}

#[test]
fn filter_adds_the_install_project() {
    let app = sample_app();
    let chosen = filter_projects(&app, &names(&["web"]), true);
    assert_eq!(keys(&app, &chosen), names(&["root", "web"]));
    assert_eq!(chosen.len(), 2);
}

#[test]
fn filter_without_install_keeps_to_the_names() {
    let app = sample_app();
    let chosen = filter_projects(&app, &names(&["web", "api"]), false);
    assert_eq!(keys(&app, &chosen), names(&["api", "web"]));
}

#[test]
fn filter_resolves_labels_and_drops_unknown_names() {
    let app = sample_app();
    let chosen = filter_projects(&app, &names(&["backend", "nosuch", "db"]), false);
    assert_eq!(keys(&app, &chosen), names(&["api", "db"]));
}

#[test]
fn filter_takes_each_project_once() {
    let app = sample_app();
    let chosen = filter_projects(&app, &names(&["api", "backend", "api"]), false);
    assert_eq!(keys(&app, &chosen), names(&["api"]));
}

#[test]
fn filter_does_not_add_install_twice() {
    let app = sample_app();
    let chosen = filter_projects(&app, &names(&["root"]), true);
    assert_eq!(keys(&app, &chosen), names(&["root"]));
}

#[test]
fn filter_prefers_the_directory_name_over_a_label() {
    let mut app = sample_app();
    let i = app.projects.position("web").unwrap();
    app.projects.value_at_mut(i).name = Some("db".to_string());
    let chosen = filter_projects(&app, &names(&["db"]), false);
    assert_eq!(keys(&app, &chosen), names(&["db"]));
    let chosen = filter_projects(&app, &names(&["db", "db"]), false);
    assert_eq!(keys(&app, &chosen), names(&["db"]));
}

#[test]
fn filter_falls_back_to_the_first_project_with_the_label() {
    let mut app = sample_app();
    let i = app.projects.position("api").unwrap();
    app.projects.value_at_mut(i).name = Some("db".to_string());
    let chosen = filter_projects(&app, &names(&["db", "db"]), false);
    assert_eq!(keys(&app, &chosen), names(&["api", "db"]));
}

#[test]
fn all_flag_with_names_is_an_error() {
    let app = sample_app();
    let r = get_projects(&app, &names(&["web"]), Some(true), false, "/elsewhere");
    assert_eq!(r, Err(SelectionError::AllWithProjects));
    assert_eq!(
        SelectionError::AllWithProjects.message(),
        "--all flag is not compatible with a project list"
    );
}

#[test]
fn all_flag_selects_every_project() {
    let app = sample_app();
    let r = get_projects(&app, &Vec::new(), Some(true), true, "/home/u/web").unwrap();
    assert_eq!(r, app.projects);
}

#[test]
fn names_go_through_the_filter() {
    let app = sample_app();
    let r = get_projects(&app, &names(&["frontend"]), Some(false), true, "/home/u/db").unwrap();
    assert_eq!(keys(&app, &r), names(&["root", "web"]));
}

#[test]
fn working_directory_narrows_the_default_selection() {
    let app = sample_app();
    let r = get_projects(&app, &Vec::new(), None, true, "/home/u/web").unwrap();
    assert_eq!(keys(&app, &r), names(&["web"]));
}

#[test]
fn default_selection_is_every_project_elsewhere() {
    let app = sample_app();
    let r = get_projects(&app, &Vec::new(), None, false, "/elsewhere").unwrap();
    assert_eq!(r, app.projects);
}

#[test]
fn parameters_carry_app_and_selection() {
    let app = sample_app();
    let args = Args { app: None, all: Some(true) };
    let p = get_parameters(&args, app.clone(), &Vec::new(), false, "/elsewhere").unwrap();
    assert_eq!(p.app, app);
    assert_eq!(p.projects, app.projects);
    let e = get_parameters(&args, app, &names(&["db"]), false, "/elsewhere");
    assert_eq!(e.err(), Some(SelectionError::AllWithProjects));
}

#[test]
fn single_project_is_the_one_in_the_working_directory() {
    let app = sample_app();
    let p = get_project(&app, &Some("db".to_string()), "/home/u/web").unwrap();
    assert_eq!(p.dir_name, "web");
}

#[test]
fn single_project_by_name_or_directory_name() {
    let app = sample_app();
    assert_eq!(get_project(&app, &Some("backend".to_string()), "/elsewhere").unwrap().dir_name, "api");
    assert_eq!(get_project(&app, &Some("db".to_string()), "/elsewhere").unwrap().dir_name, "db");
}

#[test]
fn single_project_unknown_is_an_error() {
    let app = sample_app();
    assert_eq!(get_project(&app, &None, "/elsewhere"), Err(SelectionError::UnknownProject));
    assert_eq!(
        get_project(&app, &Some("nosuch".to_string()), "/elsewhere"),
        Err(SelectionError::UnknownProject)
    );
    assert_eq!(
        SelectionError::UnknownProject.message(),
        "Could not determine project, consider passing the --project flag"
    );
}
