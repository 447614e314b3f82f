use docat::config::app::App;
use docat::config::app_config::AppConfig;
use docat::config::config::Config;
use docat::config::project::Project;
use docat::config::{bool_is_false, combine, get_app_name, is_install_dir, path_buf_is_new, project_dirs};

fn project(git: &str, networks: &[&str]) -> Project {
    let mut p = Project::new();
    p.git = git.to_string();
    p.networks = networks.iter().map(|n| n.to_string()).collect();
    p
}

fn sample_app() -> App {
    let mut app = App::new();
    app.config.shared_network = "net".to_string();
    app.config.install_dir = "/home/u/root".to_string();
    app.config.shared_dir = "/home/u".to_string();
    let root = app.add_project("root");
    root.is_install = true;
    root.dir = "/home/u/root".to_string();
    root.dir_name = "root".to_string();
    let api = app.add_project("api");
    api.git = "git@x/api.git".to_string();
    api.dir = "/home/u/api".to_string();
    api.dir_name = "api".to_string();
    api.name = Some("backend".to_string());
    app
}

fn sample_config() -> Config {
    let mut config = Config::new();
    config.apps.insert("myapp".to_string(), sample_app());
    config
}

#[test]
fn merging_an_empty_config_changes_nothing() {
    let a = sample_config();
    assert_eq!(a.merge(&Config::new()), a);
}

#[test]
fn merging_an_empty_app_changes_nothing() {
    let a = sample_app();
    assert_eq!(a.merge(&App::new()), a);
}

#[test]
fn merging_twice_is_merging_once() {
    let a = sample_config();
    let mut b = Config::new();
    let app = b.add_app(&"myapp".to_string());
    app.config.shared_network = "other".to_string();
    let worker = app.add_project("worker");
    worker.git = "git@x/worker.git".to_string();
    let api = app.add_project("api");
    api.volumes = vec!["data".to_string()];
    let fresh = b.add_app(&"second".to_string());
    fresh.add_project("only").on_up = vec!["make".to_string()];
    let once = a.merge(&b);
    let twice = once.merge(&b);
    assert_eq!(twice, once);
    assert_eq!(once.apps.len(), 2);
}

#[test]
fn project_merge_takes_what_is_set() {
    let mut base = project("git@x/base.git", &["n1", "n2"]);
    base.name = Some("base".to_string());
    base.on_up = vec!["build".to_string()];
    base.is_install = true;
    let mut incoming = Project::new();
    incoming.git = "git@x/new.git".to_string();
    incoming.volumes = vec!["v".to_string()];
    let merged = base.merge(&incoming);
    assert_eq!(merged.git, "git@x/new.git");
    assert_eq!(merged.name, Some("base".to_string()));
    assert_eq!(merged.networks, vec!["n1".to_string(), "n2".to_string()]);
    assert_eq!(merged.volumes, vec!["v".to_string()]);
    assert_eq!(merged.on_up, vec!["build".to_string()]);
    assert!(!merged.is_install);
}

#[test]
fn project_merge_install_flag_is_the_incoming_one() {
    let mut base = Project::new();
    let mut incoming = Project::new();
    incoming.is_install = true;
    assert!(base.merge(&incoming).is_install);
    base.is_install = true;
    incoming.is_install = false;
    assert!(!base.merge(&incoming).is_install);
}

#[test]
fn project_merge_takes_dir_and_name_where_set() {
    let mut base = Project::new();
    base.dir = "/a".to_string();
    base.dir_name = "a".to_string();
    let mut incoming = Project::new();
    incoming.dir = "/b".to_string();
    incoming.name = Some("label".to_string());
    let merged = base.merge(&incoming);
    assert_eq!(merged.dir, "/b");
    assert_eq!(merged.dir_name, "a");
    assert_eq!(merged.name, Some("label".to_string()));
}

#[test]
fn project_name_falls_back_to_dir_name() {
    let mut p = Project::new();
    p.dir_name = "api".to_string();
    assert_eq!(p.name(), "api");
    p.name = Some("backend".to_string());
    assert_eq!(p.name(), "backend");
}

#[test]
fn project_reset_keeps_identity() {
    let mut p = project("git@x/a.git", &["n"]);
    p.name = Some("a".to_string());
    p.dir = "/home/u/a".to_string();
    p.dir_name = "a".to_string();
    p.is_install = true;
    p.compose_files = vec!["c.yml".to_string()];
    let r = p.reset();
    assert_eq!(r.git, "");
    assert!(r.networks.is_empty() && r.compose_files.is_empty());
    assert_eq!(r.name, Some("a".to_string()));
    assert_eq!(r.dir, "/home/u/a");
    assert_eq!(r.dir_name, "a");
    assert!(r.is_install);
}

#[test]
fn app_config_merge_never_blanks() {
    let mut base = AppConfig::new();
    base.shared_network = "net".to_string();
    base.install_dir = "/home/u/root".to_string();
    base.shared_dir = "/home/u".to_string();
    let merged = base.merge(&AppConfig::new());
    assert_eq!(merged, base);
    let mut incoming = AppConfig::new();
    incoming.shared_network = "other".to_string();
    incoming.install_dir = "/srv/root".to_string();
    let merged = base.merge(&incoming);
    assert_eq!(merged.shared_network, "other");
    assert_eq!(merged.install_dir, "/srv/root");
    assert_eq!(merged.shared_dir, "/home/u");
}

#[test]
fn app_config_init_anchors_at_dir() {
    let mut config = AppConfig::new();
    assert!(config.is_empty());
    config.init("/home/u/root");
    assert_eq!(config.install_dir, "/home/u/root");
    assert_eq!(config.shared_dir, "/home/u");
    assert_eq!(config.shared_network, "");
    assert!(!config.is_empty());
}

#[test]
fn merged_project_is_placed_under_shared_dir() {
    let base = sample_app();
    let mut incoming = App::new();
    incoming.add_project("worker").git = "git@x/worker.git".to_string();
    let merged = base.merge(&incoming);
    let worker = merged.projects.get("worker").unwrap();
    assert_eq!(worker.dir, "/home/u/worker");
    assert_eq!(worker.dir_name, "worker");
    assert!(!worker.is_install);
    assert_eq!(merged.projects.get("api"), base.projects.get("api"));
    assert_eq!(merged.projects.len(), 3);
}

#[test]
fn project_at_install_dir_becomes_install_project() {
    let base = sample_app();
    let mut incoming = App::new();
    incoming.add_project("root").git = "git@x/root.git".to_string();
    let merged = base.merge(&incoming);
    let root = merged.projects.get("root").unwrap();
    assert!(root.is_install);
    assert_eq!(root.dir, "/home/u/root");
    assert_eq!(root.git, "git@x/root.git");
}

#[test]
fn install_project_is_placed_in_install_dir() {
    let mut base = App::new();
    base.config.install_dir = "/srv/elsewhere".to_string();
    base.config.shared_dir = "/home/u".to_string();
    let mut incoming = App::new();
    incoming.add_project("root").is_install = true;
    let merged = base.merge(&incoming);
    assert_eq!(merged.projects.get("root").unwrap().dir, "/srv/elsewhere");
}

#[test]
fn concrete_scenario_cache_and_local_config() {
    let mut cached = Config::new();
    let app = cached.add_app(&"myapp".to_string());
    app.config.init("/home/u/root");
    let root = app.add_project("root");
    root.is_install = true;
    root.dir = "/home/u/root".to_string();
    root.dir_name = "root".to_string();
    let mut local = Config::new();
    local.add_app(&"myapp".to_string()).add_project("worker").git = "git@x/worker.git".to_string();

    let name = "myapp".to_string();
    cached.anchor(&name, "/home/u/root");
    let merged = cached.merge(&local);
    let dirs = project_dirs(&merged, &name);
    assert_eq!(dirs, vec!["/home/u/root".to_string(), "/home/u/worker".to_string()]);
    let mut all = combine(&merged, &vec![local]);
    let resolved = all.get(&name);
    assert_eq!(resolved.projects.len(), 2);
    assert!(resolved.projects.get("root").unwrap().is_install);
    let worker = resolved.projects.get("worker").unwrap();
    assert_eq!(worker.dir, "/home/u/worker");
    assert_eq!(worker.git, "git@x/worker.git");
    assert!(!worker.is_install);
}

#[test]
fn combine_folds_in_order() {
    let base = sample_config();
    let mut first = Config::new();
    first.add_app(&"myapp".to_string()).config.shared_network = "one".to_string();
    let mut second = Config::new();
    second.add_app(&"myapp".to_string()).config.shared_network = "two".to_string();
    let expected = base.merge(&first).merge(&second);
    let all = combine(&base, &vec![first, second]);
    assert_eq!(all, expected);
    assert_eq!(all.apps.get("myapp").unwrap().config.shared_network, "two");
    assert_eq!(combine(&base, &Vec::new()), base);
}

#[test]
fn anchor_sets_dirs_only_where_unset() {
    let mut config = Config::new();
    config.add_app(&"a".to_string());
    config.add_app(&"b".to_string()).config.init("/srv/b/root");
    config.anchor(&"a".to_string(), "/home/u/root");
    config.anchor(&"b".to_string(), "/home/u/root");
    config.anchor(&"missing".to_string(), "/home/u/root");
    assert_eq!(config.apps.get("a").unwrap().config.install_dir, "/home/u/root");
    assert_eq!(config.apps.get("a").unwrap().config.shared_dir, "/home/u");
    assert_eq!(config.apps.get("b").unwrap().config.install_dir, "/srv/b/root");
    assert_eq!(config.apps.len(), 2);
}

#[test]
fn project_dirs_skips_unplaced_projects() {
    let mut config = sample_config();
    config.get(&"myapp".to_string()).add_project("pending");
    let dirs = project_dirs(&config, &"myapp".to_string());
    assert_eq!(dirs, vec!["/home/u/api".to_string(), "/home/u/root".to_string()]);
}

#[test]
fn app_name_sources_in_order() {
    let cached = sample_config();
    let mut local = Config::new();
    local.add_app(&"zeta".to_string());
    local.add_app(&"alpha".to_string());
    let given = Some("given".to_string());
    let env = Some("fromenv".to_string());
    assert_eq!(get_app_name(&given, &Some(local.clone()), &cached, "/home/u/api", &env), given);
    assert_eq!(
        get_app_name(&None, &Some(local), &cached, "/home/u/api", &env),
        Some("alpha".to_string())
    );
    assert_eq!(
        get_app_name(&None, &Some(Config::new()), &cached, "/home/u/api", &env),
        Some("myapp".to_string())
    );
    assert_eq!(get_app_name(&None, &None, &cached, "/elsewhere", &env), env);
    assert_eq!(get_app_name(&None, &None, &cached, "/elsewhere", &None), None);
}

#[test]
fn install_dir_is_told_by_first_app() {
    let config = sample_config();
    assert!(is_install_dir(&config, "root"));
    assert!(!is_install_dir(&config, "api"));
    assert!(!is_install_dir(&Config::new(), "root"));
}

#[test]
fn small_predicates() {
    assert!(bool_is_false(&false));
    assert!(!bool_is_false(&true));
    assert!(path_buf_is_new(""));
    assert!(!path_buf_is_new("/home"));
}
