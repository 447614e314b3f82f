use docat::cmd::CommandWrapper;
use docat::config::app::App;
use docat::config::config::Config;
use docat::config::project::Project;
use docat::docat::{
    down, exec, init, install, register, run, run_install, set_git_config, status, statuses, up, PlanError,
    StackReport,
};
use docat::selection::Parameters;
use docat::service::{Service, Status};
use docat::sorted_map::SortedMap;

fn names(list: &[&str]) -> Vec<String> {
    list.iter().map(|n| n.to_string()).collect()
}

fn lines(plan: &[CommandWrapper]) -> Vec<String> {
    plan.iter().map(|c| format!("{}> {} {}", c.dir, c.program, c.args.join(" "))).collect()
}

fn sample_app() -> App {
    let mut app = App::new();
    app.config.shared_network = "shared".to_string();
    app.config.install_dir = "/home/u/root".to_string();
    app.config.shared_dir = "/home/u".to_string();
    let api = app.add_project("api");
    api.dir_name = "api".to_string();
    api.dir = "/home/u/api".to_string();
    api.git = "git@x/api.git".to_string();
    api.name = Some("backend".to_string());
    api.networks = names(&["n1"]);
    api.volumes = names(&["v1", "v2"]);
    api.on_install = names(&["make deps"]);
    api.on_up = names(&["make build"]);
    api.after_up = names(&["echo $HOME"]);
    api.compose_files = names(&["c.yml"]);
    let root = app.add_project("root");
    root.dir_name = "root".to_string();
    root.dir = "/home/u/root".to_string();
    root.is_install = true;
    let web = app.add_project("web");
    web.dir_name = "web".to_string();
    web.dir = "/home/u/web".to_string();
    web.git = "git@x/web.git".to_string();
    app
}

fn parameters(selected: &[&str]) -> Parameters {
    let app = sample_app();
    let mut projects = SortedMap::new();
    for key in selected {
        projects.insert(key.to_string(), app.projects.get(key).unwrap().clone());
    }
    Parameters { app, projects }
}

fn service(name: &str, status: Status) -> Service {
    Service { name: name.to_string(), status }
}

#[test]
fn statuses_reconcile_every_selected_project() {
    let p = parameters(&["api", "web"]);
    let mut reports = SortedMap::new();
    reports.insert(
        "api".to_string(),
        StackReport {
            running: vec![Service::from_report("web".to_string(), "running")],
            declared: names(&["web", "db", "cache"]),
        },
    );
    reports.insert(
        "unselected".to_string(),
        StackReport { running: Vec::new(), declared: names(&["x"]) },
    );
    let s = statuses(&p, &reports);
    assert_eq!(s.len(), 2);
    assert_eq!(
        s.get("api").unwrap(),
        &vec![service("web", Status::Up), service("db", Status::Down), service("cache", Status::Down)]
    );
    assert_eq!(s.get("web").unwrap(), &Vec::new());
}

#[test]
fn up_brings_up_only_what_is_down() {
    let p = parameters(&["api", "web"]);
    let mut s = SortedMap::new();
    s.insert("api".to_string(), vec![service("a", Status::Up), service("b", Status::Down)]);
    s.insert("web".to_string(), vec![service("a", Status::Up)]);
    let plan = up(&p, &s, "/cwd", "/home/u");
    assert_eq!(
        lines(&plan),
        names(&[
            "/cwd> docker network create shared",
            "/cwd> docker network create n1",
            "/cwd> docker volume create v1",
            "/cwd> docker volume create v2",
            "/home/u/api> make build",
            "/home/u/api> docker compose -f c.yml up -d",
            "/home/u/api> echo /home/u",
        ])
    );
    assert_eq!(plan[4].message, "Could not run build command");
    assert_eq!(plan[6].message, "Could not run after up hooks");
}

#[test]
fn up_leaves_running_projects_alone() {
    let p = parameters(&["api"]);
    let mut s = SortedMap::new();
    s.insert("api".to_string(), vec![service("a", Status::Up)]);
    s.insert("root".to_string(), Vec::new());
    let plan = up(&p, &s, "/cwd", "/home/u");
    assert_eq!(lines(&plan), names(&["/cwd> docker network create shared"]));
}

#[test]
fn down_brings_down_every_selected_project() {
    let p = parameters(&["api", "web"]);
    let plan = down(&p);
    assert_eq!(
        lines(&plan),
        names(&["/home/u/api> docker compose -f c.yml down", "/home/u/web> docker compose down"])
    );
}

#[test]
fn run_install_plans_each_project() {
    let p = parameters(&["api", "root"]);
    let plan = run_install(&p, "/cwd", "/home/u").unwrap();
    assert_eq!(
        lines(&plan),
        names(&[
            "/cwd> docker network create shared",
            "/cwd> docker network create n1",
            "/cwd> docker volume create v1",
            "/cwd> docker volume create v2",
            "/home/u/api> make deps",
            "/cwd> docker network create shared",
        ])
    );
    assert_eq!(plan[4].message, "Could not run install command");
}

#[test]
fn run_install_needs_a_selection() {
    let p = parameters(&[]);
    assert_eq!(run_install(&p, "/cwd", "/home/u"), Err(PlanError::NoProjects));
    assert_eq!(PlanError::NoProjects.message(), "Cannot run install on all projects");
}

#[test]
fn install_fetches_what_is_missing_and_has_a_remote() {
    let p = parameters(&["api", "root", "web"]);
    let fetches = install(&p, &names(&["web", "root", "nosuch"]));
    assert_eq!(fetches.len(), 1);
    let c = fetches.get("web").unwrap();
    assert_eq!(c.program, "git");
    assert_eq!(c.args, names(&["clone", "git@x/web.git"]));
    assert_eq!(c.dir, "/home/u");
    assert!(install(&p, &Vec::new()).is_empty());
    assert_eq!(install(&p, &names(&["api", "web"])).len(), 2);
}

#[test]
fn status_lists_projects_and_services() {
    let p = parameters(&["api", "web"]);
    let mut s = SortedMap::new();
    s.insert("api".to_string(), vec![service("a", Status::Up), service("b", Status::Down)]);
    s.insert("gone".to_string(), Vec::new());
    s.insert("web".to_string(), vec![service("w", Status::Down)]);
    assert_eq!(
        status(&p, &s),
        names(&["", "backend", "  up    a", "  down  b", "", "gone", "", "web", "  down  w"])
    );
    assert!(status(&p, &SortedMap::new()).is_empty());
}

#[test]
fn run_and_exec_commands() {
    let app = sample_app();
    let api = app.projects.get("api").unwrap();
    let service = "web".to_string();
    let r = run(&service, &names(&["ls", "-l"]), api);
    assert_eq!(r.args, names(&["compose", "-f", "c.yml", "run", "web", "ls", "-l"]));
    assert_eq!(r.dir, "/home/u/api");
    let e = exec(&service, &names(&["ls"]), api);
    assert_eq!(e.args, names(&["compose", "-f", "c.yml", "exec", "-T", "web", "ls"]));
    assert_eq!(e.dir, "/home/u/api");
}

#[test]
fn git_remote_is_the_last_line_that_is_set() {
    let mut p = Project::new();
    p.name = Some("keep".to_string());
    set_git_config(&mut p, "api", &names(&["git@x/one.git", "", "git@x/two.git", ""]));
    assert_eq!(p.git, "git@x/two.git");
    assert_eq!(p.name, Some("keep".to_string()));
    set_git_config(&mut p, "api", &names(&["", ""]));
    assert_eq!(p.git, "https://git@github.com:name/api.git");
    set_git_config(&mut p, "web", &Vec::new());
    assert_eq!(p.git, "https://git@github.com:name/web.git");
}

#[test]
fn init_of_an_unknown_app() {
    let cached = Config::new();
    let name = "myapp".to_string();
    let plan = init(&name, "/home/u/root", "root", &cached, &names(&["git@x/root.git"]));
    assert_eq!(plan.register_in, None);
    let app = plan.project_config.apps.get("myapp").unwrap();
    assert_eq!(plan.project_config.apps.len(), 1);
    assert_eq!(app.config.shared_network, "myapp");
    assert_eq!(app.config.install_dir, "");
    let root = app.projects.get("root").unwrap();
    assert!(root.is_install);
    assert_eq!(root.git, "git@x/root.git");
    assert_eq!(root.dir, "");
    let cached_app = plan.cached_config.apps.get("myapp").unwrap();
    assert_eq!(cached_app.config.install_dir, "/home/u/root");
    assert_eq!(cached_app.config.shared_dir, "/home/u");
    assert_eq!(cached_app.config.shared_network, "myapp");
    let root = cached_app.projects.get("root").unwrap();
    assert!(root.is_install);
    assert_eq!(root.dir, "/home/u/root");
    assert_eq!(root.dir_name, "root");
}

#[test]
fn init_in_a_known_app_registers_with_the_install_project() {
    let mut cached = Config::new();
    cached.apps.insert("myapp".to_string(), sample_app());
    let name = "myapp".to_string();
    let plan = init(&name, "/home/u/worker", "worker", &cached, &Vec::new());
    assert_eq!(plan.register_in, Some("/home/u/root".to_string()));
    assert_eq!(plan.project_config.apps.get("myapp").unwrap(), &App::new());
    assert_eq!(plan.cached_config, cached);
    let plan = init(&name, "/home/u/api", "api", &cached, &Vec::new());
    assert_eq!(plan.register_in, None);
}

#[test]
fn init_anchors_a_known_app_without_install_dir() {
    let mut cached = Config::new();
    cached.add_app(&"myapp".to_string());
    let plan = init(&"myapp".to_string(), "/home/u/root", "root", &cached, &Vec::new());
    let app = plan.cached_config.apps.get("myapp").unwrap();
    assert_eq!(app.config.install_dir, "/home/u/root");
    assert_eq!(app.config.shared_dir, "/home/u");
    assert_eq!(plan.register_in, None);
}

#[test]
fn register_adds_or_updates_the_project() {
    let mut config = Config::new();
    config.apps.insert("myapp".to_string(), sample_app());
    let name = "myapp".to_string();
    let updated = register(&config, &name, "worker", &names(&["git@x/worker.git"])).unwrap();
    let app = updated.apps.get("myapp").unwrap();
    assert_eq!(app.projects.len(), 4);
    let worker = app.projects.get("worker").unwrap();
    assert_eq!(worker.git, "git@x/worker.git");
    assert_eq!(worker.dir, "");
    let updated = register(&config, &name, "api", &Vec::new()).unwrap();
    let api = updated.apps.get("myapp").unwrap().projects.get("api").unwrap();
    assert_eq!(api.git, "https://git@github.com:name/api.git");
    assert_eq!(api.networks, names(&["n1"]));
    assert_eq!(register(&config, &"other".to_string(), "api", &Vec::new()), None);
}
