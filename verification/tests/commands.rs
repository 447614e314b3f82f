use docat::cmd::{command_from_words, parse, run_from_list, CommandWrapper};
use docat::docker::{add_files, compose, network, volume, ComposeCmd, NetworkCmd, VolumeCmd};
use docat::file::{cached_config_file, cached_config_path, CONFIG_FILENAME};
use docat::git::{clone, config, ConfigCmd};

fn names(list: &[&str]) -> Vec<String> {
    list.iter().map(|n| n.to_string()).collect()
}

#[test]
fn new_command_has_no_arguments() {
    let c = docat::cmd::new("docker", "/home/u");
    assert_eq!(
        c,
        CommandWrapper {
            program: "docker".to_string(),
            args: Vec::new(),
            dir: "/home/u".to_string(),
            ignore_output: false,
            ignore_error: false,
            message: String::new(),
        }
    );
}

#[test]
fn parse_splits_like_a_shell() {
    let c = parse(&"make \"two words\" -j4".to_string(), "/home/u").unwrap();
    assert_eq!(c.program, "make");
    assert_eq!(c.args, names(&["two words", "-j4"]));
    assert_eq!(c.dir, "");
}

#[test]
fn parse_puts_home_in_place() {
    let c = parse(&"cp $HOME/a $HOME/b$HOME plain".to_string(), "/home/u").unwrap();
    assert_eq!(c.program, "cp");
    assert_eq!(c.args, names(&["/home/u/a", "/home/u/b/home/u", "plain"]));
}

#[test]
fn parse_leaves_the_program_as_it_is() {
    let c = parse(&"$HOME/bin/tool".to_string(), "/home/u").unwrap();
    assert_eq!(c.program, "$HOME/bin/tool");
    assert!(c.args.is_empty());
}

#[test]
fn parse_rejects_empty_and_mismatched_lines() {
    assert_eq!(parse(&"".to_string(), "/home/u"), None);
    assert_eq!(parse(&"   ".to_string(), "/home/u"), None);
    assert_eq!(parse(&"echo \"open".to_string(), "/home/u"), None);
}

#[test]
fn command_from_words_needs_a_word() {
    assert_eq!(command_from_words(&Vec::new(), "/home/u"), None);
    let c = command_from_words(&names(&["ls", "$HOME"]), "/h").unwrap();
    assert_eq!(c.program, "ls");
    assert_eq!(c.args, names(&["/h"]));
}

#[test]
fn run_from_list_plans_in_order_and_skips_bad_lines() {
    let cmds = names(&["echo one", "\"broken", "", "touch $HOME/x"]);
    let plan = run_from_list(&cmds, "/home/u/api", "Could not run install command", "/home/u");
    assert_eq!(plan.len(), 2);
    assert_eq!(plan[0].program, "echo");
    assert_eq!(plan[0].args, names(&["one"]));
    assert_eq!(plan[1].program, "touch");
    assert_eq!(plan[1].args, names(&["/home/u/x"]));
    for c in &plan {
        assert_eq!(c.dir, "/home/u/api");
        assert_eq!(c.message, "Could not run install command");
        assert!(!c.ignore_output && !c.ignore_error);
    }
}

#[test]
fn network_and_volume_commands() {
    let n = network(NetworkCmd::Create("net".to_string()), "/cwd");
    assert_eq!(n.program, "docker");
    assert_eq!(n.args, names(&["network", "create", "net"]));
    assert_eq!(n.dir, "/cwd");
    assert!(n.ignore_error && !n.ignore_output);
    assert_eq!(n.message, "Could not create docker network");
    let v = volume(VolumeCmd::Create("data".to_string()), "/cwd");
    assert_eq!(v.args, names(&["volume", "create", "data"]));
    assert!(v.ignore_output && !v.ignore_error);
    assert_eq!(v.message, "Could not create docker volume");
}

#[test]
fn compose_commands() {
    let files = names(&["a.yml", "b.yml"]);
    let up = compose(ComposeCmd::Up(names(&["web"]), files.clone()), "/p");
    assert_eq!(up.program, "docker");
    assert_eq!(up.dir, "/p");
    assert_eq!(up.args, names(&["compose", "-f", "a.yml", "-f", "b.yml", "up", "-d", "web"]));
    assert!(!up.ignore_output && !up.ignore_error);
    assert_eq!(up.message, "Could not start project");
    let down = compose(ComposeCmd::Down(Vec::new()), "/p");
    assert_eq!(down.args, names(&["compose", "down"]));
    let cfg = compose(ComposeCmd::Config(files.clone()), "/p");
    assert_eq!(cfg.args, names(&["compose", "-f", "a.yml", "-f", "b.yml", "config", "--services"]));
    assert!(cfg.ignore_output);
    let list = compose(ComposeCmd::List(Vec::new()), "/p");
    assert_eq!(list.args, names(&["compose", "ps", "--format", "json"]));
    assert!(list.ignore_output);
    let exec = compose(ComposeCmd::Exec("web".to_string(), names(&["a.yml"]), names(&["sh", "-c", "ls"])), "/p");
    assert_eq!(exec.args, names(&["compose", "-f", "a.yml", "exec", "-T", "web", "sh", "-c", "ls"]));
    let run = compose(ComposeCmd::Run("web".to_string(), Vec::new(), names(&["ls"])), "/p");
    assert_eq!(run.args, names(&["compose", "run", "web", "ls"]));
}

#[test]
fn add_files_appends_each_after_a_flag() {
    let mut args = names(&["compose"]);
    add_files(&mut args, &names(&["a.yml", "b.yml"]));
    assert_eq!(args, names(&["compose", "-f", "a.yml", "-f", "b.yml"]));
    add_files(&mut args, &Vec::new());
    assert_eq!(args.len(), 5);
}

#[test]
fn git_commands() {
    let c = clone(&"git@x/api.git".to_string(), "/home/u");
    assert_eq!(c.program, "git");
    assert_eq!(c.args, names(&["clone", "git@x/api.git"]));
    assert_eq!(c.dir, "/home/u");
    assert!(!c.ignore_output && !c.ignore_error);
    assert_eq!(c.message, "Failed to clone repository.");
    let g = config(ConfigCmd::Get("remote.origin.url".to_string()), "/home/u/api");
    assert_eq!(g.args, names(&["config", "--get", "remote.origin.url"]));
    assert!(g.ignore_output && g.ignore_error);
    assert_eq!(g.dir, "/home/u/api");
}

#[test]
fn cache_lives_under_home() {
    assert_eq!(CONFIG_FILENAME, "docat.yml");
    assert_eq!(cached_config_path("/home/u"), "/home/u/.docat");
    assert_eq!(cached_config_file("/home/u"), "/home/u/.docat/docat.yml");
}

#[test]
fn failure_ends_the_operation_unless_errors_are_captured() {
    let shown = docat::cmd::new("make", "/p");
    let captured = network(NetworkCmd::Create("net".to_string()), "/cwd");
    assert!(docat::cmd::ends_operation(&shown, false, false));
    assert!(docat::cmd::ends_operation(&shown, true, false));
    assert!(!docat::cmd::ends_operation(&shown, true, true));
    assert!(docat::cmd::ends_operation(&captured, false, false));
    assert!(!docat::cmd::ends_operation(&captured, true, false));
    assert!(!docat::cmd::ends_operation(&captured, true, true));
}
