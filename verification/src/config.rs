//! The layered configuration model: projects grouped under apps, and the
//! way configuration read from several places is folded into one.


pub mod app;
pub mod app_config;
pub mod config;

pub mod project;

use crate::config::app::AppView;
use crate::config::config::{Config, ConfigView};
use crate::selection::{first_match, is_flagged, is_placed, option_text, Criterion};
use crate::sorted_map::{first_key, lemma_first_key_at, lemma_first_key_none};
use crate::text::texts;
use vstd::prelude::*;

verus! {

/// Whether a flag is unset.
pub fn bool_is_false(flag: &bool) -> (r: bool)
    ensures
        r == !*flag,
{
    !*flag
}

/// Whether a path is the empty path, which stands for "not set".
pub fn path_buf_is_new(path: &str) -> (r: bool)
    ensures
        r == (path@.len() == 0),
{
    path.is_empty()
}

/// Any app.
pub open spec fn any_app() -> spec_fn(AppView) -> bool {
    |app: AppView| true
}

/// The app has a project placed in `dir`.
pub open spec fn has_project_in(dir: Seq<char>) -> spec_fn(AppView) -> bool {
    |app: AppView| exists|k: Seq<char>| app.projects.dom().contains(k) && (#[trigger] app.projects[k]).dir == dir
}

/// The views of a list of configurations, in order.
pub open spec fn config_views(configs: Seq<Config>) -> Seq<ConfigView> {
    Seq::new(configs.len(), |i: int| configs[i]@)
}

/// The view of an optional configuration.
pub open spec fn option_config(config: &Option<Config>) -> Option<ConfigView> {
    match config {
        Some(c) => Some(c@),
        None => None,
    }
}

/// The name of the app to work on. The name given on the command line wins.
/// Without one, it is the first app of the configuration in the working
/// directory; without that, the first cached app that has a project placed in
/// the working directory; without that, the fallback.
pub open spec fn app_name_of(
    given: Option<Seq<char>>,
    project_config: Option<ConfigView>,
    cached: ConfigView,
    cwd: Seq<char>,
    fallback: Option<Seq<char>>,
) -> Option<Seq<char>> {
    if given is Some {
        given
    } else if project_config is Some && first_key(project_config->0.apps, any_app()) is Some {
        first_key(project_config->0.apps, any_app())
    } else if first_key(cached.apps, has_project_in(cwd)) is Some {
        first_key(cached.apps, has_project_in(cwd))
    } else {
        fallback
    }
}

/// The directory name of the install project of the first app, where the
/// configuration has an app and that app a flagged project.
pub open spec fn install_dir_name(config: ConfigView) -> Option<Seq<char>> {
    match first_key(config.apps, any_app()) {
        Some(name) => first_key(config.apps[name].projects, is_flagged()),
        None => None,
    }
}

/// The directories of the projects under `keys` that have been placed, in
/// the order of `keys`.
pub open spec fn placed_dirs(keys: Seq<Seq<char>>, projects: Map<Seq<char>, crate::config::project::ProjectView>) -> Seq<
    Seq<char>,
>
    decreases keys.len(),
{
    if keys.len() == 0 {
        Seq::empty()
    } else {
        let before = placed_dirs(keys.drop_last(), projects);
        if projects[keys.last()].dir.len() > 0 {
            before.push(projects[keys.last()].dir)
        } else {
            before
        }
    }
}

/// The base with the layers merged into it one after the other.
pub open spec fn folded(base: ConfigView, layers: Seq<ConfigView>) -> ConfigView
    decreases layers.len(),
{
    if layers.len() == 0 {
        base
    } else {
        folded(base, layers.drop_last()).merge(layers.last())
    }
}

/// The position of the first app that has a project placed in `dir`.
fn first_app_with_project_in(config: &Config, dir: &String) -> (r: Option<usize>)
    requires
        config.wf(),
    ensures
        match r {
            Some(i) => i < config.apps.keys().len() && first_key(config@.apps, has_project_in(dir@)) == Some(
                config.apps.keys()[i as int],
            ),
            None => first_key(config@.apps, has_project_in(dir@)) is None,
        },
{
    let n = config.apps.len();
    let mut i: usize = 0;
    while i < n
        invariant
            config.wf(),
            n == config.apps.keys().len(),
            i <= n,
            forall|j: int| 0 <= j < i ==> !has_project_in(dir@)(config@.apps[#[trigger] config.apps.keys()[j]]),
        decreases n - i,
    {
        let app = config.apps.value_at(i);
        proof {
            config.apps.lemma_keys();
            app.projects.lemma_keys();
        }
        match first_match(&app.projects, &Criterion::Placed(dir)) {
            Some(at) => {
                proof {
                    let key = app.projects.keys()[at as int];
                    assert(app@.projects.dom().contains(key) && app@.projects[key].dir == dir@);
                    lemma_first_key_at(config.apps.keys(), config@.apps, has_project_in(dir@), i as int);
                }
                return Some(i);
            },
            None => {
                assert forall|k: Seq<char>| app@.projects.dom().contains(k) implies (#[trigger] app@.projects[k]).dir
                    != dir@ by {
                    assert(app.projects@.dom().contains(k));
                    assert(!is_placed(dir@)(app.projects@[k]@));
                }
            },
        }
        i += 1;
    }
    proof {
        config.apps.lemma_keys();
        lemma_first_key_none(config.apps.keys(), config@.apps, has_project_in(dir@));
    }
    None
}

/// The name of the first app, where there is one.
fn first_app_name(config: &Config) -> (r: Option<String>)
    requires
        config.wf(),
    ensures
        option_text(&r) == first_key(config@.apps, any_app()),
{
    proof {
        config.apps.lemma_keys();
    }
    if config.apps.len() == 0 {
        proof {
            lemma_first_key_none(config.apps.keys(), config@.apps, any_app());
        }
        None
    } else {
        proof {
            lemma_first_key_at(config.apps.keys(), config@.apps, any_app(), 0);
        }
        Some(config.apps.key_at(0).clone())
    }
}

/// Finds the name of the app to work on: the name given on the command line;
/// else the first app of the configuration found in the working directory;
/// else the first cached app with a project placed in the working directory;
/// else the fallback. None where all four fail.
pub fn get_app_name(
    app_name: &Option<String>,
    project_config: &Option<Config>,
    cached_config: &Config,
    cwd: &str,
    fallback: &Option<String>,
) -> (r: Option<String>)
    requires
        cached_config.wf(),
        project_config matches Some(c) ==> c.wf(),
    ensures
        option_text(&r) == app_name_of(
            option_text(app_name),
            option_config(project_config),
            cached_config@,
            cwd@,
            option_text(fallback),
        ),
{
    if let Some(name) = app_name {
        return Some(name.clone());
    }
    if let Some(config) = project_config {
        let first = first_app_name(config);
        if first.is_some() {
            return first;
        }
    }
    match first_app_with_project_in(cached_config, &cwd.to_owned()) {
        Some(at) => Some(cached_config.apps.key_at(at).clone()),
        None => match fallback {
            Some(name) => Some(name.clone()),
            None => None,
        },
    }
}

/// Whether the directory called `current_dir_name` is the install directory
/// that `config` describes: whether the first app of `config` has a flagged
/// project, and the first of them goes under that name.
pub fn is_install_dir(config: &Config, current_dir_name: &str) -> (r: bool)
    requires
        config.wf(),
    ensures
        r == (install_dir_name(config@) == Some(current_dir_name@)),
{
    proof {
        config.apps.lemma_keys();
    }
    if config.apps.len() == 0 {
        proof {
            lemma_first_key_none(config.apps.keys(), config@.apps, any_app());
        }
        return false;
    }
    proof {
        lemma_first_key_at(config.apps.keys(), config@.apps, any_app(), 0);
    }
    let app = config.apps.value_at(0);
    match first_match(&app.projects, &Criterion::Flagged) {
        Some(at) => *app.projects.key_at(at) == current_dir_name.to_owned(),
        None => false,
    }
}

/// The directories in which to look for further configuration: those of the
/// projects of the app called `app_name` that have been placed, in the order
/// of the projects' keys.
pub fn project_dirs(config: &Config, app_name: &String) -> (r: Vec<String>)
    requires
        config.wf(),
        config@.apps.dom().contains(app_name@),
    ensures
        texts(r@) == placed_dirs(config.apps@[app_name@].projects.keys(), config@.apps[app_name@].projects),
{
    let app = config.apps.get(app_name.as_str()).unwrap();
    let ghost keys = app.projects.keys();
    let ghost projects = app@.projects;
    let mut dirs: Vec<String> = Vec::new();
    let n = app.projects.len();
    let mut i: usize = 0;
    assert(texts(dirs@) =~= placed_dirs(keys.take(0), projects));
    while i < n
        invariant
            app.wf(),
            keys == app.projects.keys(),
            projects == app@.projects,
            n == keys.len(),
            i <= n,
            texts(dirs@) == placed_dirs(keys.take(i as int), projects),
        decreases n - i,
    {
        let project = app.projects.value_at(i);
        proof {
            app.projects.lemma_keys();
            assert(keys.take(i + 1).drop_last() =~= keys.take(i as int));
            assert(keys.take(i + 1).last() == keys[i as int]);
            assert(projects[keys[i as int]] == project@);
        }
        if !path_buf_is_new(project.dir.as_str()) {
            let ghost before = texts(dirs@);
            dirs.push(project.dir.clone());
            assert(texts(dirs@) =~= before.push(project@.dir));
        }
        i += 1;
    }
    assert(keys.take(n as int) =~= keys);
    dirs
}

/// Folds the configurations found in the project directories into the base,
/// in the order in which they are given: each is merged into what the ones
/// before it have made of the base.
pub fn combine(base: &Config, layers: &Vec<Config>) -> (r: Config)
    requires
        base.wf(),
        forall|i: int| 0 <= i < layers.len() ==> (#[trigger] layers@[i]).wf(),
    ensures
        r.wf(),
        r@ == folded(base@, config_views(layers@)),
{
    let ghost views = config_views(layers@);
    let mut all = base.clone();
    let mut i: usize = 0;
    assert(views.take(0) =~= Seq::<ConfigView>::empty());
    while i < layers.len()
        invariant
            i <= layers.len(),
            views == config_views(layers@),
            forall|j: int| 0 <= j < layers.len() ==> (#[trigger] layers@[j]).wf(),
            all.wf(),
            all@ == folded(base@, views.take(i as int)),
        decreases layers.len() - i,
    {
        proof {
            assert(views.take(i + 1).drop_last() =~= views.take(i as int));
            assert(views.take(i + 1).last() == layers@[i as int]@);
        }
        all = all.merge(&layers[i]);
        i += 1;
    }
    assert(views.take(i as int) =~= views);
    all
}

} // verus!
