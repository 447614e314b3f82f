//! Turning the project names given on a command line into the set of
//! projects to work on.

use crate::config::app::{project_views, App, AppView};
use crate::config::project::{Project, ProjectView};
use crate::sorted_map::{
    first_key, is_first_key, lemma_first_key_at, lemma_first_key_is, lemma_first_key_none, SortedMap,
};
use crate::text::{text_lt, texts};
use vstd::prelude::*;

verus! {

/// The global switches of a command line that bear on the selection.
#[derive(Debug, PartialEq)]
pub struct Args {
    /// The app to work on, where one was named.
    pub app: Option<String>,
    /// Whether every project of the app was asked for.
    pub all: Option<bool>,
}

/// A resolved app together with the projects selected from it.
#[derive(Debug, PartialEq)]
pub struct Parameters {
    pub app: App,
    pub projects: SortedMap<Project>,
}

impl Parameters {
    /// The app and the selection are both kept in the order of their keys.
    pub open spec fn wf(&self) -> bool {
        self.app.wf() && self.projects.wf()
    }
}

/// Why a selection could not be made.
#[derive(Clone, Copy, Debug, PartialEq, Eq)]
pub enum SelectionError {
    /// Every project was asked for and a list of projects was given as well.
    AllWithProjects,
    /// No project is in the working directory and none goes by the given
    /// name.
    UnknownProject,
}

impl SelectionError {
    /// The message shown for the error.
    pub fn message(&self) -> (r: &'static str)
        ensures
            r@ == (match *self {
                SelectionError::AllWithProjects => "--all flag is not compatible with a project list"@,
                SelectionError::UnknownProject =>
                    "Could not determine project, consider passing the --project flag"@,
            }),
    {
        match self {
            SelectionError::AllWithProjects => "--all flag is not compatible with a project list",
            SelectionError::UnknownProject => "Could not determine project, consider passing the --project flag",
        }
    }
}

/// The project goes by the label `entry`.
pub open spec fn is_named(entry: Seq<char>) -> spec_fn(ProjectView) -> bool {
    |p: ProjectView| p.display_name() == entry
}

/// The project is flagged as the install project.
pub open spec fn is_flagged() -> spec_fn(ProjectView) -> bool {
    |p: ProjectView| p.is_install
}

/// The project is placed in `dir`.
pub open spec fn is_placed(dir: Seq<char>) -> spec_fn(ProjectView) -> bool {
    |p: ProjectView| p.dir == dir
}

/// The project is called `name`, by its label or by its directory name.
pub open spec fn is_called(name: Seq<char>) -> spec_fn(ProjectView) -> bool {
    |p: ProjectView| p.name == Some(name) || p.dir_name == name
}

/// The project that one entry of a list of names selects, given the keys
/// `taken` by the entries before it: the project whose key is the entry, or
/// else the first project that goes by the entry as its label; none where
/// that project is already taken or does not exist.
pub open spec fn resolve(app: AppView, taken: Set<Seq<char>>, entry: Seq<char>) -> Option<Seq<char>> {
    if app.projects.dom().contains(entry) && !taken.contains(entry) {
        Some(entry)
    } else {
        match first_key(app.projects, is_named(entry)) {
            Some(key) => if taken.contains(key) {
                None
            } else {
                Some(key)
            },
            None => None,
        }
    }
}

/// The keys that a list of names selects, entry by entry from the left.
pub open spec fn selected(app: AppView, names: Seq<Seq<char>>) -> Set<Seq<char>>
    decreases names.len(),
{
    if names.len() == 0 {
        Set::empty()
    } else {
        let before = selected(app, names.drop_last());
        match resolve(app, before, names.last()) {
            Some(key) => before.insert(key),
            None => before,
        }
    }
}

/// The keys of the selection with the install project added: the first
/// flagged project among those that the names did not select.
pub open spec fn with_install(app: AppView, chosen: Set<Seq<char>>) -> Set<Seq<char>> {
    match first_key(app.projects.remove_keys(chosen), is_flagged()) {
        Some(key) => chosen.insert(key),
        None => chosen,
    }
}

/// The projects that a list of names selects from an app. An empty list
/// selects every project. Otherwise the entries select one project each at
/// most, and, where the install project is asked for and was not selected, it
/// is added.
pub open spec fn filtered(app: AppView, names: Seq<Seq<char>>, include_install: bool) -> Map<
    Seq<char>,
    ProjectView,
> {
    if names.len() == 0 {
        app.projects
    } else if include_install {
        app.projects.restrict(with_install(app, selected(app, names)))
    } else {
        app.projects.restrict(selected(app, names))
    }
}

/// The keys of the projects that are placed in `dir`.
pub open spec fn placed_in(app: AppView, dir: Seq<char>) -> Set<Seq<char>> {
    Set::new(|k: Seq<char>| app.projects.dom().contains(k) && app.projects[k].dir == dir)
}

/// The default selection, made without a list of names: the projects placed
/// in the working directory where there are any, every project otherwise.
pub open spec fn default_selection(app: AppView, cwd: Seq<char>) -> Map<Seq<char>, ProjectView> {
    if placed_in(app, cwd) == Set::<Seq<char>>::empty() {
        app.projects
    } else {
        app.projects.restrict(placed_in(app, cwd))
    }
}

/// A test on a project, as the walks over an app's projects apply it.
pub(crate) enum Criterion<'a> {
    Named(&'a String),
    Flagged,
    Placed(&'a String),
    Called(&'a String),
}

impl<'a> Criterion<'a> {
    pub(crate) open spec fn pred(self) -> spec_fn(ProjectView) -> bool {
        match self {
            Criterion::Named(entry) => is_named(entry@),
            Criterion::Flagged => is_flagged(),
            Criterion::Placed(dir) => is_placed(dir@),
            Criterion::Called(name) => is_called(name@),
        }
    }

    fn holds(&self, project: &Project) -> (r: bool)
        ensures
            r == self.pred()(project@),
    {
        match self {
            Criterion::Named(entry) => project.name() == **entry,
            Criterion::Flagged => project.is_install,
            Criterion::Placed(dir) => project.dir == **dir,
            Criterion::Called(name) => {
                let by_label = match &project.name {
                    Some(label) => *label == **name,
                    None => false,
                };
                by_label || project.dir_name == **name
            },
        }
    }
}

/// The position of the first project, in the order of the keys, that meets
/// `criterion`.
pub(crate) fn first_match(projects: &SortedMap<Project>, criterion: &Criterion) -> (r: Option<usize>)
    requires
        projects.wf(),
    ensures
        match r {
            Some(i) => i < projects.keys().len() && first_key(project_views(projects@), criterion.pred())
                == Some(projects.keys()[i as int]),
            None => first_key(project_views(projects@), criterion.pred()) is None && forall|k: Seq<char>|
                projects@.dom().contains(k) ==> !criterion.pred()(#[trigger] projects@[k]@),
        },
{
    let n = projects.len();
    let mut i: usize = 0;
    proof {
        projects.lemma_keys();
    }
    while i < n
        invariant
            projects.wf(),
            n == projects.keys().len(),
            i <= n,
            forall|j: int| 0 <= j < i ==> !criterion.pred()(projects@[#[trigger] projects.keys()[j]]@),
        decreases n - i,
    {
        if criterion.holds(projects.value_at(i)) {
            proof {
                projects.lemma_keys();
                lemma_first_key_at(projects.keys(), project_views(projects@), criterion.pred(), i as int);
            }
            return Some(i);
        }
        i += 1;
    }
    proof {
        projects.lemma_keys();
        let views = project_views(projects@);
        lemma_first_key_none(projects.keys(), views, criterion.pred());
        assert forall|k: Seq<char>| projects@.dom().contains(k) implies !criterion.pred()(
            #[trigger] projects@[k]@,
        ) by {
            assert(views.dom().contains(k));
            assert(views[k] == projects@[k]@);
        }
    }
    None
}

/// A copy of the projects of a map.
fn clone_projects(projects: &SortedMap<Project>) -> (r: SortedMap<Project>)
    requires
        projects.wf(),
    ensures
        r.wf(),
        r.keys() == projects.keys(),
        r@.dom() == projects@.dom(),
        forall|k: Seq<char>| r@.dom().contains(k) ==> (#[trigger] r@[k])@ == projects@[k]@,
        project_views(r@) == project_views(projects@),
{
    let r = projects.clone();
    assert(project_views(r@) =~= project_views(projects@));
    r
}

/// Selects projects of `app` by the names in `projects`. An empty list
/// selects every project. Otherwise each entry selects the project whose
/// directory name it is or, where there is none left by that name, the first
/// project that goes by it as its label; an entry that finds no project, or
/// one already selected, selects nothing. With `include_install` the install
/// project, that is the first flagged project not yet selected, is added.
pub fn filter_projects(app: &App, projects: &Vec<String>, include_install: bool) -> (r: SortedMap<Project>)
    requires
        app.wf(),
    ensures
        r.wf(),
        project_views(r@) == filtered(app@, texts(projects@), include_install),
{
    if projects.len() == 0 {
        return clone_projects(&app.projects);
    }
    let ghost names = texts(projects@);
    let mut remaining = clone_projects(&app.projects);
    let mut chosen: SortedMap<Project> = SortedMap::new();
    let mut i: usize = 0;
    while i < projects.len()
        invariant
            app.wf(),
            remaining.wf(),
            chosen.wf(),
            i <= projects.len(),
            names == texts(projects@),
            chosen@.dom() == selected(app@, names.take(i as int)),
            forall|k: Seq<char>|
                remaining@.dom().contains(k) <==> app.projects@.dom().contains(k) && !chosen@.dom().contains(k),
            forall|k: Seq<char>| #[trigger] chosen@.dom().contains(k) ==> app.projects@.dom().contains(k),
            forall|k: Seq<char>| chosen@.dom().contains(k) ==> (#[trigger] chosen@[k])@ == app.projects@[k]@,
            forall|k: Seq<char>| remaining@.dom().contains(k) ==> (#[trigger] remaining@[k])@ == app.projects@[k]@,
        decreases projects.len() - i,
    {
        let entry = &projects[i];
        proof {
            assert(names.take(i as int + 1).drop_last() =~= names.take(i as int));
            assert(names.take(i as int + 1).last() == entry@);
        }
        let ghost before = chosen@;
        match remaining.remove(entry.as_str()) {
            Some(project) => {
                assert(project@ == app.projects@[entry@]@);
                chosen.insert(entry.clone(), project);
                assert(chosen@.dom() =~= before.dom().insert(entry@));
            },
            None => {
                match first_match(&app.projects, &Criterion::Named(entry)) {
                    Some(at) => {
                        let key = app.projects.key_at(at);
                        match remaining.remove(key.as_str()) {
                            Some(project) => {
                                assert(project@ == app.projects@[key@]@);
                                chosen.insert(key.clone(), project);
                                assert(chosen@.dom() =~= before.dom().insert(key@));
                            },
                            None => {},
                        }
                    },
                    None => {},
                }
            },
        }
        i += 1;
    }
    assert(names.take(i as int) =~= names);
    if include_install {
        assert(project_views(remaining@) =~= app@.projects.remove_keys(chosen@.dom()));
        match first_match(&remaining, &Criterion::Flagged) {
            Some(at) => {
                let key = remaining.key_at(at).clone();
                let project = remaining.value_at(at).clone();
                proof {
                    remaining.lemma_keys();
                }
                chosen.insert(key, project);
            },
            None => {},
        }
        assert(project_views(chosen@) =~= app@.projects.restrict(with_install(app@, selected(app@, names))));
    } else {
        assert(project_views(chosen@) =~= app@.projects.restrict(selected(app@, names)));
    }
    chosen
}

/// The projects of `app` that are placed in `dir`.
fn projects_in(app: &App, dir: &String) -> (r: SortedMap<Project>)
    requires
        app.wf(),
    ensures
        r.wf(),
        project_views(r@) == app@.projects.restrict(placed_in(app@, dir@)),
        r@.dom() == placed_in(app@, dir@),
{
    let mut found: SortedMap<Project> = SortedMap::new();
    let n = app.projects.len();
    let mut i: usize = 0;
    proof {
        app.projects.lemma_keys();
    }
    while i < n
        invariant
            app.wf(),
            found.wf(),
            n == app.projects.keys().len(),
            i <= n,
            forall|k: Seq<char>|
                found@.dom().contains(k) <==> app.projects.keys().take(i as int).contains(k) && placed_in(
                    app@,
                    dir@,
                ).contains(k),
            forall|k: Seq<char>| found@.dom().contains(k) ==> (#[trigger] found@[k])@ == app.projects@[k]@,
        decreases n - i,
    {
        let project = app.projects.value_at(i);
        proof {
            app.projects.lemma_keys();
            crate::text::lemma_take_next(app.projects.keys(), i as int);
        }
        if project.dir == *dir {
            found.insert(app.projects.key_at(i).clone(), project.clone());
        }
        i += 1;
    }
    proof {
        app.projects.lemma_keys();
        assert(app.projects.keys().take(n as int) =~= app.projects.keys());
        assert(found@.dom() =~= placed_in(app@, dir@));
        assert(project_views(found@) =~= app@.projects.restrict(placed_in(app@, dir@)));
    }
    found
}

/// The projects to work on. With `all` set, every project of the app, and
/// an error where names were given as well. With names, the projects they
/// select. With neither, the projects placed in the working directory `cwd`
/// where there are any, and then without the install project being added;
/// every project otherwise.
pub fn get_projects(
    app: &App,
    project_names: &Vec<String>,
    all: Option<bool>,
    include_install: bool,
    cwd: &str,
) -> (r: Result<SortedMap<Project>, SelectionError>)
    requires
        app.wf(),
    ensures
        r is Err <==> all == Some(true) && project_names.len() > 0,
        r matches Err(e) ==> e == SelectionError::AllWithProjects,
        r matches Ok(projects) ==> projects.wf() && project_views(projects@) == (if all == Some(true) {
            app@.projects
        } else if project_names.len() > 0 {
            filtered(app@, texts(project_names@), include_install)
        } else {
            default_selection(app@, cwd@)
        }),
{
    let every = match all {
        Some(flag) => flag,
        None => false,
    };
    if every {
        if project_names.len() > 0 {
            return Err(SelectionError::AllWithProjects);
        }
        return Ok(clone_projects(&app.projects));
    }
    if project_names.len() > 0 {
        return Ok(filter_projects(app, project_names, include_install));
    }
    let here = projects_in(app, &cwd.to_owned());
    if here.is_empty() {
        assert(placed_in(app@, cwd@) =~= Set::<Seq<char>>::empty());
        Ok(clone_projects(&app.projects))
    } else {
        proof {
            here.lemma_keys();
            assert(placed_in(app@, cwd@).contains(here.keys()[0]));
        }
        Ok(here)
    }
}

/// The resolved app together with the projects selected from it, as
/// `get_projects` selects them under the switches in `args`.
pub fn get_parameters(
    args: &Args,
    app: App,
    project_names: &Vec<String>,
    include_install: bool,
    cwd: &str,
) -> (r: Result<Parameters, SelectionError>)
    requires
        app.wf(),
    ensures
        r is Err <==> args.all == Some(true) && project_names.len() > 0,
        r matches Err(e) ==> e == SelectionError::AllWithProjects,
        r matches Ok(parameters) ==> parameters.wf() && parameters.app == app && project_views(
            parameters.projects@,
        ) == (if args.all == Some(true) {
            app@.projects
        } else if project_names.len() > 0 {
            filtered(app@, texts(project_names@), include_install)
        } else {
            default_selection(app@, cwd@)
        }),
{
    match get_projects(&app, project_names, args.all, include_install, cwd) {
        Ok(projects) => Ok(Parameters { app, projects }),
        Err(e) => Err(e),
    }
}

/// The key of the one project that a command on a single project works on:
/// the first project placed in the working directory or, where there is
/// none, the first project called by the given name.
pub open spec fn single_project(app: AppView, name: Option<Seq<char>>, cwd: Seq<char>) -> Option<Seq<char>> {
    match first_key(app.projects, is_placed(cwd)) {
        Some(key) => Some(key),
        None => match name {
            Some(n) => first_key(app.projects, is_called(n)),
            None => None,
        },
    }
}

/// The project that a command on a single project works on, or an error
/// where the working directory holds no project and the name, if one was
/// given, finds none.
pub fn get_project(app: &App, project_name: &Option<String>, cwd: &str) -> (r: Result<Project, SelectionError>)
    requires
        app.wf(),
    ensures
        match r {
            Ok(project) => match single_project(app@, option_text(project_name), cwd@) {
                Some(key) => app@.projects.dom().contains(key) && project@ == app@.projects[key],
                None => false,
            },
            Err(e) => e == SelectionError::UnknownProject && single_project(
                app@,
                option_text(project_name),
                cwd@,
            ) is None,
        },
{
    let dir = cwd.to_owned();
    proof {
        app.projects.lemma_keys();
    }
    match first_match(&app.projects, &Criterion::Placed(&dir)) {
        Some(at) => Ok(app.projects.value_at(at).clone()),
        None => match project_name {
            Some(name) => match first_match(&app.projects, &Criterion::Called(name)) {
                Some(at) => Ok(app.projects.value_at(at).clone()),
                None => Err(SelectionError::UnknownProject),
            },
            None => Err(SelectionError::UnknownProject),
        },
    }
}

/// The view of an optional string.
pub open spec fn option_text(text: &Option<String>) -> Option<Seq<char>> {
    match text {
        Some(t) => Some(t@),
        None => None,
    }
}

/// Selecting by an empty list of names, without the install project being
/// asked for, gives every project of the app, each as it is.
pub proof fn lemma_filter_complete(app: AppView)
    ensures
        filtered(app, Seq::empty(), false) == app.projects,
{
}

/// Selecting by one name, with the install project asked for, gives two
/// projects where the name finds a project other than the install project
/// and the install project exists: the named one and the install project.
pub proof fn lemma_filter_adds_install(app: AppView, name: Seq<char>, named: Seq<char>, install: Seq<char>)
    requires
        resolve(app, Set::empty(), name) == Some(named),
        first_key(app.projects, is_flagged()) == Some(install),
        named != install,
    ensures
        filtered(app, seq![name], true).dom() == set![named, install],
        filtered(app, seq![name], true)[named] == app.projects[named],
        filtered(app, seq![name], true)[install] == app.projects[install],
        filtered(app, seq![name], true).dom().len() == 2,
{
    let names = seq![name];
    assert(names.drop_last() =~= Seq::<Seq<char>>::empty());
    assert(names.last() == name);
    reveal_with_fuel(selected, 2);
    let chosen = selected(app, names);
    assert(chosen =~= set![named]);
    assert(app.projects.dom().contains(named));
    let rest = app.projects.remove_keys(chosen);
    assert(is_first_key(app.projects, is_flagged(), install));
    assert(is_first_key(rest, is_flagged(), install)) by {
        assert(rest.dom().contains(install));
        assert forall|k: Seq<char>| #[trigger]
            rest.dom().contains(k) && is_flagged()(rest[k]) && k != install implies text_lt(install, k) by {
            assert(app.projects.dom().contains(k) && is_flagged()(app.projects[k]));
        }
    }
    lemma_first_key_is(rest, is_flagged(), install);
    assert(with_install(app, chosen) =~= set![named, install]);
    assert(filtered(app, names, true).dom() =~= set![named, install]);
    assert(set![named, install] =~= set![named].insert(install));
    assert(set![named].len() == 1) by {
        assert(set![named] =~= Set::<Seq<char>>::empty().insert(named));
    }
}

} // verus!
