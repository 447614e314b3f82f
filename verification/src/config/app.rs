//! A named application: its projects by directory name, and its settings.

use crate::config::app_config::{AppConfig, AppConfigView};
use crate::config::project::{Project, ProjectView};
use crate::sorted_map::SortedMap;
use crate::text::lemma_take_next;
use vstd::prelude::*;

verus! {

/// An app: projects keyed by directory name, walked in the order of the
/// keys, and the settings they share.
#[derive(Debug, PartialEq)]
pub struct App {
    pub projects: SortedMap<Project>,
    pub config: AppConfig,
}

/// What an app holds, as mathematical values.
pub struct AppView {
    pub projects: Map<Seq<char>, ProjectView>,
    pub config: AppConfigView,
}

/// The views of the projects of a map, key by key.
pub open spec fn project_views(projects: Map<Seq<char>, Project>) -> Map<Seq<char>, ProjectView> {
    projects.map_values(|p: Project| p@)
}

impl AppView {
    /// An app without projects or settings.
    pub open spec fn empty() -> AppView {
        AppView { projects: Map::empty(), config: AppConfigView::empty() }
    }

    /// What merging makes of the project that `incoming` holds under `key`:
    /// laid over the base project of that key where there is one, taken as
    /// it is where there is none, and then settled under the merged settings.
    pub open spec fn merged_project(self, incoming: AppView, key: Seq<char>) -> ProjectView
        recommends
            incoming.projects.dom().contains(key),
    {
        let laid = if self.projects.dom().contains(key) {
            self.projects[key].merge(incoming.projects[key])
        } else {
            incoming.projects[key]
        };
        laid.settled(key, self.config.merge(incoming.config))
    }

    /// The merge of two apps: the settings merged, every project of either
    /// side present, those of `incoming` merged and settled, the others kept.
    pub open spec fn merge(self, incoming: AppView) -> AppView {
        AppView {
            projects: Map::new(
                |k: Seq<char>| self.projects.dom().contains(k) || incoming.projects.dom().contains(k),
                |k: Seq<char>|
                    if incoming.projects.dom().contains(k) {
                        self.merged_project(incoming, k)
                    } else {
                        self.projects[k]
                    },
            ),
            config: self.config.merge(incoming.config),
        }
    }
}

impl View for App {
    type V = AppView;

    open spec fn view(&self) -> AppView {
        AppView { projects: project_views(self.projects@), config: self.config@ }
    }
}

impl Clone for App {
    fn clone(&self) -> (r: Self)
        ensures
            self.wf() ==> r.wf(),
            self.wf() ==> r@ == self@,
    {
        let r = App { projects: self.projects.clone(), config: self.config.clone() };
        proof {
            if self.wf() {
                assert(r@.projects =~= self@.projects);
            }
        }
        r
    }
}

impl App {
    /// The projects are kept in the order of their keys.
    pub open spec fn wf(&self) -> bool {
        self.projects.wf()
    }

    /// An app without projects or settings.
    pub fn new() -> (r: Self)
        ensures
            r.wf(),
            r@ == AppView::empty(),
    {
        let r = App { projects: SortedMap::new(), config: AppConfig::new() };
        assert(r@.projects =~= Map::empty());
        r
    }

    /// Puts a project with nothing set under `name`, in place of any that was
    /// there, and hands it out to be filled in.
    pub fn add_project(&mut self, name: &str) -> (r: &mut Project)
        requires
            old(self).wf(),
        ensures
            r@ == ProjectView::empty(),
            final(self).wf(),
            final(self)@.config == old(self)@.config,
            final(self)@.projects == old(self)@.projects.insert(name@, final(r)@),
    {
        self.projects.insert(name.to_owned(), Project::new());
        let at = self.projects.position(name);
        assert(self.projects@.dom().contains(name@));
        let i = at.unwrap();
        proof {
            let before = old(self).projects@;
            let mid = self.projects@;
            assert forall|p: Project| #[trigger]
                project_views(mid.insert(name@, p)) == project_views(before).insert(name@, p@) by {
                assert(project_views(mid.insert(name@, p)) =~= project_views(before).insert(name@, p@));
            }
        }
        self.projects.value_at_mut(i)
    }

    /// Merges `provided_app` into this app. The settings are merged field by
    /// field. Every project of `provided_app` is laid over the project of the
    /// same key here, or taken as it is where there is none, and then named
    /// after its key and placed by the merged settings. Projects that only
    /// this app has are kept as they are.
    pub fn merge(&self, provided_app: &App) -> (r: App)
        requires
            self.wf(),
            provided_app.wf(),
        ensures
            r.wf(),
            r@ == self@.merge(provided_app@),
    {
        let config = self.config.merge(&provided_app.config);
        let mut projects = self.projects.clone();
        let n = provided_app.projects.len();
        let mut i: usize = 0;
        proof {
            provided_app.projects.lemma_keys();
        }
        while i < n
            invariant
                self.wf(),
                provided_app.wf(),
                projects.wf(),
                n == provided_app.projects.keys().len(),
                i <= n,
                config@ == self@.config.merge(provided_app@.config),
                forall|k: Seq<char>|
                    projects@.dom().contains(k) <==> self.projects@.dom().contains(k)
                        || provided_app.projects.keys().take(i as int).contains(k),
                forall|k: Seq<char>|
                    projects@.dom().contains(k) ==> (#[trigger] projects@[k])@ == (if provided_app.projects.keys().take(
                        i as int,
                    ).contains(k) {
                        self@.merged_project(provided_app@, k)
                    } else {
                        self.projects@[k]@
                    }),
            decreases n - i,
        {
            let key = provided_app.projects.key_at(i);
            let incoming = provided_app.projects.value_at(i);
            let laid = match self.projects.get(key.as_str()) {
                Some(base) => base.merge(incoming),
                None => incoming.clone(),
            };
            let settled = laid.settle(key.as_str(), &config);
            proof {
                provided_app.projects.lemma_keys();
                let keys = provided_app.projects.keys();
                lemma_take_next(keys, i as int);
                assert(settled@ == self@.merged_project(provided_app@, key@));
            }
            projects.insert(key.clone(), settled);
            i += 1;
        }
        let r = App { projects, config };
        proof {
            provided_app.projects.lemma_keys();
            let keys = provided_app.projects.keys();
            assert(keys.take(n as int) =~= keys);
            assert(r@.projects =~= self@.merge(provided_app@).projects);
        }
        r
    }
}

/// Merging an app without projects or settings into an app changes nothing.
pub proof fn lemma_merge_empty(base: AppView)
    ensures
        base.merge(AppView::empty()) == base,
{
    assert(base.merge(AppView::empty()).projects =~= base.projects);
}

/// Merging the same app in a second time changes nothing.
pub proof fn lemma_merge_idempotent(base: AppView, incoming: AppView)
    ensures
        base.merge(incoming).merge(incoming) == base.merge(incoming),
{
    let once = base.merge(incoming);
    let twice = once.merge(incoming);
    assert(twice.config == once.config);
    assert forall|k: Seq<char>| once.projects.dom().contains(k) implies twice.projects[k]
        == once.projects[k] by {
        if incoming.projects.dom().contains(k) {
            assert(once.projects[k] == base.merged_project(incoming, k));
            assert(twice.projects[k] == once.merged_project(incoming, k));
        }
    }
    assert(twice.projects =~= once.projects);
}

/// A merged project whose place under the shared directory is the app's
/// install directory is the install project, whatever its flag was before.
pub proof fn lemma_install_path_derivation(base: AppView, incoming: AppView, key: Seq<char>)
    requires
        incoming.projects.dom().contains(key),
        crate::file::joined_path(base.merge(incoming).config.shared_dir, key) == base.merge(
            incoming,
        ).config.install_dir,
    ensures
        base.merge(incoming).projects[key].is_install,
{
}

/// Every project that a merge takes from the incoming app is named after its
/// key, and is either the install project, placed in the install directory,
/// or placed under the shared directory.
pub proof fn lemma_merged_project_placed(base: AppView, incoming: AppView, key: Seq<char>)
    requires
        incoming.projects.dom().contains(key),
    ensures
        ({
            let merged = base.merge(incoming);
            let project = merged.projects[key];
            &&& project.dir_name == key
            &&& project.is_install ==> project.dir == merged.config.install_dir
            &&& !project.is_install ==> project.dir == crate::file::joined_path(merged.config.shared_dir, key)
        }),
{
}

} // verus!
