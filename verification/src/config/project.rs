//! One checked-out project and the rule by which two descriptions of it
//! are merged.

use crate::config::app_config::{AppConfig, AppConfigView};
use crate::file::{join_path, joined_path};
use crate::text::{clone_texts, texts};
use vstd::prelude::*;

verus! {

/// One containerised source checkout.
#[derive(Debug, PartialEq)]
pub struct Project {
    /// A label for people; the directory name stands in where there is none.
    pub name: Option<String>,
    /// The remote to clone from; empty where the project is not managed.
    pub git: String,
    /// The name of the project's directory, which is also its key in an app.
    pub dir_name: String,
    /// The project's directory; empty until it has been resolved.
    pub dir: String,
    pub networks: Vec<String>,
    pub volumes: Vec<String>,
    pub on_install: Vec<String>,
    pub on_up: Vec<String>,
    pub after_up: Vec<String>,
    /// Compose files in the order in which they are handed on.
    pub compose_files: Vec<String>,
    /// Marks the project whose directory anchors the app.
    pub is_install: bool,
}

/// What a project holds, as mathematical values.
pub struct ProjectView {
    pub name: Option<Seq<char>>,
    pub git: Seq<char>,
    pub dir_name: Seq<char>,
    pub dir: Seq<char>,
    pub networks: Seq<Seq<char>>,
    pub volumes: Seq<Seq<char>>,
    pub on_install: Seq<Seq<char>>,
    pub on_up: Seq<Seq<char>>,
    pub after_up: Seq<Seq<char>>,
    pub compose_files: Seq<Seq<char>>,
    pub is_install: bool,
}

/// The incoming value where there is one, the base value where the incoming
/// one is empty.
pub open spec fn pick<T>(base: Seq<T>, incoming: Seq<T>) -> Seq<T> {
    if incoming.len() > 0 {
        incoming
    } else {
        base
    }
}

impl ProjectView {
    /// A project with nothing set.
    pub open spec fn empty() -> ProjectView {
        ProjectView {
            name: None,
            git: Seq::empty(),
            dir_name: Seq::empty(),
            dir: Seq::empty(),
            networks: Seq::empty(),
            volumes: Seq::empty(),
            on_install: Seq::empty(),
            on_up: Seq::empty(),
            after_up: Seq::empty(),
            compose_files: Seq::empty(),
            is_install: false,
        }
    }

    /// The label shown for the project.
    pub open spec fn display_name(self) -> Seq<char> {
        match self.name {
            Some(name) => name,
            None => self.dir_name,
        }
    }

    /// Field by field, the incoming value wins where it is set; the install
    /// flag is always the incoming one.
    pub open spec fn merge(self, incoming: ProjectView) -> ProjectView {
        ProjectView {
            name: if incoming.name is Some {
                incoming.name
            } else {
                self.name
            },
            git: pick(self.git, incoming.git),
            dir_name: pick(self.dir_name, incoming.dir_name),
            dir: pick(self.dir, incoming.dir),
            networks: pick(self.networks, incoming.networks),
            volumes: pick(self.volumes, incoming.volumes),
            on_install: pick(self.on_install, incoming.on_install),
            on_up: pick(self.on_up, incoming.on_up),
            after_up: pick(self.after_up, incoming.after_up),
            compose_files: pick(self.compose_files, incoming.compose_files),
            is_install: incoming.is_install,
        }
    }

    /// The project as it stands under `key` in an app with settings `config`:
    /// named after its key, and placed. An install project is placed in the
    /// app's install directory. Any other is placed under the shared
    /// directory, and becomes the install project if that is where the
    /// install directory is.
    pub open spec fn settled(self, key: Seq<char>, config: AppConfigView) -> ProjectView {
        let dir = if self.is_install {
            config.install_dir
        } else {
            joined_path(config.shared_dir, key)
        };
        ProjectView {
            dir_name: key,
            dir,
            is_install: self.is_install || dir == config.install_dir,
            ..self
        }
    }

    /// The project without its remote, side effects and hooks.
    pub open spec fn reset(self) -> ProjectView {
        ProjectView {
            git: Seq::empty(),
            networks: Seq::empty(),
            volumes: Seq::empty(),
            on_install: Seq::empty(),
            on_up: Seq::empty(),
            after_up: Seq::empty(),
            compose_files: Seq::empty(),
            ..self
        }
    }
}

impl View for Project {
    type V = ProjectView;

    open spec fn view(&self) -> ProjectView {
        ProjectView {
            name: match self.name {
                Some(name) => Some(name@),
                None => None,
            },
            git: self.git@,
            dir_name: self.dir_name@,
            dir: self.dir@,
            networks: texts(self.networks@),
            volumes: texts(self.volumes@),
            on_install: texts(self.on_install@),
            on_up: texts(self.on_up@),
            after_up: texts(self.after_up@),
            compose_files: texts(self.compose_files@),
            is_install: self.is_install,
        }
    }
}

/// A copy of the incoming string where it is set, else of the base string.
fn pick_text(base: &String, incoming: &String) -> (r: String)
    ensures
        r@ == pick(base@, incoming@),
{
    if incoming.as_str().is_empty() {
        base.clone()
    } else {
        incoming.clone()
    }
}

/// A copy of the incoming list where it has entries, else of the base list.
fn pick_texts(base: &Vec<String>, incoming: &Vec<String>) -> (r: Vec<String>)
    ensures
        texts(r@) == pick(texts(base@), texts(incoming@)),
{
    if incoming.len() == 0 {
        clone_texts(base)
    } else {
        clone_texts(incoming)
    }
}

/// A copy of an optional string.
fn clone_name(name: &Option<String>) -> (r: Option<String>)
    ensures
        r is Some == name is Some,
        name matches Some(n) ==> r matches Some(m) && m@ == n@,
{
    match name {
        Some(n) => Some(n.clone()),
        None => None,
    }
}

impl Clone for Project {
    fn clone(&self) -> (r: Self)
        ensures
            r@ == self@,
    {
        Project {
            name: clone_name(&self.name),
            git: self.git.clone(),
            dir_name: self.dir_name.clone(),
            dir: self.dir.clone(),
            networks: clone_texts(&self.networks),
            volumes: clone_texts(&self.volumes),
            on_install: clone_texts(&self.on_install),
            on_up: clone_texts(&self.on_up),
            after_up: clone_texts(&self.after_up),
            compose_files: clone_texts(&self.compose_files),
            is_install: self.is_install,
        }
    }
}

impl Project {
    /// A project with nothing set.
    pub fn new() -> (r: Self)
        ensures
            r@ == ProjectView::empty(),
    {
        let r = Project {
            name: None,
            git: String::new(),
            dir: String::new(),
            dir_name: String::new(),
            networks: Vec::new(),
            volumes: Vec::new(),
            on_install: Vec::new(),
            on_up: Vec::new(),
            after_up: Vec::new(),
            compose_files: Vec::new(),
            is_install: false,
        };
        assert(texts(Seq::<String>::empty()) =~= Seq::<Seq<char>>::empty());
        r
    }

    /// The label shown for the project: its name, or its directory name
    /// where it has no name.
    pub fn name(&self) -> (r: String)
        ensures
            r@ == self@.display_name(),
    {
        match &self.name {
            Some(name) => name.clone(),
            None => self.dir_name.clone(),
        }
    }

    /// Lays `provided` over this project: every field that `provided` sets
    /// replaces the one here, every field it leaves empty is kept, and the
    /// install flag is taken from `provided` whatever it is.
    pub fn merge(&self, provided: &Project) -> (r: Project)
        ensures
            r@ == self@.merge(provided@),
    {
        Project {
            name: if provided.name.is_some() {
                clone_name(&provided.name)
            } else {
                clone_name(&self.name)
            },
            git: pick_text(&self.git, &provided.git),
            dir_name: pick_text(&self.dir_name, &provided.dir_name),
            dir: pick_text(&self.dir, &provided.dir),
            networks: pick_texts(&self.networks, &provided.networks),
            volumes: pick_texts(&self.volumes, &provided.volumes),
            on_install: pick_texts(&self.on_install, &provided.on_install),
            on_up: pick_texts(&self.on_up, &provided.on_up),
            after_up: pick_texts(&self.after_up, &provided.after_up),
            compose_files: pick_texts(&self.compose_files, &provided.compose_files),
            is_install: provided.is_install,
        }
    }

    /// The project without its remote, side effects and hooks; its identity,
    /// place and install flag stay.
    pub fn reset(&self) -> (r: Project)
        ensures
            r@ == self@.reset(),
    {
        let r = Project {
            name: clone_name(&self.name),
            git: String::new(),
            dir_name: self.dir_name.clone(),
            dir: self.dir.clone(),
            networks: Vec::new(),
            volumes: Vec::new(),
            on_install: Vec::new(),
            on_up: Vec::new(),
            after_up: Vec::new(),
            compose_files: Vec::new(),
            is_install: self.is_install,
        };
        assert(texts(Seq::<String>::empty()) =~= Seq::<Seq<char>>::empty());
        r
    }

    /// Names the project after `key` and places it by the settings of the
    /// app that holds it under that key.
    pub fn settle(self, key: &str, config: &AppConfig) -> (r: Project)
        ensures
            r@ == self@.settled(key@, config@),
    {
        let dir = if self.is_install {
            config.install_dir.clone()
        } else {
            join_path(config.shared_dir.as_str(), key)
        };
        let is_install = self.is_install || dir == config.install_dir;
        Project {
            name: self.name,
            git: self.git,
            dir_name: key.to_owned(),
            dir,
            networks: self.networks,
            volumes: self.volumes,
            on_install: self.on_install,
            on_up: self.on_up,
            after_up: self.after_up,
            compose_files: self.compose_files,
            is_install,
        }
    }
}

/// The override rule, field by field: a field that `incoming` sets is the
/// merged field, a field that it leaves empty gives way to the base, and the
/// install flag is the incoming one in either case.
pub proof fn lemma_merge_overrides(base: ProjectView, incoming: ProjectView)
    ensures
        ({
            let m = base.merge(incoming);
            &&& m.is_install == incoming.is_install
            &&& m.name == (if incoming.name is Some { incoming.name } else { base.name })
            &&& m.git == (if incoming.git.len() > 0 { incoming.git } else { base.git })
            &&& m.dir_name == (if incoming.dir_name.len() > 0 { incoming.dir_name } else { base.dir_name })
            &&& m.dir == (if incoming.dir.len() > 0 { incoming.dir } else { base.dir })
            &&& m.networks == (if incoming.networks.len() > 0 { incoming.networks } else { base.networks })
            &&& m.volumes == (if incoming.volumes.len() > 0 { incoming.volumes } else { base.volumes })
            &&& m.on_install == (if incoming.on_install.len() > 0 {
                incoming.on_install
            } else {
                base.on_install
            })
            &&& m.on_up == (if incoming.on_up.len() > 0 { incoming.on_up } else { base.on_up })
            &&& m.after_up == (if incoming.after_up.len() > 0 { incoming.after_up } else { base.after_up })
            &&& m.compose_files == (if incoming.compose_files.len() > 0 {
                incoming.compose_files
            } else {
                base.compose_files
            })
        }),
{
}

} // verus!
