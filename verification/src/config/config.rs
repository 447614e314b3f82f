//! The root document: apps by name.

use crate::config::app::{lemma_merge_idempotent, App, AppView};
use crate::sorted_map::SortedMap;
use crate::text::lemma_take_next;
use vstd::prelude::*;

verus! {

/// A configuration document: apps keyed by name, walked in the order of the
/// names.
#[derive(Debug, PartialEq)]
pub struct Config {
    pub apps: SortedMap<App>,
}

/// What a configuration holds, as mathematical values.
pub struct ConfigView {
    pub apps: Map<Seq<char>, AppView>,
}

/// The views of the apps of a map, key by key.
pub open spec fn app_views(apps: Map<Seq<char>, App>) -> Map<Seq<char>, AppView> {
    apps.map_values(|a: App| a@)
}

impl ConfigView {
    /// A configuration without apps.
    pub open spec fn empty() -> ConfigView {
        ConfigView { apps: Map::empty() }
    }

    /// What merging makes of the app that `incoming` holds under `key`: merged
    /// into the base app of that name where there is one, and into an app
    /// without projects or settings where there is none.
    pub open spec fn merged_app(self, incoming: ConfigView, key: Seq<char>) -> AppView
        recommends
            incoming.apps.dom().contains(key),
    {
        if self.apps.dom().contains(key) {
            self.apps[key].merge(incoming.apps[key])
        } else {
            AppView::empty().merge(incoming.apps[key])
        }
    }

    /// The configuration with the app called `app_name` anchored at `dir` where
    /// the app has no install directory yet; unchanged where it has one, or
    /// where there is no such app.
    pub open spec fn anchored(self, app_name: Seq<char>, dir: Seq<char>) -> ConfigView {
        if self.apps.dom().contains(app_name) && self.apps[app_name].config.install_dir.len() == 0 {
            ConfigView {
                apps: self.apps.insert(
                    app_name,
                    AppView { config: self.apps[app_name].config.anchored(dir), ..self.apps[app_name] },
                ),
            }
        } else {
            self
        }
    }

    /// The merge of two configurations: every app of either side is present,
    /// those of `incoming` merged, the others kept.
    pub open spec fn merge(self, incoming: ConfigView) -> ConfigView {
        ConfigView {
            apps: Map::new(
                |k: Seq<char>| self.apps.dom().contains(k) || incoming.apps.dom().contains(k),
                |k: Seq<char>|
                    if incoming.apps.dom().contains(k) {
                        self.merged_app(incoming, k)
                    } else {
                        self.apps[k]
                    },
            ),
        }
    }
}

impl View for Config {
    type V = ConfigView;

    open spec fn view(&self) -> ConfigView {
        ConfigView { apps: app_views(self.apps@) }
    }
}

impl Clone for Config {
    fn clone(&self) -> (r: Self)
        ensures
            self.wf() ==> r.wf(),
            self.wf() ==> r@ == self@,
    {
        let r = Config { apps: self.apps.clone() };
        proof {
            if self.wf() {
                assert(r@.apps =~= self@.apps);
            }
        }
        r
    }
}

impl Config {
    /// The apps are kept in the order of their names, and so are the
    /// projects of each.
    pub open spec fn wf(&self) -> bool {
        &&& self.apps.wf()
        &&& forall|k: Seq<char>| self.apps@.dom().contains(k) ==> (#[trigger] self.apps@[k]).wf()
    }

    /// A configuration without apps.
    pub fn new() -> (r: Self)
        ensures
            r.wf(),
            r@ == ConfigView::empty(),
    {
        let r = Config { apps: SortedMap::new() };
        assert(r@.apps =~= Map::empty());
        r
    }

    /// Puts an app without projects or settings under `name`, in place of
    /// any that was there, and hands it out to be filled in.
    pub fn add_app(&mut self, name: &String) -> (r: &mut App)
        requires
            old(self).wf(),
        ensures
            r.wf(),
            r@ == AppView::empty(),
            final(r).wf() ==> final(self).wf(),
            final(self)@.apps == old(self)@.apps.insert(name@, final(r)@),
    {
        self.apps.insert(name.clone(), App::new());
        let at = self.apps.position(name.as_str());
        assert(self.apps@.dom().contains(name@));
        let i = at.unwrap();
        proof {
            let before = old(self).apps@;
            let mid = self.apps@;
            assert forall|a: App| #[trigger] app_views(mid.insert(name@, a)) == app_views(before).insert(name@, a@) by {
                assert(app_views(mid.insert(name@, a)) =~= app_views(before).insert(name@, a@));
            }
        }
        self.apps.value_at_mut(i)
    }

    /// Hands out the app called `name`, which the configuration must hold.
    pub fn get(&mut self, name: &String) -> (r: &mut App)
        requires
            old(self).wf(),
            old(self)@.apps.dom().contains(name@),
        ensures
            r.wf(),
            r@ == old(self)@.apps[name@],
            final(r).wf() ==> final(self).wf(),
            final(self)@.apps == old(self)@.apps.insert(name@, final(r)@),
    {
        let at = self.apps.position(name.as_str());
        let i = at.unwrap();
        proof {
            let before = old(self).apps@;
            assert forall|a: App| #[trigger] app_views(before.insert(name@, a)) == app_views(before).insert(name@, a@) by {
                assert(app_views(before.insert(name@, a)) =~= app_views(before).insert(name@, a@));
            }
        }
        self.apps.value_at_mut(i)
    }

    /// Anchors the app called `app_name` at `dir` where it has no install
    /// directory yet: `dir` becomes its install directory, the parent of `dir`
    /// its shared directory.
    pub fn anchor(&mut self, app_name: &String, dir: &str)
        requires
            old(self).wf(),
        ensures
            final(self).wf(),
            final(self)@ == old(self)@.anchored(app_name@, dir@),
    {
        if self.apps.contains_key(app_name.as_str()) {
            let app = self.get(app_name);
            if app.config.install_dir.as_str().is_empty() {
                app.config.init(dir);
                assert(self@.apps =~= old(self)@.anchored(app_name@, dir@).apps);
            } else {
                assert(self@.apps =~= old(self)@.apps);
            }
        }
    }

    /// Merges `config` into this configuration. Every app of `config` is
    /// merged into the app of the same name here, or into an app without
    /// projects or settings where there is none. Apps that only this
    /// configuration has are kept as they are.
    pub fn merge(&self, config: &Config) -> (r: Config)
        requires
            self.wf(),
            config.wf(),
        ensures
            r.wf(),
            r@ == self@.merge(config@),
    {
        let mut apps = self.apps.clone();
        let n = config.apps.len();
        let mut i: usize = 0;
        while i < n
            invariant
                self.wf(),
                config.wf(),
                apps.wf(),
                n == config.apps.keys().len(),
                i <= n,
                forall|k: Seq<char>|
                    apps@.dom().contains(k) <==> self.apps@.dom().contains(k) || config.apps.keys().take(
                        i as int,
                    ).contains(k),
                forall|k: Seq<char>| apps@.dom().contains(k) ==> (#[trigger] apps@[k]).wf(),
                forall|k: Seq<char>|
                    apps@.dom().contains(k) ==> (#[trigger] apps@[k])@ == (if config.apps.keys().take(
                        i as int,
                    ).contains(k) {
                        self@.merged_app(config@, k)
                    } else {
                        self.apps@[k]@
                    }),
            decreases n - i,
        {
            let key = config.apps.key_at(i);
            let incoming = config.apps.value_at(i);
            proof {
                config.apps.lemma_keys();
                lemma_take_next(config.apps.keys(), i as int);
            }
            let merged = match self.apps.get(key.as_str()) {
                Some(base) => base.merge(incoming),
                None => App::new().merge(incoming),
            };
            apps.insert(key.clone(), merged);
            i += 1;
        }
        let r = Config { apps };
        proof {
            config.apps.lemma_keys();
            let keys = config.apps.keys();
            assert(keys.take(n as int) =~= keys);
            assert(r@.apps =~= self@.merge(config@).apps);
        }
        r
    }
}

/// Merging a configuration without apps into a configuration changes
/// nothing.
pub proof fn lemma_merge_identity(base: ConfigView)
    ensures
        base.merge(ConfigView::empty()) == base,
{
    assert(base.merge(ConfigView::empty()).apps =~= base.apps);
}

/// Merging the same configuration in a second time changes nothing.
pub proof fn lemma_merge_twice(base: ConfigView, incoming: ConfigView)
    ensures
        base.merge(incoming).merge(incoming) == base.merge(incoming),
{
    let once = base.merge(incoming);
    let twice = once.merge(incoming);
    assert forall|k: Seq<char>| once.apps.dom().contains(k) implies twice.apps[k] == once.apps[k] by {
        if incoming.apps.dom().contains(k) {
            if base.apps.dom().contains(k) {
                lemma_merge_idempotent(base.apps[k], incoming.apps[k]);
            } else {
                lemma_merge_idempotent(AppView::empty(), incoming.apps[k]);
            }
        }
    }
    assert(twice.apps =~= once.apps);
}

} // verus!
