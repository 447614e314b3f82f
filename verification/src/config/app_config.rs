//! Settings that hold for every project of an app.

use crate::config::project::pick;
use crate::file::{parent_of, parent_path};
use vstd::prelude::*;

verus! {

/// App-wide settings. An empty path stands for "not set".
#[derive(Debug, PartialEq)]
pub struct AppConfig {
    /// The network that every project of the app shares.
    pub shared_network: String,
    /// The directory of the install project.
    pub install_dir: String,
    /// The directory under which the app's projects live.
    pub shared_dir: String,
}

/// What the settings hold, as mathematical values.
pub struct AppConfigView {
    pub shared_network: Seq<char>,
    pub install_dir: Seq<char>,
    pub shared_dir: Seq<char>,
}

impl AppConfigView {
    /// Settings with nothing set.
    pub open spec fn empty() -> AppConfigView {
        AppConfigView { shared_network: Seq::empty(), install_dir: Seq::empty(), shared_dir: Seq::empty() }
    }

    pub open spec fn is_empty(self) -> bool {
        self.shared_network.len() == 0 && self.install_dir.len() == 0 && self.shared_dir.len() == 0
    }

    /// Field by field, the incoming value wins where it is set.
    pub open spec fn merge(self, incoming: AppConfigView) -> AppConfigView {
        AppConfigView {
            shared_network: pick(self.shared_network, incoming.shared_network),
            install_dir: pick(self.install_dir, incoming.install_dir),
            shared_dir: pick(self.shared_dir, incoming.shared_dir),
        }
    }

    /// The settings anchored at `dir`: `dir` is the install directory and its
    /// parent the shared directory.
    pub open spec fn anchored(self, dir: Seq<char>) -> AppConfigView {
        AppConfigView { install_dir: dir, shared_dir: parent_path(dir), ..self }
    }
}

impl View for AppConfig {
    type V = AppConfigView;

    open spec fn view(&self) -> AppConfigView {
        AppConfigView {
            shared_network: self.shared_network@,
            install_dir: self.install_dir@,
            shared_dir: self.shared_dir@,
        }
    }
}

impl Clone for AppConfig {
    fn clone(&self) -> (r: Self)
        ensures
            r@ == self@,
    {
        AppConfig {
            shared_network: self.shared_network.clone(),
            install_dir: self.install_dir.clone(),
            shared_dir: self.shared_dir.clone(),
        }
    }
}

impl AppConfig {
    /// Settings with nothing set.
    pub fn new() -> (r: Self)
        ensures
            r@ == AppConfigView::empty(),
    {
        AppConfig { shared_network: String::new(), install_dir: String::new(), shared_dir: String::new() }
    }

    /// Anchors the app at `dir`: the install directory becomes `dir`, the
    /// shared directory its parent.
    pub fn init(&mut self, dir: &str)
        ensures
            final(self)@ == old(self)@.anchored(dir@),
    {
        self.install_dir = dir.to_owned();
        self.shared_dir = parent_of(dir);
    }

    /// Whether nothing is set.
    pub fn is_empty(&self) -> (r: bool)
        ensures
            r == self@.is_empty(),
    {
        self.shared_network.as_str().is_empty() && self.install_dir.as_str().is_empty()
            && self.shared_dir.as_str().is_empty()
    }

    /// Lays `config` over these settings: each field that `config` sets
    /// replaces the one here, and an empty field never blanks one that is set.
    pub fn merge(&self, config: &AppConfig) -> (r: AppConfig)
        ensures
            r@ == self@.merge(config@),
    {
        AppConfig {
            shared_network: pick_setting(&self.shared_network, &config.shared_network),
            install_dir: pick_setting(&self.install_dir, &config.install_dir),
            shared_dir: pick_setting(&self.shared_dir, &config.shared_dir),
        }
    }
}

/// A copy of the incoming setting where it is set, else of the base setting.
fn pick_setting(base: &String, incoming: &String) -> (r: String)
    ensures
        r@ == pick(base@, incoming@),
{
    if incoming.as_str().is_empty() {
        base.clone()
    } else {
        incoming.clone()
    }
}

} // verus!
