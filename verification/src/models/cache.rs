//! The record of the most recent run.
use vstd::prelude::*;
use crate::text::texts;

verus! {

/// The details on the *last run* example.
#[derive(Clone, Debug, PartialEq, Eq)]
pub struct LastRun {
    /// Example *name*
    pub name: String,
    /// Example *arguments* passed in via command line
    pub arguments: Vec<String>,
}

/// The mathematical content of a [`LastRun`].
pub struct LastRunView {
    pub name: Seq<char>,
    pub arguments: Seq<Seq<char>>,
}

impl View for LastRun {
    type V = LastRunView;

    open spec fn view(&self) -> LastRunView {
        LastRunView { name: self.name@, arguments: texts(self.arguments@) }
    }
}

impl Default for LastRun {
    fn default() -> (r: LastRun)
        ensures
            r@.name == Seq::<char>::empty(),
            r@.arguments == Seq::<Seq<char>>::empty(),
    {
        let r = LastRun { name: String::new(), arguments: Vec::new() };
        assert(r@.arguments =~= Seq::empty());
        r
    }
}

/// Config which contains *replay* details on the *most recent* run example.
#[derive(Clone, Debug, PartialEq, Eq)]
pub struct ReplayConfig {
    /// Represents the *last run* example
    pub last_run: LastRun,
}

/// The mathematical content of a [`ReplayConfig`].
pub struct ReplayConfigView {
    pub last_run: LastRunView,
}

impl View for ReplayConfig {
    type V = ReplayConfigView;

    open spec fn view(&self) -> ReplayConfigView {
        ReplayConfigView { last_run: self.last_run@ }
    }
}

impl Default for ReplayConfig {
    fn default() -> (r: ReplayConfig)
        ensures
            r@.last_run.name == Seq::<char>::empty(),
            r@.last_run.arguments == Seq::<Seq<char>>::empty(),
    {
        ReplayConfig { last_run: LastRun::default() }
    }
}

} // verus!
