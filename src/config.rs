//! Values that differ between the staging and production deployments.
use vstd::prelude::*;
use vstd::pervasive::strictly_cloned;
use crate::text::same_text;

verus! {

/// The deployment this build serves.
pub const CURRENT_ENV: &'static str = "prod";

/// A value with one setting for staging and one for production.
pub struct Differs<T: Default + Clone> {
    pub staging: T,
    pub prod: T,
}

impl<T: Default + Clone> Differs<T> {
    /// The value for the environment `env`: staging's for `staging`,
    /// production's for any other.
    pub fn get_for_env(&self, env: &str) -> (r: T)
        ensures
            strictly_cloned(if env@ == "staging"@ { self.staging } else { self.prod }, r),
    {
        if same_text(env, "staging") {
            self.staging.clone()
        } else {
            self.prod.clone()
        }
    }

    /// The value for the environment this build serves.
    pub fn get(&self) -> (r: T)
        ensures
            strictly_cloned(if CURRENT_ENV@ == "staging"@ { self.staging } else { self.prod }, r),
    {
        self.get_for_env(CURRENT_ENV)
    }
}

/// Whether the background tasks were started: a one-shot guard kept by the
/// process.
pub struct ConnectState {
    pub has_started_bgtasks: bool,
}

impl ConnectState {
    pub fn new() -> (r: ConnectState)
        ensures
            !r.has_started_bgtasks,
    {
        ConnectState { has_started_bgtasks: false }
    }

    /// Called when a shard is ready: the first shard starts the background
    /// tasks once, outside staging. Returns whether to start them now.
    pub fn on_ready(&mut self, shard_id: u32, env: &str) -> (r: bool)
        ensures
            r == (shard_id == 0 && !old(self).has_started_bgtasks && env@ != "staging"@),
            final(self).has_started_bgtasks == (old(self).has_started_bgtasks || shard_id == 0),
    {
        if shard_id != 0 || self.has_started_bgtasks {
            return false;
        }
        self.has_started_bgtasks = true;
        !same_text(env, "staging")
    }
}

} // verus!
