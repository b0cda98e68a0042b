//! Orchestration core of an identity registrar: the per-field challenge state
//! machine, the message bus between the orchestrator and its endpoints, and the
//! bounded-retry session towards the chain watcher.

use vstd::prelude::*;

pub mod challenge;
pub mod comms;
pub mod connector;
pub mod db;
pub mod durability;
pub mod identity;
pub mod manager;
pub mod primitives;
pub mod retry;
pub mod startup;

verus! {

/// `log::LevelFilter`, the verbosity threshold of the `log` crate. It is
/// carried through the configuration unread; nothing is claimed of its contents.
#[verifier::external_type_specification]
#[verifier::external_body]
pub struct ExLevelFilter(log::LevelFilter);

/// Process configuration: loaded once at startup and immutable afterwards.
pub struct Config {
    pub registrar_db_path: String,
    pub matrix_db_path: String,
    pub log_level: log::LevelFilter,
    pub watcher_url: String,
    pub enable_watcher: bool,
    pub matrix_homeserver: String,
    pub matrix_username: String,
    pub matrix_password: String,
}

impl Config {
    /// The policy under which the watcher session is brought up: none if the
    /// configuration disables the watcher.
    pub fn watcher_retry(&self) -> (p: Option<retry::RetryPolicy>)
        ensures
            p == if self.enable_watcher {
                Some(startup::spec_watcher_policy())
            } else {
                None
            },
    {
        if self.enable_watcher {
            Some(startup::watcher_policy())
        } else {
            None
        }
    }


    /// The startup sequence this configuration calls for.
    pub fn setup(&self) -> (s: startup::Setup)
        ensures
            s == startup::Setup::initial(self.enable_watcher),
    {
        startup::Setup::new(self.enable_watcher)
    }
}

} // verus!
