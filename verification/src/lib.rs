//! A minimal continuous-integration orchestrator: a coordinator matches a
//! project's declared requirements against the capabilities that agents
//! advertise, forwards the project's commands to the first agent whose
//! capability set equals the requirement set, and records the dispatched
//! run's lineage in a ledger.  An agent admits work through a bounded queue
//! and executes each work item's commands strictly in order.
//!
//! This crate holds the verified core: the wire shapes, the capability
//! matcher, the admission-controlled work queue and execution session, the
//! dispatch flow, and the run ledger.  Network, filesystem and subprocess
//! plumbing live outside, handing the core plain values.
use vstd::prelude::*;

pub mod caps;
pub mod config;
pub mod dao;
pub mod dispatch;
pub mod engine;
mod ext;
pub mod matching;

verus! {

/// One tool detected on an agent's host.  Identity is `name`;
/// matching treats names case-insensitively.
#[derive(Clone, Debug)]
pub struct Capability {
    pub name: String,
    pub path: String,
    pub data: Option<Vec<(String, String)>>,
}

impl Capability {
    /// A capability known only by name, as the coordinator builds them
    /// from an agent's capability listing.
    pub fn with_name(name: &str) -> (c: Capability)
        ensures
            c.name@ == name@,
            c.path@ == Seq::<char>::empty(),
            c.data is None,
    {
        Capability { name: name.to_owned(), path: String::new(), data: None }
    }
}

/// The reply to a capability-discovery request.
#[derive(Clone, Debug)]
pub struct CapsResponse {
    pub caps: Vec<Capability>,
}

/// One shell fragment of a dispatched run.
#[derive(Clone, Debug)]
pub struct Command {
    pub script: String,
}

impl View for Command {
    type V = Seq<char>;

    open spec fn view(&self) -> Seq<char> {
        self.script@
    }
}

impl Command {
    pub fn with_script(script: &str) -> (c: Command)
        ensures
            c@ == script@,
    {
        Command { script: script.to_owned() }
    }
}

/// A full dispatched run: its commands, in execution order.
#[derive(Clone, Debug)]
pub struct CommandRequest {
    pub commands: Vec<Command>,
}

impl View for CommandRequest {
    type V = Seq<Seq<char>>;

    open spec fn view(&self) -> Seq<Seq<char>> {
        self.commands@.map_values(|c: Command| c@)
    }
}

/// The reply to an accepted work submission: the task identifier and a
/// resolvable URL for the run's log.
#[derive(Clone, Debug)]
pub struct CommandResponse {
    pub uuid: String,
    pub stream: Option<String>,
    pub task: Option<String>,
    pub log: String,
}

} // verus!
