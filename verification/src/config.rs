//! Configuration-declared shapes — build definitions, source locators, the
//! agent roster — and the matcher over an agent's advertised capabilities.
use vstd::prelude::*;

use crate::matching::meets;
use crate::matching::names_match;
use crate::Capability;

verus! {

/// A build definition: the capability names a run needs and the commands it
/// executes, in order.
#[derive(Clone, Debug)]
pub struct Yml {
    pub needs: Vec<String>,
    pub commands: Vec<String>,
}

/// Where a project's build definition lives.
#[derive(Clone, Debug)]
pub enum Scm {
    /// Stands in when the configuration inlines the definition, so no
    /// source locator is needed.
    Nonexistent,
    GitHub { owner: String, repo: String, scm_ref: String },
}

/// The source locator assumed when nothing was configured.
pub fn default_scm() -> (s: Scm)
    ensures
        s is Nonexistent,
{
    Scm::Nonexistent
}

/// One configured project.
#[derive(Clone, Debug)]
pub struct Project {
    pub description: String,
    /// An optional inlined build definition; when present, nothing is
    /// fetched from the source host.
    pub inline: Option<Yml>,
    /// The build-definition file to fetch when the definition is not
    /// inlined.
    pub filename: Option<String>,
    pub scm: Scm,
}

/// One configured agent: only its address.
#[derive(Clone, Debug)]
pub struct AgentConfig {
    pub url: String,
}

/// The first project of `s` stored under `name`, if any.
pub open spec fn project_named(s: Seq<(String, Project)>, name: Seq<char>) -> Option<Project>
    decreases s.len(),
{
    if s.len() == 0 {
        None
    } else if s.first().0@ == name {
        Some(s.first().1)
    } else {
        project_named(s.drop_first(), name)
    }
}

/// The whole coordinator configuration: named agents and named projects.
/// Names are keys: held in declaration order, looked up by first match.
#[derive(Clone, Debug)]
pub struct ServerConfig {
    pub agents: Vec<(String, AgentConfig)>,
    pub projects: Vec<(String, Project)>,
}

impl ServerConfig {
    /// Whether a project with this name is configured.
    pub open spec fn spec_has_project(&self, name: Seq<char>) -> bool {
        project_named(self.projects@, name) is Some
    }

    pub fn has_project(&self, name: &str) -> (r: bool)
        ensures
            r == self.spec_has_project(name@),
    {
        self.get_project(name).is_some()
    }

    /// The first configured project with this name.
    pub fn get_project(&self, name: &str) -> (r: Option<&Project>)
        ensures
            r matches Some(p) ==> project_named(self.projects@, name@) == Some(*p),
            r is None ==> project_named(self.projects@, name@) is None,
    {
        let key: String = name.to_owned();
        let ghost all = self.projects@;
        proof {
            assert(all.skip(0) =~= all);
        }
        let mut i: usize = 0;
        while i < self.projects.len()
            invariant
                i <= all.len(),
                all == self.projects@,
                key@ == name@,
                project_named(all, name@) == project_named(all.skip(i as int), name@),
            decreases all.len() - i,
        {
            proof {
                assert(all.skip(i as int).first() == all[i as int]);
                assert(all.skip(i as int).drop_first() =~= all.skip(i as int + 1));
            }
            if self.projects[i].0 == key {
                return Some(&self.projects[i].1);
            }
            i = i + 1;
        }
        proof {
            assert(all.skip(all.len() as int) =~= Seq::<(String, Project)>::empty());
        }
        None
    }
}

impl Default for ServerConfig {
    /// An empty configuration: no agents, no projects.
    fn default() -> (c: Self)
        ensures
            c.agents@.len() == 0,
            c.projects@.len() == 0,
    {
        ServerConfig { agents: Vec::new(), projects: Vec::new() }
    }
}

/// The names of a capability list, in order.
pub open spec fn cap_names(caps: Seq<Capability>) -> Seq<Seq<char>> {
    caps.map_values(|c: Capability| c.name@)
}

/// An agent the coordinator has loaded: its configured name, its address,
/// and the capabilities it advertised when probed at startup.
#[derive(Clone, Debug)]
pub struct Agent {
    pub name: String,
    pub url: String,
    pub capabilities: Vec<Capability>,
}

impl Agent {
    pub fn new(name: String, url: String, capabilities: Vec<Capability>) -> (a: Agent)
        ensures
            a.name == name,
            a.url == url,
            a.capabilities == capabilities,
    {
        Agent { name, url, capabilities }
    }

    /// The agent's one-line rendering: its name.
    pub fn render_compact(&self) -> (r: String)
        ensures
            r@ == self.name@,
    {
        self.name.clone()
    }

    /// Whether this agent can meet the requirement names `needs`: its
    /// advertised capability names must equal `needs` case-insensitively,
    /// as multisets — extra capabilities disqualify it.
    pub fn can_meet(&self, needs: &Vec<String>) -> (r: bool)
        ensures
            r == meets(needs.deep_view(), cap_names(self.capabilities@)),
    {
        let ghost goal = cap_names(self.capabilities@);
        let mut caps: Vec<String> = Vec::new();
        let mut i: usize = 0;
        while i < self.capabilities.len()
            invariant
                i <= self.capabilities@.len(),
                goal == cap_names(self.capabilities@),
                caps.deep_view() =~= goal.take(i as int),
            decreases self.capabilities@.len() - i,
        {
            let ghost prefix = caps.deep_view();
            let cap_name = self.capabilities[i].name.clone();
            caps.push(cap_name);
            proof {
                assert(caps.deep_view() =~= prefix.push(cap_name@));
                assert(prefix.push(cap_name@) =~= goal.take(i as int + 1));
            }
            i = i + 1;
        }
        proof {
            assert(goal.take(self.capabilities@.len() as int) =~= goal);
        }
        names_match(needs, &caps)
    }
}

/// Scan the roster in configured order; the first agent whose capability
/// set meets `needs` is selected, and `None` comes back only when no agent
/// qualifies.
pub fn find_matching(agents: &Vec<Agent>, needs: &Vec<String>) -> (r: Option<usize>)
    ensures
        r matches Some(i) ==> i < agents@.len() && meets(
            needs.deep_view(),
            cap_names(agents@[i as int].capabilities@),
        ) && (forall|j: int|
            0 <= j < i ==> !meets(
                needs.deep_view(),
                #[trigger] cap_names(agents@[j].capabilities@),
            )),
        r is None ==> forall|j: int|
            0 <= j < agents@.len() ==> !meets(
                needs.deep_view(),
                #[trigger] cap_names(agents@[j].capabilities@),
            ),
{
    let mut i: usize = 0;
    while i < agents.len()
        invariant
            i <= agents@.len(),
            forall|j: int|
                0 <= j < i ==> !meets(
                    needs.deep_view(),
                    #[trigger] cap_names(agents@[j].capabilities@),
                ),
        decreases agents@.len() - i,
    {
        if agents[i].can_meet(needs) {
            return Some(i);
        }
        i = i + 1;
    }
    None
}

} // verus!
