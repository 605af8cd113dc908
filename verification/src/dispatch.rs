//! The coordinator's dispatch flow: resolve the named project, settle its
//! build definition (inlined, or fetched from the source host), pick the
//! first agent whose capability set equals the definition's needs, and
//! translate the definition's commands into a work request.
//!
//! Fetching the definition file and sending the request are outside calls;
//! the flow's decisions stand here.  A full agent queue answers with the
//! engine's busy signal, and an unreachable agent is the probe edge's
//! concern — neither is a decision of this flow.
use vstd::prelude::*;

use crate::config::cap_names;
use crate::config::find_matching;
use crate::config::project_named;
use crate::config::Agent;
use crate::config::Project;
use crate::config::Scm;
use crate::config::ServerConfig;
use crate::config::Yml;
use crate::matching::meets;
use crate::Command;
use crate::CommandRequest;

verus! {

/// Why a build request ended without a dispatch.
#[derive(Clone, Copy, Debug, PartialEq, Eq, Structural)]
pub enum DispatchError {
    /// The named project is not configured.
    NotFound,
    /// The project's build definition could not be had: nothing inlined,
    /// and nothing usable fetched or parsed.
    DefinitionInvalid,
    /// No agent's capability set equals the requirement set.
    NoEligibleAgent,
}

/// What must be fetched when a project's definition is not inlined: the
/// source coordinates and the file to read at that reference.
#[derive(Clone, Debug)]
pub struct FetchSpec {
    pub owner: String,
    pub repo: String,
    pub scm_ref: String,
    pub filename: String,
}

/// Whether a project's definition must be fetched from its source host:
/// only when nothing is inlined and the configuration names both a GitHub
/// locator and a file.
pub open spec fn needs_fetch(p: Project) -> bool {
    p.inline is None && p.scm is GitHub && p.filename is Some
}

/// The coordinates to fetch a project's definition from, when a fetch is
/// called for.
pub fn fetch_spec(project: &Project) -> (r: Option<FetchSpec>)
    ensures
        r is Some <==> needs_fetch(*project),
        r matches Some(f) ==> {
            &&& project.scm matches Scm::GitHub { owner, repo, scm_ref }
            &&& f.owner@ == owner@
            &&& f.repo@ == repo@
            &&& f.scm_ref@ == scm_ref@
            &&& project.filename matches Some(n)
            &&& f.filename@ == n@
        },
{
    if project.inline.is_some() {
        return None;
    }
    match (&project.scm, &project.filename) {
        (Scm::GitHub { owner, repo, scm_ref }, Some(filename)) => Some(
            FetchSpec {
                owner: owner.clone(),
                repo: repo.clone(),
                scm_ref: scm_ref.clone(),
                filename: filename.clone(),
            },
        ),
        _ => None,
    }
}

/// The definition a project's dispatch uses: the inlined one when
/// present, else whatever was fetched and parsed.
pub open spec fn definition_of(p: Project, fetched: Option<Yml>) -> Option<Yml> {
    if p.inline is Some {
        p.inline
    } else {
        fetched
    }
}

/// Settle the definition for `project`: its inlined definition wins;
/// otherwise `fetched` — the parsed result of the fetch, absent when the
/// fetch or the parse failed — and with neither, the flow ends invalid.
pub fn resolve_definition<'a>(project: &'a Project, fetched: &'a Option<Yml>) -> (r: Result<
    &'a Yml,
    DispatchError,
>)
    ensures
        r matches Ok(d) ==> definition_of(*project, *fetched) == Some(*d),
        r is Err <==> definition_of(*project, *fetched) is None,
        r matches Err(e) ==> e == DispatchError::DefinitionInvalid,
{
    match &project.inline {
        Some(y) => Ok(y),
        None => match fetched {
            Some(y) => Ok(y),
            None => Err(DispatchError::DefinitionInvalid),
        },
    }
}

/// Translate a definition's command lines into the wire request, order
/// kept.
pub fn commands_to_request(commands: &Vec<String>) -> (r: CommandRequest)
    ensures
        r@ == commands.deep_view(),
{
    let ghost goal = commands.deep_view();
    let mut out: Vec<Command> = Vec::new();
    let mut i: usize = 0;
    while i < commands.len()
        invariant
            i <= commands@.len(),
            goal == commands.deep_view(),
            goal.len() == commands@.len(),
            out@.map_values(|c: Command| c@) =~= goal.take(i as int),
        decreases commands@.len() - i,
    {
        let ghost prefix = out@.map_values(|c: Command| c@);
        let c = Command::with_script(commands[i].as_str());
        out.push(c);
        proof {
            assert(out@.map_values(|c: Command| c@) =~= prefix.push(c@));
            assert(prefix.push(c@) =~= goal.take(i as int + 1));
        }
        i = i + 1;
    }
    proof {
        assert(goal.take(goal.len() as int) =~= goal);
    }
    CommandRequest { commands: out }
}

/// A dispatch ready to go: which agent of the roster takes the work, and
/// the request to send it.
#[derive(Debug)]
pub struct DispatchPlan {
    pub agent: usize,
    pub request: CommandRequest,
}

/// The dispatch decision for one build request.  The flow walks:
/// unknown project — `NotFound`; no definition to use — `DefinitionInvalid`;
/// no agent whose capability set equals the definition's needs —
/// `NoEligibleAgent`; otherwise the first matching agent of the roster and
/// the definition's commands as the request to send it.
pub fn plan_dispatch(
    config: &ServerConfig,
    name: &str,
    fetched: &Option<Yml>,
    agents: &Vec<Agent>,
) -> (r: Result<DispatchPlan, DispatchError>)
    ensures
        (r matches Err(e) && e is NotFound) <==> project_named(config.projects@, name@) is None,
        (r matches Err(e) && e is DefinitionInvalid) <==> (project_named(config.projects@, name@)
            matches Some(p) && definition_of(p, *fetched) is None),
        (r matches Err(e) && e is NoEligibleAgent) <==> (project_named(config.projects@, name@)
            matches Some(p) && definition_of(p, *fetched) matches Some(y) && (forall|j: int|
            0 <= j < agents@.len() ==> !meets(
                y.needs.deep_view(),
                #[trigger] cap_names(agents@[j].capabilities@),
            ))),
        r matches Ok(plan) ==> (project_named(config.projects@, name@) matches Some(p)
            && definition_of(p, *fetched) matches Some(y) && plan.agent < agents@.len() && meets(
            y.needs.deep_view(),
            cap_names(agents@[plan.agent as int].capabilities@),
        ) && (forall|j: int|
            0 <= j < plan.agent ==> !meets(
                y.needs.deep_view(),
                #[trigger] cap_names(agents@[j].capabilities@),
            )) && plan.request@ == y.commands.deep_view()),
{
    let project = match config.get_project(name) {
        Some(p) => p,
        None => {
            return Err(DispatchError::NotFound);
        },
    };
    let definition = match resolve_definition(project, fetched) {
        Ok(d) => d,
        Err(e) => {
            return Err(e);
        },
    };
    match find_matching(agents, &definition.needs) {
        Some(i) => Ok(DispatchPlan { agent: i, request: commands_to_request(&definition.commands) }),
        None => Err(DispatchError::NoEligibleAgent),
    }
}

} // verus!
