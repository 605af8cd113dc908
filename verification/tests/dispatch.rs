use synchronik::config::Agent;
use synchronik::config::Project;
use synchronik::config::Scm;
use synchronik::config::ServerConfig;
use synchronik::config::Yml;
use synchronik::dao::Ledger;
use synchronik::dispatch::fetch_spec;
use synchronik::dispatch::plan_dispatch;
use synchronik::dispatch::resolve_definition;
use synchronik::dispatch::DispatchError;
use synchronik::engine::build_response;
use synchronik::engine::Submission;
use synchronik::engine::WorkQueue;
use synchronik::Capability;

fn inline_project(needs: &[&str], commands: &[&str]) -> Project {
    Project {
        description: "A demo project".into(),
        inline: Some(Yml {
            needs: needs.iter().map(|s| s.to_string()).collect(),
            commands: commands.iter().map(|s| s.to_string()).collect(),
        }),
        filename: None,
        scm: Scm::Nonexistent,
    }
}

fn config_with(name: &str, project: Project) -> ServerConfig {
    ServerConfig {
        agents: Vec::new(),
        projects: vec![(name.to_string(), project)],
    }
}

fn agent_with(caps: &[&str]) -> Agent {
    Agent {
        name: "local".into(),
        url: "http://localhost:9000".into(),
        capabilities: caps.iter().map(|c| Capability::with_name(c)).collect(),
    }
}

#[test]
fn matched_dispatch_is_accepted_with_log_url() {
    // Requirement ["git"], one agent advertising ["git"]: matched, the
    // work is accepted, and the reply carries a log URL with the task's
    // uuid segment.
    let config = config_with("demo", inline_project(&["git"], &["echo hello"]));
    let agents = vec![agent_with(&["git"])];

    let plan = plan_dispatch(&config, "demo", &None, &agents).expect("the dispatch must match");
    assert_eq!(plan.agent, 0);
    assert_eq!(plan.request.commands.len(), 1);
    assert_eq!(plan.request.commands[0].script, "echo hello");

    let mut queue = WorkQueue::new(1);
    match queue.submit(plan.request) {
        Submission::Accepted { task, log_file } => {
            assert_eq!(task.len(), 36);
            let response =
                build_response(&task, &log_file, "http://localhost:9000/api/v1/execute")
                    .expect("the base URL is well formed");
            assert_eq!(response.uuid, task);
            assert!(response.log.contains(&task));
            assert_eq!(
                response.log,
                format!("http://localhost:9000/agent-logs/{}/console.log", task)
            );
        }
        Submission::Busy => panic!("an idle agent must accept the work"),
    }
}

#[test]
fn unmet_requirements_dispatch_nothing() {
    // Requirement ["dotnet", "rspec"], one agent advertising only
    // ["dotnet"]: no eligible agent, no dispatch, and no run row.
    let config = config_with("demo", inline_project(&["dotnet", "rspec"], &["true"]));
    let agents = vec![agent_with(&["dotnet"])];
    let ledger = Ledger::new();

    let outcome = plan_dispatch(&config, "demo", &None, &agents);
    assert_eq!(outcome.unwrap_err(), DispatchError::NoEligibleAgent);
    assert!(ledger.list_projects().is_empty());
}

#[test]
fn unknown_project_is_not_found() {
    let config = config_with("demo", inline_project(&["git"], &["true"]));
    let agents = vec![agent_with(&["git"])];
    let outcome = plan_dispatch(&config, "other", &None, &agents);
    assert_eq!(outcome.unwrap_err(), DispatchError::NotFound);
}

#[test]
fn missing_definition_is_invalid() {
    // No inlined definition, and the fetch produced nothing usable.
    let project = Project {
        description: "fetched project".into(),
        inline: None,
        filename: Some("ci.synchronik.yml".into()),
        scm: Scm::GitHub {
            owner: "rtyler".into(),
            repo: "synchronik".into(),
            scm_ref: "main".into(),
        },
    };
    let config = config_with("demo", project);
    let agents = vec![agent_with(&["git"])];
    let outcome = plan_dispatch(&config, "demo", &None, &agents);
    assert_eq!(outcome.unwrap_err(), DispatchError::DefinitionInvalid);
}

#[test]
fn fetched_definition_feeds_the_flow() {
    let project = Project {
        description: "fetched project".into(),
        inline: None,
        filename: Some("ci.synchronik.yml".into()),
        scm: Scm::GitHub {
            owner: "rtyler".into(),
            repo: "synchronik".into(),
            scm_ref: "main".into(),
        },
    };
    let fetch = fetch_spec(&project).expect("a fetch is called for");
    assert_eq!(fetch.owner, "rtyler");
    assert_eq!(fetch.repo, "synchronik");
    assert_eq!(fetch.scm_ref, "main");
    assert_eq!(fetch.filename, "ci.synchronik.yml");

    let fetched = Some(Yml {
        needs: vec!["git".into()],
        commands: vec!["whoami".into()],
    });
    let config = config_with("demo", project);
    let agents = vec![agent_with(&["git"])];
    let plan = plan_dispatch(&config, "demo", &fetched, &agents).expect("the dispatch must match");
    assert_eq!(plan.request.commands[0].script, "whoami");
}

#[test]
fn inline_definition_wins_over_fetch() {
    let project = inline_project(&["git"], &["echo inline"]);
    assert!(fetch_spec(&project).is_none());
    let fetched = Some(Yml {
        needs: vec!["git".into()],
        commands: vec!["echo fetched".into()],
    });
    let definition = resolve_definition(&project, &fetched).unwrap();
    assert_eq!(definition.commands, vec!["echo inline".to_string()]);
}

#[test]
fn dispatch_selects_first_matching_agent() {
    let config = config_with("demo", inline_project(&["git"], &["true"]));
    let agents = vec![
        agent_with(&["dotnet"]),
        agent_with(&["git"]),
        agent_with(&["git"]),
    ];
    let plan = plan_dispatch(&config, "demo", &None, &agents).expect("the dispatch must match");
    assert_eq!(plan.agent, 1);
}
