use synchronik::config::Agent;
use synchronik::Capability;

fn agent_with(capabilities: Vec<Capability>) -> Agent {
    Agent {
        name: "test".into(),
        url: "http://localhost".into(),
        capabilities,
    }
}

#[test]
fn agent_can_meet_false() {
    let needs: Vec<String> = vec!["rspec".into(), "git".into(), "dotnet".into()];
    let capabilities = vec![Capability::with_name("rustc")];
    let agent = agent_with(capabilities);
    assert_eq!(false, agent.can_meet(&needs));
}

#[test]
fn agent_can_meet_true() {
    let needs: Vec<String> = vec!["dotnet".into()];
    let capabilities = vec![Capability::with_name("dotnet")];
    let agent = agent_with(capabilities);
    assert!(agent.can_meet(&needs));
}

#[test]
fn agent_can_meet_false_multiple() {
    let needs: Vec<String> = vec!["rspec".into(), "git".into(), "dotnet".into()];
    let capabilities = vec![Capability::with_name("dotnet")];
    let agent = agent_with(capabilities);
    assert_eq!(false, agent.can_meet(&needs));
}

#[test]
fn agent_can_meet_true_multiple() {
    let needs: Vec<String> = vec!["rspec".into(), "dotnet".into()];
    let capabilities = vec![
        Capability::with_name("dotnet"),
        Capability::with_name("rspec"),
    ];
    let agent = agent_with(capabilities);
    assert!(agent.can_meet(&needs));
}

#[test]
fn matching_is_case_insensitive() {
    // Would fail if the lowercasing step handed names back unchanged.
    let needs: Vec<String> = vec!["git".into()];
    let agent = agent_with(vec![Capability::with_name("GIT")]);
    assert!(agent.can_meet(&needs));

    let needs: Vec<String> = vec!["DotNet".into(), "RSpec".into()];
    let agent = agent_with(vec![
        Capability::with_name("rspec"),
        Capability::with_name("dotnet"),
    ]);
    assert!(agent.can_meet(&needs));
}

#[test]
fn matching_rejects_strict_superset_and_subset() {
    // Equality of the capability set is demanded, not containment.
    let agent = agent_with(vec![
        Capability::with_name("dotnet"),
        Capability::with_name("rspec"),
    ]);
    assert_eq!(false, agent.can_meet(&vec!["dotnet".to_string()]));

    let agent = agent_with(vec![Capability::with_name("dotnet")]);
    assert_eq!(
        false,
        agent.can_meet(&vec!["dotnet".to_string(), "rspec".to_string()])
    );
}

#[test]
fn matching_empty_sets() {
    let agent = agent_with(vec![]);
    assert!(agent.can_meet(&vec![]));
    assert_eq!(false, agent.can_meet(&vec!["git".to_string()]));
}

#[test]
fn matching_counts_duplicates() {
    let agent = agent_with(vec![Capability::with_name("git")]);
    assert_eq!(
        false,
        agent.can_meet(&vec!["git".to_string(), "git".to_string()])
    );
}
