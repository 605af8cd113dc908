use synchronik::caps::locate_in_dirs;
use synchronik::caps::Capability;
use synchronik::caps::Cargo;
use synchronik::caps::Git;
use synchronik::config::default_scm;
use synchronik::config::Scm;
use synchronik::config::ServerConfig;
use synchronik::engine::logs_root;

#[test]
fn locate_prefers_the_first_directory() {
    let dirs: Vec<String> = vec!["/usr/local/bin".into(), "/usr/bin".into(), "/bin".into()];
    let present = vec![false, true, true];
    assert_eq!(
        locate_in_dirs("git", &dirs, &present),
        Some("/usr/bin/git".to_string())
    );
}

#[test]
fn locate_keeps_a_trailing_separator_single() {
    let dirs: Vec<String> = vec!["/usr/bin/".into()];
    let present = vec![true];
    assert_eq!(
        locate_in_dirs("git", &dirs, &present),
        Some("/usr/bin/git".to_string())
    );
}

#[test]
fn locate_reports_absence() {
    let dirs: Vec<String> = vec!["/usr/local/bin".into(), "/usr/bin".into()];
    let present = vec![false, false];
    assert_eq!(locate_in_dirs("git", &dirs, &present), None);
    assert_eq!(locate_in_dirs("git", &Vec::new(), &Vec::new()), None);
}

#[test]
fn tool_names_and_construction() {
    assert_eq!(Git::binary_name(), "git");
    assert_eq!(Cargo::binary_name(), "cargo");

    let git = Git::from_path("/usr/bin/git".into()).unwrap();
    assert_eq!(git.path, "/usr/bin/git");
    assert!(git.data.is_none());

    let cargo = Cargo::has_capability(Some("/usr/bin/cargo".into())).unwrap();
    assert_eq!(cargo.path, "/usr/bin/cargo");
    assert!(Git::has_capability(None).is_none());
}

#[test]
fn wire_capability_carries_its_name() {
    let cap = synchronik::Capability::with_name("git");
    assert_eq!(cap.name, "git");
    assert_eq!(cap.path, "");
    assert!(cap.data.is_none());
}

#[test]
fn command_wraps_script() {
    let command = synchronik::Command::with_script("whoami");
    assert_eq!(command.script, "whoami");
}

#[test]
fn configuration_defaults() {
    assert!(matches!(default_scm(), Scm::Nonexistent));
    let config = ServerConfig::default();
    assert!(config.agents.is_empty());
    assert!(config.projects.is_empty());
    assert_eq!(logs_root(), "agent-logs");
}

#[test]
fn project_lookup_in_configuration() {
    let project = synchronik::config::Project {
        description: "demo".into(),
        inline: None,
        filename: None,
        scm: Scm::Nonexistent,
    };
    let config = ServerConfig {
        agents: Vec::new(),
        projects: vec![("synchronik".to_string(), project)],
    };
    assert!(config.has_project("synchronik"));
    assert!(!config.has_project("other"));
    assert_eq!(config.get_project("synchronik").unwrap().description, "demo");
    assert!(config.get_project("other").is_none());
}

#[test]
fn agent_renders_as_its_name() {
    let agent = synchronik::config::Agent::new(
        "local".into(),
        "http://localhost:9000".into(),
        Vec::new(),
    );
    assert_eq!(agent.render_compact(), "local");
}
