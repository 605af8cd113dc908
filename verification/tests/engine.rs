use synchronik::engine::build_response;
use synchronik::engine::RunSession;
use synchronik::engine::Submission;
use synchronik::engine::WorkQueue;
use synchronik::Command;
use synchronik::CommandRequest;

fn request(scripts: &[&str]) -> CommandRequest {
    CommandRequest {
        commands: scripts.iter().map(|s| Command::with_script(s)).collect(),
    }
}

#[test]
fn submission_accepted_until_capacity() {
    // Capacity 2, five submissions, nothing consumed: exactly two are
    // accepted and three rejected as busy.
    let mut queue = WorkQueue::new(2);
    let mut accepted = 0;
    let mut busy = 0;
    for _ in 0..5 {
        match queue.submit(request(&["true"])) {
            Submission::Accepted { .. } => accepted += 1,
            Submission::Busy => busy += 1,
        }
    }
    assert_eq!(accepted, 2);
    assert_eq!(busy, 3);
}

#[test]
fn second_submission_at_capacity_one_is_busy() {
    // An agent already holding one work item answers busy, and nothing
    // about the second submission is retained.
    let mut queue = WorkQueue::new(1);
    assert!(matches!(
        queue.submit(request(&["echo hello"])),
        Submission::Accepted { .. }
    ));
    assert!(matches!(queue.submit(request(&["echo again"])), Submission::Busy));

    // After the worker takes the one item, a slot is free again.
    assert!(queue.take_next().is_some());
    assert!(matches!(
        queue.submit(request(&["echo again"])),
        Submission::Accepted { .. }
    ));
}

#[test]
fn accepted_submission_names_task_and_log() {
    let mut queue = WorkQueue::new(1);
    match queue.submit(request(&["true"])) {
        Submission::Accepted { task, log_file } => {
            assert_eq!(task.len(), 36);
            assert_eq!(log_file, format!("agent-logs/{}/console.log", task));
        }
        Submission::Busy => panic!("an empty queue must admit the submission"),
    }
}

#[test]
fn queue_hands_work_out_in_submission_order() {
    let mut queue = WorkQueue::new(2);
    let first_task = match queue.submit(request(&["echo one"])) {
        Submission::Accepted { task, .. } => task,
        Submission::Busy => panic!("an empty queue must admit the submission"),
    };
    let second_task = match queue.submit(request(&["echo two"])) {
        Submission::Accepted { task, .. } => task,
        Submission::Busy => panic!("a queue below capacity must admit the submission"),
    };
    assert_eq!(queue.take_next().unwrap().task, first_task);
    assert_eq!(queue.take_next().unwrap().task, second_task);
    assert!(queue.take_next().is_none());
}

#[test]
fn session_runs_every_command_despite_failure() {
    // Two commands; the second fails.  Both are executed, and the log
    // holds both outputs verbatim, in invocation order.
    let mut queue = WorkQueue::new(1);
    assert!(matches!(
        queue.submit(request(&["echo one", "false"])),
        Submission::Accepted { .. }
    ));
    let work = queue.take_next().unwrap();
    let mut session = RunSession::start(work);

    assert_eq!(session.next_script().unwrap().as_str(), "echo one");
    session.record_outcome(&b"one\n".to_vec(), 0);
    assert!(!session.finished());

    assert_eq!(session.next_script().unwrap().as_str(), "false");
    session.record_outcome(&Vec::new(), 1);
    assert!(session.finished());
    assert!(session.next_script().is_none());

    assert_eq!(session.log_bytes(), &b"one\n".to_vec());
    assert_eq!(session.statuses(), &vec![0i64, 1i64]);
}

#[test]
fn spawn_failure_abandons_item_but_keeps_log() {
    let mut queue = WorkQueue::new(1);
    assert!(matches!(
        queue.submit(request(&["echo one", "missing-shell", "echo three"])),
        Submission::Accepted { .. }
    ));
    let work = queue.take_next().unwrap();
    let mut session = RunSession::start(work);

    session.record_outcome(&b"one\n".to_vec(), 0);
    // The shell for the second command could not be spawned: the item's
    // remaining commands are abandoned.
    session.record_spawn_failure();
    assert!(session.finished());
    assert_eq!(session.log_bytes(), &b"one\n".to_vec());
    assert_eq!(session.statuses(), &vec![0i64]);
}

#[test]
fn session_argv_wraps_script() {
    let args = synchronik::engine::shell_args(&"echo one".to_string());
    assert_eq!(synchronik::engine::shell_program(), "sh");
    assert_eq!(args, vec!["-xec".to_string(), "echo one".to_string()]);
}

#[test]
fn response_resolves_log_url_against_request_base() {
    // Would fail if URL resolution handed an argument back unchanged.
    let task = "01234567-89ab-cdef-0123-456789abcdef".to_string();
    let log_file = format!("agent-logs/{}/console.log", task);
    let response = build_response(&task, &log_file, "http://localhost:9000/api/v1/execute")
        .expect("the base URL is well formed");
    assert_eq!(response.uuid, task);
    assert_eq!(
        response.log,
        format!("http://localhost:9000/agent-logs/{}/console.log", task)
    );
    assert!(response.stream.is_none());
    assert!(response.task.is_none());
}

#[test]
fn response_fails_on_unusable_base() {
    let task = "01234567-89ab-cdef-0123-456789abcdef".to_string();
    let log_file = format!("agent-logs/{}/console.log", task);
    assert!(build_response(&task, &log_file, "not a url").is_none());
}
