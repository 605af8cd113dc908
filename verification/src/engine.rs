//! The agent-side execution engine: an admission-controlled, bounded,
//! first-in-first-out queue of work items, and the per-item execution
//! session that runs the item's commands strictly in order and accumulates
//! their merged output into one log.
//!
//! Admission is an atomic decision: a submission is either accepted whole —
//! task identifier, log path and queue slot — or rejected as busy while the
//! queue stands at capacity; it never blocks.  Subprocess and file plumbing
//! live outside the engine, which only decides and accounts.
use vstd::prelude::*;
use vstd::string::StringExecFns;

use crate::ext::new_uuid;
use crate::ext::resolve_url;
use crate::ext::url_join_of;
use crate::ext::url_joins;
use crate::CommandRequest;
use crate::CommandResponse;

verus! {

/// One accepted, not yet fully executed command list, with its task
/// identifier and the log file its run will write.
#[derive(Debug)]
pub struct Work {
    pub task: String,
    pub log_file: String,
    pub command: CommandRequest,
}

/// The relative path of a task's log file: `agent-logs/<task>/console.log`.
pub open spec fn log_path_of(task: Seq<char>) -> Seq<char> {
    "agent-logs/"@ + task + "/console.log"@
}

/// The directory all task log directories live under.
pub fn logs_root() -> (r: &'static str)
    ensures
        r@ == "agent-logs"@,
{
    "agent-logs"
}

fn log_path_for(task: &String) -> (r: String)
    ensures
        r@ == log_path_of(task@),
{
    let mut r = String::from_str("agent-logs/");
    r.append(task.as_str());
    r.append("/console.log");
    r
}

/// The outcome of a submission: admitted with its handle, or rejected
/// because the queue stood at capacity.
#[derive(Debug)]
pub enum Submission {
    /// The work was admitted under `task`; its log will be written to the
    /// relative path `log_file`.
    Accepted { task: String, log_file: String },
    /// The queue was full.  The caller should retry later; nothing was
    /// changed.
    Busy,
}

/// The agent's bounded work queue.
#[derive(Debug)]
pub struct WorkQueue {
    items: Vec<Work>,
    capacity: usize,
}

impl WorkQueue {
    /// Queued work, oldest first.
    pub closed spec fn pending(&self) -> Seq<Work> {
        self.items@
    }

    /// The fixed number of items the queue may hold.
    pub closed spec fn cap(&self) -> nat {
        self.capacity as nat
    }

    /// A queue is well formed when it holds no more than its capacity.
    pub open spec fn wf(&self) -> bool {
        self.pending().len() <= self.cap()
    }

    /// Whether the queue can admit one more item.
    pub open spec fn admits(&self) -> bool {
        self.pending().len() < self.cap()
    }

    pub fn new(capacity: usize) -> (q: WorkQueue)
        requires
            capacity >= 1,
        ensures
            q.wf(),
            q.pending() == Seq::<Work>::empty(),
            q.cap() == capacity,
    {
        let q = WorkQueue { items: Vec::new(), capacity };
        proof {
            assert(q.pending() =~= Seq::<Work>::empty());
        }
        q
    }

    pub fn is_full(&self) -> (r: bool)
        ensures
            r == !self.admits(),
    {
        self.items.len() >= self.capacity
    }

    /// Admit `command` if a slot is free: allocate a fresh task identifier,
    /// fix the run's log path, enqueue the work and hand back its handle.
    /// On a full queue nothing changes and the caller sees `Busy`.
    pub fn submit(&mut self, command: CommandRequest) -> (r: Submission)
        requires
            old(self).wf(),
        ensures
            final(self).wf(),
            final(self).cap() == old(self).cap(),
            r is Busy <==> !old(self).admits(),
            r is Busy ==> final(self).pending() == old(self).pending(),
            r matches Submission::Accepted { task, log_file } ==> task@.len() == 36
                && log_file@ == log_path_of(task@) && final(self).pending() == old(
                self,
            ).pending().push((Work { task, log_file, command })),
    {
        if self.items.len() >= self.capacity {
            return Submission::Busy;
        }
        let task = new_uuid();
        let log_file = log_path_for(&task);
        let work = Work { task: task.clone(), log_file: log_file.clone(), command };
        let ghost before = self.items@;
        self.items.push(work);
        proof {
            assert(self.items@ =~= before.push(self.items@.last()));
        }
        Submission::Accepted { task, log_file }
    }

    /// The worker's dequeue: the oldest pending item, removed.
    pub fn take_next(&mut self) -> (r: Option<Work>)
        requires
            old(self).wf(),
        ensures
            final(self).wf(),
            final(self).cap() == old(self).cap(),
            old(self).pending().len() == 0 ==> r is None && final(self).pending() == old(
                self,
            ).pending(),
            old(self).pending().len() > 0 ==> (r matches Some(w) && w == old(
                self,
            ).pending().first() && final(self).pending() == old(self).pending().drop_first()),
    {
        if self.items.len() == 0 {
            None
        } else {
            let w = self.items.remove(0);
            proof {
                assert(self.items@ =~= old(self).pending().drop_first());
            }
            Some(w)
        }
    }
}

/// The program every command is handed to.
pub fn shell_program() -> (r: &'static str)
    ensures
        r@ == "sh"@,
{
    "sh"
}

/// The argument list handed to the shell for one script: `-xec` makes the
/// shell echo what it runs and stop that script at its first failing
/// command.  The flag binds one script only — it never carries over to the
/// later scripts of the same work item.
pub open spec fn shell_args_of(script: Seq<char>) -> Seq<Seq<char>> {
    seq!["-xec"@, script]
}

pub fn shell_args(script: &String) -> (r: Vec<String>)
    ensures
        r.deep_view() == shell_args_of(script@),
{
    let mut r: Vec<String> = Vec::new();
    r.push(String::from_str("-xec"));
    r.push(script.clone());
    proof {
        assert(r.deep_view() =~= shell_args_of(script@));
    }
    r
}

/// The evolving state of one work item's execution, as the contracts see
/// it: the item's scripts, how many have been dealt with, the merged
/// output gathered so far, and the statuses of the commands that ran.
#[verifier::ext_equal]
pub ghost struct SessionView {
    pub task: Seq<char>,
    pub log_file: Seq<char>,
    pub commands: Seq<Seq<char>>,
    pub next: int,
    pub log: Seq<u8>,
    pub statuses: Seq<int>,
}

/// One step of the execution model: the current command ran, its merged
/// output was appended to the log, and its exit status was recorded.  The
/// session moves on whatever the status was.
pub open spec fn session_step(v: SessionView, output: Seq<u8>, status: int) -> SessionView {
    SessionView {
        task: v.task,
        log_file: v.log_file,
        commands: v.commands,
        next: v.next + 1,
        log: v.log + output,
        statuses: v.statuses.push(status),
    }
}

/// The session state after the next `outcomes.len()` commands ran with
/// those outputs and statuses, in order.
pub open spec fn session_after(v: SessionView, outcomes: Seq<(Seq<u8>, int)>) -> SessionView
    decreases outcomes.len(),
{
    if outcomes.len() == 0 {
        v
    } else {
        session_after(session_step(v, outcomes.first().0, outcomes.first().1), outcomes.drop_first())
    }
}

/// All outputs of `outcomes`, concatenated in order.
pub open spec fn concat_outputs(outcomes: Seq<(Seq<u8>, int)>) -> Seq<u8>
    decreases outcomes.len(),
{
    if outcomes.len() == 0 {
        Seq::empty()
    } else {
        outcomes.first().0 + concat_outputs(outcomes.drop_first())
    }
}

/// Every command gets its turn, whatever came of the ones before: after
/// `outcomes.len()` steps, the log has grown by exactly the outputs
/// concatenated in order, and the recorded statuses by exactly the
/// statuses in order.  A failing command never cancels the commands after
/// it — only a spawn failure does, outside this model's steps.
pub proof fn lemma_run_executes_all(v: SessionView, outcomes: Seq<(Seq<u8>, int)>)
    ensures
        session_after(v, outcomes).commands == v.commands,
        session_after(v, outcomes).next == v.next + outcomes.len(),
        session_after(v, outcomes).log == v.log + concat_outputs(outcomes),
        session_after(v, outcomes).statuses == v.statuses + outcomes.map_values(
            |o: (Seq<u8>, int)| o.1,
        ),
    decreases outcomes.len(),
{
    if outcomes.len() == 0 {
        assert(session_after(v, outcomes).log =~= v.log + concat_outputs(outcomes));
        assert(session_after(v, outcomes).statuses =~= v.statuses + outcomes.map_values(
            |o: (Seq<u8>, int)| o.1,
        ));
    } else {
        let first = outcomes.first();
        let rest = outcomes.drop_first();
        let stepped = session_step(v, first.0, first.1);
        lemma_run_executes_all(stepped, rest);
        assert(stepped.log + concat_outputs(rest) =~= v.log + concat_outputs(outcomes));
        assert(stepped.statuses + rest.map_values(|o: (Seq<u8>, int)| o.1) =~= v.statuses
            + outcomes.map_values(|o: (Seq<u8>, int)| o.1));
    }
}

/// The execution of one work item.  The worker drives it: ask for the next
/// script, run it through the shell with merged output, and record what
/// came back; a spawn failure abandons the item's remaining commands
/// without touching the log.
#[derive(Debug)]
pub struct RunSession {
    work: Work,
    next: usize,
    log: Vec<u8>,
    statuses: Vec<i64>,
}

impl View for RunSession {
    type V = SessionView;

    closed spec fn view(&self) -> SessionView {
        SessionView {
            task: self.work.task@,
            log_file: self.work.log_file@,
            commands: self.work.command@,
            next: self.next as int,
            log: self.log@,
            statuses: self.statuses@.map_values(|s: i64| s as int),
        }
    }
}

impl RunSession {
    /// A session that has neither skipped nor repeated anything.
    pub open spec fn wf(&self) -> bool {
        0 <= self@.next <= self@.commands.len() && self@.statuses.len() <= self@.next
    }

    /// A session with no spawn failure so far: every command dealt with
    /// actually ran and left a status.
    pub open spec fn live(&self) -> bool {
        self@.statuses.len() == self@.next
    }

    pub open spec fn finished_spec(&self) -> bool {
        self@.next == self@.commands.len()
    }

    /// Begin executing `work`.
    pub fn start(work: Work) -> (s: RunSession)
        ensures
            s.wf(),
            s.live(),
            s@.task == work.task@,
            s@.log_file == work.log_file@,
            s@.commands == work.command@,
            s@.next == 0,
            s@.log == Seq::<u8>::empty(),
            s@.statuses == Seq::<int>::empty(),
    {
        let s = RunSession { work, next: 0, log: Vec::new(), statuses: Vec::new() };
        proof {
            assert(s@.log =~= Seq::<u8>::empty());
            assert(s@.statuses =~= Seq::<int>::empty());
        }
        s
    }

    /// The task identifier this session runs under.
    pub fn task(&self) -> (r: &String)
        ensures
            r@ == self@.task,
    {
        &self.work.task
    }

    /// The relative path of the log file this session's output belongs in.
    pub fn log_file(&self) -> (r: &String)
        ensures
            r@ == self@.log_file,
    {
        &self.work.log_file
    }

    /// The merged output gathered so far, in arrival order.
    pub fn log_bytes(&self) -> (r: &Vec<u8>)
        ensures
            r@ == self@.log,
    {
        &self.log
    }

    /// The exit statuses recorded so far, in command order.
    pub fn statuses(&self) -> (r: &Vec<i64>)
        ensures
            r@.map_values(|s: i64| s as int) == self@.statuses,
    {
        &self.statuses
    }

    pub fn finished(&self) -> (r: bool)
        requires
            self.wf(),
        ensures
            r == self.finished_spec(),
    {
        self.next >= self.work.command.commands.len()
    }

    /// The script of the command to run next, if any remains.
    pub fn next_script(&self) -> (r: Option<&String>)
        ensures
            r is Some <==> self@.next < self@.commands.len(),
            r matches Some(script) ==> script@ == self@.commands[self@.next],
    {
        if self.next < self.work.command.commands.len() {
            Some(&self.work.command.commands[self.next].script)
        } else {
            None
        }
    }

    /// The current command ran: append its merged output to the log,
    /// record its exit status, and move on — also when the status reports
    /// failure.
    pub fn record_outcome(&mut self, output: &Vec<u8>, status: i64)
        requires
            old(self).wf(),
            old(self).live(),
            old(self)@.next < old(self)@.commands.len(),
        ensures
            final(self).wf(),
            final(self).live(),
            final(self)@ == session_step(old(self)@, output@, status as int),
    {
        let ghost log0 = self.log@;
        let ghost statuses0 = self@.statuses;
        let mut i: usize = 0;
        while i < output.len()
            invariant
                i <= output@.len(),
                self.log@ =~= log0 + output@.take(i as int),
                self.work == old(self).work,
                self.next == old(self).next,
                self.statuses == old(self).statuses,
            decreases output@.len() - i,
        {
            let b = output[i];
            self.log.push(b);
            proof {
                assert(self.log@ =~= log0 + output@.take(i as int + 1));
            }
            i = i + 1;
        }
        proof {
            assert(log0 + output@.take(output@.len() as int) =~= log0 + output@);
        }
        self.statuses.push(status);
        let limit = self.work.command.commands.len();
        proof {
            assert(self.next < limit);
        }
        self.next = self.next + 1;
        proof {
            assert(self@.statuses =~= statuses0.push(status as int));
            assert(self@ =~= session_step(old(self)@, output@, status as int));
        }
    }

    /// The shell could not be spawned for the current command: abandon
    /// this work item's remaining commands.  The log and the recorded
    /// statuses stay as they were, and the worker stays available for the
    /// next item.
    pub fn record_spawn_failure(&mut self)
        requires
            old(self).wf(),
            old(self)@.next < old(self)@.commands.len(),
        ensures
            final(self).wf(),
            final(self).finished_spec(),
            final(self)@.task == old(self)@.task,
            final(self)@.log_file == old(self)@.log_file,
            final(self)@.commands == old(self)@.commands,
            final(self)@.log == old(self)@.log,
            final(self)@.statuses == old(self)@.statuses,
    {
        self.next = self.work.command.commands.len();
    }
}

/// The submission reply for an accepted task: the task identifier and the
/// run's log URL, resolved against the base URL of the originating request
/// as `<base> + "../../" + <relative log path>`.
pub fn build_response(task: &String, log_file: &String, base_url: &str) -> (r: Option<
    CommandResponse,
>)
    ensures
        r is Some <==> url_joins(base_url@, "../../"@ + log_file@),
        r matches Some(resp) ==> resp.uuid@ == task@ && resp.log@ == url_join_of(
            base_url@,
            "../../"@ + log_file@,
        ) && resp.stream is None && resp.task is None,
{
    let mut rel = String::from_str("../../");
    rel.append(log_file.as_str());
    match resolve_url(base_url, rel.as_str()) {
        Some(log) => Some(
            CommandResponse { uuid: task.clone(), stream: None, task: None, log },
        ),
        None => None,
    }
}

/// How many of `n` back-to-back submissions a queue admits when `len`
/// items are already pending and nothing is consumed meanwhile: each
/// submission is admitted exactly when the queue is below its capacity
/// `cap`, and each admission fills one slot.
pub open spec fn admitted_of(len: nat, cap: nat, n: nat) -> nat
    decreases n,
{
    if n == 0 {
        0
    } else if len < cap {
        1 + admitted_of((len + 1) as nat, cap, (n - 1) as nat)
    } else {
        0
    }
}

/// Bounded admission: of `n` submissions arriving while nothing is
/// consumed, a queue holding `len` of its `cap` items admits exactly the
/// free slots — all `n` when fewer arrive — and rejects every later
/// submission as busy, whatever the arrival order of the rejected ones.
pub proof fn lemma_bounded_admission(len: nat, cap: nat, n: nat)
    requires
        len <= cap,
    ensures
        admitted_of(len, cap, n) == if n <= cap - len {
            n as int
        } else {
            cap - len
        },
    decreases n,
{
    if n > 0 && len < cap {
        lemma_bounded_admission((len + 1) as nat, cap, (n - 1) as nat);
    }
}

} // verus!
