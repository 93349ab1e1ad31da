//! Launching a child thread and what becomes of it.
use vstd::prelude::*;
use crate::backend_type::BackendType;
use crate::child_kinds;
use crate::child_kinds::{is_external_connection_backend, postmaster_child_name};
use crate::pm_state::SIGABRT;
use crate::text;

verus! {

/// The next `i32`, wrapping at the end of the range.
pub open spec fn succ(x: i32) -> i32 {
    if x == i32::MAX {
        i32::MIN
    } else {
        (x + 1) as i32
    }
}

fn successor(x: i32) -> (r: i32)
    ensures
        r == succ(x),
{
    if x == i32::MAX {
        i32::MIN
    } else {
        x + 1
    }
}

/// The counter that synthetic pids come from. It shares its range with one
/// real pid, the supervisor's, and must never give that one out.
pub struct ChildPids {
    pub next: i32,
}

impl ChildPids {
    /// A counter that starts at 1000.
    pub fn new() -> (c: ChildPids)
        ensures
            c.next == 1000,
    {
        ChildPids { next: 1000 }
    }
}

/// Restarts the counter a given distance below the supervisor's pid, where
/// the environment asks for that and the result is positive.
pub fn start_below(c: &mut ChildPids, env: Option<&str>, postmaster_pid: i32)
    ensures
        final(c).next == (match env {
            Some(v) => match text::parse_signed(v@) {
                Some(n) => if i32::MIN <= n <= i32::MAX && 0 < postmaster_pid - n <= i32::MAX {
                    (postmaster_pid - n) as i32
                } else {
                    old(c).next
                },
                None => old(c).next,
            },
            None => old(c).next,
        }),
{
    if let Some(v) = env {
        if let Some(n) = text::parse_i32(v) {
            let start: i64 = postmaster_pid as i64 - n as i64;
            if start > 0 && start <= 0x7fff_ffff {
                c.next = start as i32;
            }
        }
    }
}

/// The pid that is given out next.
pub open spec fn next_pid(next: i32, postmaster_pid: i32) -> i32 {
    if next == postmaster_pid {
        succ(next)
    } else {
        next
    }
}

/// Reserves a pid.
pub fn reserve_child_pid(c: &mut ChildPids, postmaster_pid: i32) -> (pid: i32)
    ensures
        pid == next_pid(old(c).next, postmaster_pid),
        final(c).next == succ(pid),
        pid != postmaster_pid,
{
    let first: i32 = c.next;
    c.next = successor(first);
    if first != postmaster_pid {
        return first;
    }
    let second: i32 = c.next;
    c.next = successor(second);
    second
}

/// The pid of the reservation that `k` others came before.
pub open spec fn reserved(next: i32, postmaster_pid: i32, k: nat) -> i32
    decreases k,
{
    if k == 0 {
        next_pid(next, postmaster_pid)
    } else {
        next_pid(succ(reserved(next, postmaster_pid, (k - 1) as nat)), postmaster_pid)
    }
}

/// How far the counter has moved from the first pid to that one.
spec fn moved(next: i32, postmaster_pid: i32, k: nat) -> int
    decreases k,
{
    if k == 0 {
        0
    } else {
        moved(next, postmaster_pid, (k - 1) as nat) + if succ(
            reserved(next, postmaster_pid, (k - 1) as nat),
        ) == postmaster_pid {
            2int
        } else {
            1
        }
    }
}

proof fn lemma_moved(next: i32, postmaster_pid: i32, k: nat)
    ensures
        (reserved(next, postmaster_pid, k) - moved(next, postmaster_pid, k)) % 0x1_0000_0000
            == (reserved(next, postmaster_pid, 0) as int) % 0x1_0000_0000,
    decreases k,
{
    reveal_with_fuel(reserved, 2);
    reveal_with_fuel(moved, 2);
    if k > 0 {
        lemma_moved(next, postmaster_pid, (k - 1) as nat);
    }
}

proof fn lemma_moved_apart(next: i32, postmaster_pid: i32, i: nat, j: nat)
    requires
        i <= j,
    ensures
        j - i <= moved(next, postmaster_pid, j) - moved(next, postmaster_pid, i) <= 2 * (j - i),
    decreases j,
{
    if i < j {
        lemma_moved_apart(next, postmaster_pid, i, (j - 1) as nat);
    }
}

/// No reservation gives out the supervisor's pid, and two reservations with
/// fewer than 2147483647 between them differ.
pub proof fn law_pids_never_collide(next: i32, postmaster_pid: i32, i: nat, j: nat)
    requires
        i < j < i + 0x8000_0000,
    ensures
        reserved(next, postmaster_pid, i) != postmaster_pid,
        reserved(next, postmaster_pid, i) != reserved(next, postmaster_pid, j),
{
    lemma_moved(next, postmaster_pid, i);
    lemma_moved(next, postmaster_pid, j);
    lemma_moved_apart(next, postmaster_pid, i, j);
}

/// The threads of running children: pid and handle. A thread that serves one
/// task after another is listed under the pid of its task.
pub struct ChildThreads {
    pub entries: Vec<(i32, u64)>,
}

/// The first entry with this pid, or the length.
pub open spec fn entry_of(entries: Seq<(i32, u64)>, pid: i32) -> int
    decreases entries.len(),
{
    if entries.len() == 0 {
        0
    } else if entries[0].0 == pid {
        0
    } else {
        1 + entry_of(entries.skip(1), pid)
    }
}

proof fn lemma_entry_of(entries: Seq<(i32, u64)>, pid: i32, k: int)
    requires
        0 <= k <= entries.len(),
        forall|j: int| 0 <= j < k ==> (#[trigger] entries[j]).0 != pid,
        k < entries.len() ==> entries[k].0 == pid,
    ensures
        entry_of(entries, pid) == k,
    decreases k,
{
    if k > 0 {
        assert forall|j: int| 0 <= j < k - 1 implies (#[trigger] entries.skip(1)[j]).0 != pid by {
            assert(entries.skip(1)[j] == entries[j + 1]);
        }
        lemma_entry_of(entries.skip(1), pid, k - 1);
    }
}

/// `s` without its element `k`, whose place the last element takes.
pub open spec fn swap_removed<T>(s: Seq<T>, k: int) -> Seq<T> {
    s.update(k, s.last()).drop_last()
}

impl ChildThreads {
    /// No threads.
    pub fn new() -> (t: ChildThreads)
        ensures
            t.entries@.len() == 0,
    {
        ChildThreads { entries: Vec::new() }
    }

    fn find(&self, pid: i32) -> (k: usize)
        ensures
            k == entry_of(self.entries@, pid),
            k <= self.entries@.len(),
            k < self.entries@.len() ==> self.entries@[k as int].0 == pid,
    {
        let n: usize = self.entries.len();
        let mut k: usize = 0;
        while k < n && self.entries[k].0 != pid
            invariant
                k <= n,
                n == self.entries@.len(),
                forall|j: int| 0 <= j < k ==> (#[trigger] self.entries@[j]).0 != pid,
            decreases n - k,
        {
            k = k + 1;
        }
        proof {
            lemma_entry_of(self.entries@, pid, k as int);
        }
        k
    }

    /// Lists a thread.
    pub fn register(&mut self, pid: i32, handle: u64)
        ensures
            final(self).entries@ == old(self).entries@.push((pid, handle)),
    {
        self.entries.push((pid, handle));
    }

    /// Takes the thread with this pid off the list.
    pub fn remove(&mut self, pid: i32) -> (r: Option<u64>)
        ensures
            ({
                let k = entry_of(old(self).entries@, pid);
                if k < old(self).entries@.len() {
                    &&& r == Some(old(self).entries@[k].1)
                    &&& final(self).entries@ == swap_removed(old(self).entries@, k)
                } else {
                    &&& r is None
                    &&& final(self).entries@ == old(self).entries@
                }
            }),
    {
        let k: usize = self.find(pid);
        if k < self.entries.len() {
            let e = self.entries.swap_remove(k);
            assert(self.entries@ =~= swap_removed(old(self).entries@, k as int));
            Some(e.1)
        } else {
            None
        }
    }

    /// Lists the thread of `old_pid` under `new_pid`.
    pub fn rekey_child_thread(&mut self, old_pid: i32, new_pid: i32)
        ensures
            ({
                let k = entry_of(old(self).entries@, old_pid);
                if k < old(self).entries@.len() {
                    final(self).entries@ == old(self).entries@.update(
                        k,
                        (new_pid, old(self).entries@[k].1),
                    )
                } else {
                    final(self).entries@ == old(self).entries@
                }
            }),
    {
        let k: usize = self.find(old_pid);
        if k < self.entries.len() {
            let h: u64 = self.entries[k].1;
            self.entries.set(k, (new_pid, h));
        }
    }
}

/// The thread to wait for after child `pid` announced its end, where there is
/// one: a parked thread lives on.
pub open spec fn thread_to_join(entries: Seq<(i32, u64)>, parked: bool, pid: i32) -> Option<u64> {
    let k = entry_of(entries, pid);
    if !parked && k < entries.len() {
        Some(entries[k].1)
    } else {
        None
    }
}

/// The list of threads after child `pid` announced its end.
pub open spec fn threads_left(entries: Seq<(i32, u64)>, parked: bool, pid: i32) -> Seq<(i32, u64)> {
    let k = entry_of(entries, pid);
    if !parked && k < entries.len() {
        swap_removed(entries, k)
    } else {
        entries
    }
}

/// The thread to wait for after child `pid` announced its end. `parked` says
/// that the announcement only ended a task: the thread lives on.
pub fn join_announced_child(t: &mut ChildThreads, parked: bool, pid: i32) -> (r: Option<u64>)
    ensures
        r == thread_to_join(old(t).entries@, parked, pid),
        final(t).entries@ == threads_left(old(t).entries@, parked, pid),
{
    if parked {
        return None;
    }
    t.remove(pid)
}

/// Fault injection for connections: every `period`-th one fails; 0 = none.
pub struct ConnFaults {
    pub period: i32,
    pub seen: i32,
}

/// The period that the environment asks for.
pub open spec fn fault_period(env: Option<Seq<char>>) -> int {
    match env {
        Some(v) => match text::parse_signed(v) {
            Some(n) => if 0 < n <= i32::MAX { n } else { 0 },
            None => 0,
        },
        None => 0,
    }
}

impl ConnFaults {
    /// The faults that the environment asks for.
    pub fn new(env: Option<&str>) -> (f: ConnFaults)
        ensures
            f.seen == 0,
            f.period == fault_period(match env {
                Some(v) => Some(v@),
                None => None,
            }),
    {
        let period: i32 = match env {
            Some(v) => match text::parse_i32(v) {
                Some(n) => if n > 0 { n } else { 0 },
                None => 0,
            },
            None => 0,
        };
        ConnFaults { period, seen: 0 }
    }
}

/// Whether the setup of this child is made to fail.
pub fn injected_fault(f: &mut ConnFaults, child_type: BackendType) -> (fail: bool)
    requires
        old(f).period >= 0,
        0 <= old(f).seen < i32::MAX,
    ensures
        final(f).period == old(f).period,
        child_kinds::serves_client(child_type) && old(f).period > 0 ==> final(f).seen == old(f).seen + 1
            && fail == ((old(f).seen + 1) % (old(f).period as int) == 0),
        !(child_kinds::serves_client(child_type) && old(f).period > 0) ==> !fail && final(f).seen == old(f).seen,
{
    if is_external_connection_backend(child_type) && f.period > 0 {
        f.seen = f.seen + 1;
        let s: u32 = f.seen as u32;
        let p: u32 = f.period as u32;
        s % p == 0
    } else {
        false
    }
}

/// What an injected fault reports.
pub const INJECTED_FAULT: &'static str = "waiter wake pipe creation failed: errno 24";

/// The message a client gets when its session could not start: a type byte,
/// the text, a line end and a zero. Clients of every protocol version
/// understand it.
pub open spec fn failure_frame(msg: Seq<u8>) -> Seq<u8> {
    seq![69u8] + msg + seq![10u8, 0u8]
}

/// The message for a client whose session could not start.
pub fn startup_failure_message(msg: &str) -> (v: Vec<u8>)
    ensures
        v@ == failure_frame(vstd::utf8::encode_utf8(msg@)),
{
    let bytes = msg.as_bytes();
    let mut buf: Vec<u8> = Vec::new();
    buf.push(69);
    let mut i: usize = 0;
    while i < bytes.len()
        invariant
            i <= bytes@.len(),
            buf@ =~= seq![69u8] + bytes@.take(i as int),
        decreases bytes@.len() - i,
    {
        buf.push(bytes[i]);
        i = i + 1;
    }
    buf.push(10);
    buf.push(0);
    assert(bytes@.take(i as int) =~= bytes@);
    assert(buf@ =~= failure_frame(vstd::utf8::encode_utf8(msg@)));
    buf
}

/// What is done with the socket of a client that is turned away.
pub enum ClientStep {
    /// Make the socket non-blocking and send the bytes, where that is
    /// possible; what goes wrong with it is ignored.
    Send { sock: i32, bytes: Vec<u8> },
    /// Close the socket: that is what ends the client's wait.
    Close(i32),
}

/// Turns a client away: it gets one message, and then its socket is closed,
/// whatever became of the message. Without a client (`sock` is negative)
/// nothing is done.
pub fn report_startup_failure_to_client(sock: i32, msg: &str) -> (r: Vec<ClientStep>)
    ensures
        sock < 0 ==> r@.len() == 0,
        sock >= 0 ==> {
            &&& r@.len() == 2
            &&& r@[0] matches ClientStep::Send { sock: s, bytes } && s == sock && bytes@
                == failure_frame(vstd::utf8::encode_utf8(msg@))
            &&& r@[1] == ClientStep::Close(sock)
        },
{
    let mut steps: Vec<ClientStep> = Vec::new();
    if sock >= 0 {
        steps.push(ClientStep::Send { sock, bytes: startup_failure_message(msg) });
        steps.push(ClientStep::Close(sock));
    }
    steps
}

/// A message ends with its zero, so that a reader knows where it ends.
pub proof fn law_failure_frame_shape(msg: Seq<u8>)
    ensures
        failure_frame(msg)[0] == 69u8,
        failure_frame(msg).last() == 0u8,
        failure_frame(msg).subrange(1, 1 + msg.len() as int) =~= msg,
{
}

/// Whether to try sending again: only an interrupted attempt is repeated.
pub fn send_again(rc: i64, interrupted: bool) -> (r: bool)
    ensures
        r == (rc < 0 && interrupted),
{
    rc < 0 && interrupted
}

/// The log line about a child that could not start.
pub fn render_start_failure(kind_desc: &str, msg: &str) -> (s: String)
    ensures
        s@ == "could not start "@ + kind_desc@ + ": "@ + msg@,
{
    let mut s = String::from_str("could not start ");
    s.append(kind_desc);
    s.append(": ");
    s.append(msg);
    s
}

pub open spec fn max_int(a: int, b: int) -> int {
    if a >= b {
        a
    } else {
        b
    }
}

/// The stack a child thread gets: the process limit where it is finite, else
/// 16 MiB or the configured depth with 2 MiB to spare; never less than the
/// environment asks for, nor than 2 MiB.
pub open spec fn stack_size(rlim: int, max_stack_depth: int, env_min: int) -> int {
    let unlimited = max_int(0x100_0000, max_int(max_stack_depth, 0) + 0x20_0000);
    let base = if 0 < rlim < i64::MAX {
        rlim
    } else {
        unlimited
    };
    max_int(max_int(base, env_min), 0x20_0000)
}

/// The smallest stack that the environment asks for.
pub open spec fn env_stack(env: Option<Seq<char>>) -> int {
    match env {
        Some(v) => match text::parse_unsigned(v) {
            Some(n) => if n <= u64::MAX { n as int } else { 0 },
            None => 0,
        },
        None => 0,
    }
}

/// The stack a child thread gets, in bytes.
pub fn child_thread_stack_size(rlim: i64, max_stack_depth: i64, env: Option<&str>) -> (r: u64)
    ensures
        r == stack_size(
            rlim as int,
            max_stack_depth as int,
            env_stack(
                match env {
                    Some(v) => Some(v@),
                    None => None,
                },
            ),
        ),
{
    let depth: u64 = if max_stack_depth > 0 { max_stack_depth as u64 } else { 0 };
    let padded: u64 = depth + 0x20_0000;
    let unlimited: u64 = if padded > 0x100_0000 { padded } else { 0x100_0000 };
    let base: u64 = if rlim > 0 && rlim < 0x7fff_ffff_ffff_ffff { rlim as u64 } else { unlimited };
    let least: u64 = match env {
        Some(v) => match text::parse_u64(v) {
            Some(n) => n,
            None => 0,
        },
        None => 0,
    };
    let with_env: u64 = if least > base { least } else { base };
    if with_env < 0x20_0000 {
        0x20_0000
    } else {
        with_env
    }
}

/// How a task ended.
#[derive(Clone, Copy, Debug, PartialEq, Eq, Structural)]
pub enum Payload {
    /// It exited with this code.
    ProcExit(i32),
    /// A signal killed it.
    Killed(i32),
    /// Anything else: a panic.
    Other,
}

/// One task of a child thread.
#[derive(Clone, Copy, Debug, PartialEq, Eq, Structural)]
pub struct ChildTask {
    pub child_type: BackendType,
    pub pid: i32,
    pub slot: i32,
    pub client_sock: Option<i32>,
    /// The thread has served a task before and kept its identity.
    pub warm: bool,
    /// Whether somebody listens to announcements.
    pub announce_installed: bool,
}

/// How far a task has come, with what the outside reported last.
#[derive(Clone, Copy, Debug, PartialEq, Eq, Structural)]
pub enum TaskStage {
    Begin,
    /// Whether the child's own setup worked.
    ChildInit(bool),
    Ready,
    /// How the main function ended, and whether exit callbacks are owed.
    MainEnded { payload: Payload, callbacks_pending: bool },
    /// What running the owed callbacks ended in.
    CallbacksRun { payload: Payload, clean: bool },
    /// Everything is known: what the thread may keep is in `retain`.
    Finish { payload: Payload, clean: bool, retain: Retention },
    Done,
}

/// What a thread has kept for its next task.
#[derive(Clone, Copy, Debug, PartialEq, Eq, Structural)]
pub struct Retention {
    pub parking: bool,
    pub proc_retained: bool,
    pub sinval_retained: bool,
}

/// What a task asks the outside to do.
#[derive(Clone, Copy, Debug, PartialEq, Eq, Structural)]
pub enum TaskAction {
    /// Stamp when the connection's socket was made, and when the thread began.
    StampConnection,
    InitProcessGlobals(i32),
    RekeyWakeups,
    InitChild(i32),
    SetSigquitHandler,
    AdoptSignals(i32),
    DiscardSignals(i32),
    ReleaseSignals,
    LogStartFailure,
    /// Send the message of `startup_failure_message` to the client, without
    /// blocking; what goes wrong with it is ignored.
    ReportToClient(i32),
    SetChildSlot(i32),
    SetClientSocket(i32),
    RunMain,
    RunDeferredCallbacks(i32),
    AskRetention,
    /// Close the client's socket.
    CloseSocket(i32),
    TearDownSession,
    DumpCensus,
    MarkParked(i32),
    Announce { pid: i32, exitstatus: i32 },
    ResumeUnwind,
}

/// The wait status of a task's end.
pub open spec fn wait_status(payload: Payload) -> i32 {
    match payload {
        Payload::ProcExit(code) => code << 8,
        Payload::Killed(signo) => signo,
        Payload::Other => SIGABRT,
    }
}

fn status_of(payload: Payload) -> (r: i32)
    ensures
        r == wait_status(payload),
{
    match payload {
        Payload::ProcExit(code) => code << 8,
        Payload::Killed(signo) => signo,
        Payload::Other => SIGABRT,
    }
}

pub open spec fn task_if(c: bool, a: TaskAction) -> Seq<TaskAction> {
    if c {
        seq![a]
    } else {
        Seq::empty()
    }
}

fn add_if(v: &mut Vec<TaskAction>, c: bool, a: TaskAction)
    ensures
        final(v)@ == old(v)@ + task_if(c, a),
{
    if c {
        v.push(a);
        assert(v@ =~= old(v)@ + task_if(c, a));
    } else {
        assert(v@ =~= old(v)@ + task_if(c, a));
    }
}

/// Whether the thread stays for another task: it ended well and kept all that
/// it needs.
pub open spec fn parks(payload: Payload, r: Retention) -> bool {
    wait_status(payload) == 0 && r.parking && r.proc_retained && r.sinval_retained
}

/// Whether the session's memory is given back: after a real exit whose
/// callbacks ran without a crash, and not where the thread stays.
pub open spec fn tears_down(payload: Payload, clean: bool, r: Retention) -> bool {
    !parks(payload, r) && clean && payload is ProcExit
}

/// The actions of a step, and the next stage.
pub open spec fn task_step(t: ChildTask, stage: TaskStage) -> (Seq<TaskAction>, TaskStage) {
    match stage {
        TaskStage::Begin => {
            let head = Seq::empty() + task_if(
                child_kinds::serves_client(t.child_type),
                TaskAction::StampConnection,
            );
            if t.warm {
                (
                    head + task_if(true, TaskAction::InitProcessGlobals(t.pid)) + task_if(
                        true,
                        TaskAction::RekeyWakeups,
                    ) + task_if(true, TaskAction::AdoptSignals(t.pid)),
                    TaskStage::Ready,
                )
            } else {
                (head + task_if(true, TaskAction::InitChild(t.pid)), TaskStage::ChildInit(true))
            }
        },
        TaskStage::ChildInit(ok) => if ok {
            (
                Seq::empty() + task_if(true, TaskAction::SetSigquitHandler) + task_if(
                    true,
                    TaskAction::AdoptSignals(t.pid),
                ),
                TaskStage::Ready,
            )
        } else {
            (failed_start(t), TaskStage::Done)
        },
        TaskStage::Ready => (
            Seq::empty() + task_if(true, TaskAction::SetChildSlot(t.slot)) + task_if(
                t.client_sock is Some,
                TaskAction::SetClientSocket(t.client_sock->0),
            ) + task_if(true, TaskAction::RunMain),
            TaskStage::MainEnded { payload: Payload::Other, callbacks_pending: false },
        ),
        TaskStage::MainEnded { payload, callbacks_pending } => {
            let clean = payload is ProcExit && callbacks_pending;
            (
                Seq::empty() + task_if(
                    payload is ProcExit,
                    TaskAction::RunDeferredCallbacks(payload->ProcExit_0),
                ),
                TaskStage::CallbacksRun { payload, clean },
            )
        },
        TaskStage::CallbacksRun { payload, clean } => (
            Seq::empty() + task_if(
                t.client_sock is Some,
                TaskAction::CloseSocket(t.client_sock->0),
            ) + task_if(true, TaskAction::AskRetention),
            TaskStage::Finish {
                payload,
                clean,
                retain: Retention {
                    parking: false,
                    proc_retained: false,
                    sinval_retained: false,
                },
            },
        ),
        TaskStage::Finish { payload, clean, retain } => (
            Seq::empty() + task_if(tears_down(payload, clean, retain), TaskAction::TearDownSession)
                + task_if(true, TaskAction::DumpCensus) + task_if(true, TaskAction::ReleaseSignals)
                + task_if(true, TaskAction::DiscardSignals(t.pid)) + task_if(
                parks(payload, retain),
                TaskAction::MarkParked(t.pid),
            ) + task_if(
                t.announce_installed,
                TaskAction::Announce { pid: t.pid, exitstatus: wait_status(payload) },
            ) + task_if(!t.announce_installed, TaskAction::ResumeUnwind),
            TaskStage::Done,
        ),
        TaskStage::Done => (Seq::empty(), TaskStage::Done),
    }
}

/// Whether a task has a client that can be told something.
pub open spec fn has_client(t: ChildTask) -> bool {
    t.client_sock matches Some(s) && s >= 0
}

/// What happens to a child that could not finish its own setup: the cause is
/// logged, the client is told and its socket closed, and the slot comes back
/// through an announced exit with code 1, which is no crash.
pub open spec fn failed_start(t: ChildTask) -> Seq<TaskAction> {
    Seq::empty() + task_if(true, TaskAction::DiscardSignals(t.pid)) + task_if(
        true,
        TaskAction::LogStartFailure,
    ) + task_if(has_client(t), TaskAction::ReportToClient(t.client_sock->0)) + task_if(
        has_client(t),
        TaskAction::CloseSocket(t.client_sock->0),
    ) + task_if(
        t.announce_installed,
        TaskAction::Announce { pid: t.pid, exitstatus: 256 },
    )
}

/// What happens to a child that could not finish its own setup.
pub fn fail_child_startup(t: ChildTask) -> (r: Vec<TaskAction>)
    ensures
        r@ == failed_start(t),
{
    let mut v: Vec<TaskAction> = Vec::new();
    add_if(&mut v, true, TaskAction::DiscardSignals(t.pid));
    add_if(&mut v, true, TaskAction::LogStartFailure);
    let sock: i32 = t.client_sock.unwrap_or(-1);
    add_if(&mut v, sock >= 0, TaskAction::ReportToClient(sock));
    add_if(&mut v, sock >= 0, TaskAction::CloseSocket(sock));
    add_if(&mut v, t.announce_installed, TaskAction::Announce { pid: t.pid, exitstatus: 256 });
    v
}

/// Whether these are the actions and the stage of a step.
pub open spec fn task_is(actions: Seq<TaskAction>, next: TaskStage, step: (Seq<TaskAction>, TaskStage)) -> bool {
    actions == step.0 && next == step.1
}

fn task_finish(t: ChildTask, payload: Payload, clean: bool, retain: Retention) -> (r: (
    Vec<TaskAction>,
    TaskStage,
))
    ensures
        task_is(r.0@, r.1, task_step(t, TaskStage::Finish { payload, clean, retain })),
{
    let mut v: Vec<TaskAction> = Vec::new();
    let exitstatus: i32 = status_of(payload);
    let parked = exitstatus == 0 && retain.parking && retain.proc_retained && retain.sinval_retained;
    let exited = match payload {
        Payload::ProcExit(_) => true,
        _ => false,
    };
    add_if(&mut v, !parked && clean && exited, TaskAction::TearDownSession);
    add_if(&mut v, true, TaskAction::DumpCensus);
    add_if(&mut v, true, TaskAction::ReleaseSignals);
    add_if(&mut v, true, TaskAction::DiscardSignals(t.pid));
    add_if(&mut v, parked, TaskAction::MarkParked(t.pid));
    add_if(&mut v, t.announce_installed, TaskAction::Announce { pid: t.pid, exitstatus });
    add_if(&mut v, !t.announce_installed, TaskAction::ResumeUnwind);
    (v, TaskStage::Done)
}

/// One step of a task. The caller performs the returned actions, puts what it
/// learned into the next stage, and calls again until `Done`.
pub fn run_child_task(t: ChildTask, stage: TaskStage) -> (r: (Vec<TaskAction>, TaskStage))
    requires
        child_kinds::kind_has_main(t.child_type),
    ensures
        task_is(r.0@, r.1, task_step(t, stage)),
{
    let mut v: Vec<TaskAction> = Vec::new();
    let sock: i32 = t.client_sock.unwrap_or(-1);
    match stage {
        TaskStage::Begin => {
            add_if(
                &mut v,
                is_external_connection_backend(t.child_type),
                TaskAction::StampConnection,
            );
            if t.warm {
                add_if(&mut v, true, TaskAction::InitProcessGlobals(t.pid));
                add_if(&mut v, true, TaskAction::RekeyWakeups);
                add_if(&mut v, true, TaskAction::AdoptSignals(t.pid));
                (v, TaskStage::Ready)
            } else {
                add_if(&mut v, true, TaskAction::InitChild(t.pid));
                (v, TaskStage::ChildInit(true))
            }
        },
        TaskStage::ChildInit(ok) => {
            if ok {
                add_if(&mut v, true, TaskAction::SetSigquitHandler);
                add_if(&mut v, true, TaskAction::AdoptSignals(t.pid));
                (v, TaskStage::Ready)
            } else {
                (fail_child_startup(t), TaskStage::Done)
            }
        },
        TaskStage::Ready => {
            add_if(&mut v, true, TaskAction::SetChildSlot(t.slot));
            add_if(&mut v, t.client_sock.is_some(), TaskAction::SetClientSocket(sock));
            add_if(&mut v, true, TaskAction::RunMain);
            (v, TaskStage::MainEnded { payload: Payload::Other, callbacks_pending: false })
        },
        TaskStage::MainEnded { payload, callbacks_pending } => {
            match payload {
                Payload::ProcExit(code) => {
                    add_if(&mut v, true, TaskAction::RunDeferredCallbacks(code));
                    (v, TaskStage::CallbacksRun { payload, clean: callbacks_pending })
                },
                _ => {
                    assert(v@ =~= task_step(t, stage).0);
                    (v, TaskStage::CallbacksRun { payload, clean: false })
                },
            }
        },
        TaskStage::CallbacksRun { payload, clean } => {
            add_if(&mut v, t.client_sock.is_some(), TaskAction::CloseSocket(sock));
            add_if(&mut v, true, TaskAction::AskRetention);
            (
                v,
                TaskStage::Finish {
                    payload,
                    clean,
                    retain: Retention {
                        parking: false,
                        proc_retained: false,
                        sinval_retained: false,
                    },
                },
            )
        },
        TaskStage::Finish { payload, clean, retain } => task_finish(t, payload, clean, retain),
        TaskStage::Done => (v, TaskStage::Done),
    }
}

/// A start that fails never leaves its client waiting: the socket is closed
/// right after the message, and before the slot is given back.
pub proof fn law_failed_start_closes_the_socket(t: ChildTask)
    requires
        has_client(t),
    ensures
        ({
            let a = failed_start(t);
            &&& a.len() >= 4
            &&& a[2] == TaskAction::ReportToClient(t.client_sock->0)
            &&& a[3] == TaskAction::CloseSocket(t.client_sock->0)
            &&& t.announce_installed ==> a.last() == TaskAction::Announce {
                pid: t.pid,
                exitstatus: 256,
            }
        }),
{
}

/// A thread that did not end well never stays for another task, and the memory
/// of a session is given back only after a clean exit.
pub proof fn law_only_clean_exits_park_or_tear_down(payload: Payload, clean: bool, r: Retention)
    ensures
        parks(payload, r) ==> wait_status(payload) == 0,
        tears_down(payload, clean, r) ==> clean && payload is ProcExit && !parks(payload, r),
        !(payload is ProcExit) ==> !tears_down(payload, clean, r),
{
}

/// The marker that keeps a thread from being waited for is set before the
/// announcement that would make somebody wait.
pub proof fn law_parked_marker_precedes_announcement(t: ChildTask, payload: Payload, clean: bool, retain: Retention)
    requires
        parks(payload, retain),
        t.announce_installed,
    ensures
        ({
            let a = task_step(t, TaskStage::Finish { payload, clean, retain }).0;
            &&& a.len() >= 2
            &&& a[a.len() - 2] == TaskAction::MarkParked(t.pid)
            &&& a[a.len() - 1] == TaskAction::Announce { pid: t.pid, exitstatus: 0 }
        }),
{
}

/// How far a launch has come, with what the outside reported last.
#[derive(Clone, Copy, Debug, PartialEq, Eq, Structural)]
pub enum ChildLaunchStage {
    Begin,
    /// The pid of the job that took the child's place, where one did.
    JobTried(Option<i32>),
    /// Whether the thread was started, and its handle.
    Spawned { pid: i32, handle: Option<u64> },
}

/// What a launch asks for next.
#[derive(Clone, Copy, Debug, PartialEq, Eq, Structural)]
pub enum ChildLaunchStep {
    TryJob,
    /// Stamp the launch where a client is served, make signals deliverable to
    /// the pid, capture settings, and start the thread.
    Spawn { pid: i32, stamp: bool },
    /// The child runs under this pid.
    Launched(i32),
    /// Forget the pid's signals; the launch failed.
    Failed(i32),
}

/// The next step of a launch.
pub open spec fn child_launch_step(
    child_type: BackendType,
    next: i32,
    postmaster_pid: i32,
    stage: ChildLaunchStage,
) -> ChildLaunchStep {
    match stage {
        ChildLaunchStage::Begin => ChildLaunchStep::TryJob,
        ChildLaunchStage::JobTried(Some(pid)) => ChildLaunchStep::Launched(pid),
        ChildLaunchStage::JobTried(None) => ChildLaunchStep::Spawn {
            pid: next_pid(next, postmaster_pid),
            stamp: child_kinds::serves_client(child_type),
        },
        ChildLaunchStage::Spawned { pid, handle } => if handle is Some {
            ChildLaunchStep::Launched(pid)
        } else {
            ChildLaunchStep::Failed(pid)
        },
    }
}

/// One step of launching a child. A client backend must come with its startup
/// data. The result of the launch is the pid, or -1 where it failed.
pub fn postmaster_child_launch(
    child_type: BackendType,
    has_backend_data: bool,
    pids: &mut ChildPids,
    threads: &mut ChildThreads,
    postmaster_pid: i32,
    stage: ChildLaunchStage,
) -> (r: (ChildLaunchStep, Option<i32>))
    requires
        child_kinds::kind_has_main(child_type),
        child_kinds::serves_client(child_type) ==> has_backend_data,
    ensures
        r.0 == child_launch_step(child_type, old(pids).next, postmaster_pid, stage),
        r.1 == (match r.0 {
            ChildLaunchStep::Launched(pid) => Some(pid),
            ChildLaunchStep::Failed(_) => Some(-1i32),
            _ => None,
        }),
        final(pids).next == (if stage == ChildLaunchStage::JobTried(None) {
            succ(next_pid(old(pids).next, postmaster_pid))
        } else {
            old(pids).next
        }),
        final(threads).entries@ == (match stage {
            ChildLaunchStage::Spawned { pid, handle: Some(h) } => old(threads).entries@.push((pid, h)),
            _ => old(threads).entries@,
        }),
{
    match stage {
        ChildLaunchStage::Begin => (ChildLaunchStep::TryJob, None),
        ChildLaunchStage::JobTried(job) => match job {
            Some(pid) => (ChildLaunchStep::Launched(pid), Some(pid)),
            None => {
                let pid: i32 = reserve_child_pid(pids, postmaster_pid);
                let stamp = is_external_connection_backend(child_type);
                (ChildLaunchStep::Spawn { pid, stamp }, None)
            },
        },
        ChildLaunchStage::Spawned { pid, handle } => match handle {
            Some(h) => {
                threads.register(pid, h);
                (ChildLaunchStep::Launched(pid), Some(pid))
            },
            None => (ChildLaunchStep::Failed(pid), Some(-1)),
        },
    }
}

/// The name of a child's thread.
pub fn thread_name(child_type: BackendType, pid: i32) -> (s: String)
    ensures
        s@ == "pg:"@ + child_kinds::kind_name(child_type) + ":"@ + text::dec_int(pid as int),
{
    let mut s = String::from_str("pg:");
    s.append(postmaster_child_name(child_type));
    s.append(":");
    text::append_i64(&mut s, pid as i64);
    s
}

} // verus!
