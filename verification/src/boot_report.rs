//! What a start writes to the log and to the terminal, which signals it takes,
//! and how its last steps change the state.
use vstd::prelude::*;
use crate::boot::{ConfigFault, PG_VERSION_STR};
use crate::boot_options;
use crate::boot_options::OptionStep;
use crate::boot_order::StageResult;
use crate::pm_state::{PmChild, PostmasterState, StartupStatusEnum};
use crate::pm_state::{SIGALRM, SIGHUP, SIGINT, SIGPIPE, SIGQUIT, SIGTERM, SIGUSR1, SIGUSR2};

verus! {

/// What the supervisor does with a signal.
#[derive(Clone, Copy, Debug, PartialEq, Eq, Structural)]
pub enum Disposition {
    Reload,
    Shutdown,
    PmSignal,
    /// Taken, so that it does not end the process; nothing is done.
    Dummy,
    Ignore,
}

/// What is done with each signal.
pub open spec fn disposition(sig: i32) -> Option<Disposition> {
    if sig == SIGHUP {
        Some(Disposition::Reload)
    } else if sig == SIGINT || sig == SIGQUIT || sig == SIGTERM {
        Some(Disposition::Shutdown)
    } else if sig == SIGUSR1 {
        Some(Disposition::PmSignal)
    } else if sig == SIGUSR2 {
        Some(Disposition::Dummy)
    } else if sig == SIGALRM || sig == SIGPIPE {
        Some(Disposition::Ignore)
    } else {
        None
    }
}

/// The handlers that are installed, in their order.
pub fn signal_handlers() -> (v: Vec<(i32, Disposition)>)
    ensures
        v@.map_values(|e: (i32, Disposition)| e.0) == seq![
            SIGHUP,
            SIGINT,
            SIGQUIT,
            SIGTERM,
            SIGALRM,
            SIGPIPE,
            SIGUSR1,
            SIGUSR2,
        ],
        forall|i: int| 0 <= i < v@.len() ==> disposition((#[trigger] v@[i]).0) == Some(v@[i].1),
{
    let mut v: Vec<(i32, Disposition)> = Vec::new();
    v.push((SIGHUP, Disposition::Reload));
    v.push((SIGINT, Disposition::Shutdown));
    v.push((SIGQUIT, Disposition::Shutdown));
    v.push((SIGTERM, Disposition::Shutdown));
    v.push((SIGALRM, Disposition::Ignore));
    v.push((SIGPIPE, Disposition::Ignore));
    v.push((SIGUSR1, Disposition::PmSignal));
    v.push((SIGUSR2, Disposition::Dummy));
    v
}

/// How the check of the settings went: too many reserved connections end the
/// process, the other faults are errors.
pub fn settings_result(fault: Option<ConfigFault>) -> (r: StageResult)
    ensures
        r == (match fault {
            None => StageResult::Done,
            Some(ConfigFault::ReservedConnections) => StageResult::Refused,
            Some(_) => StageResult::Failed,
        }),
{
    match fault {
        None => StageResult::Done,
        Some(ConfigFault::ReservedConnections) => StageResult::Refused,
        Some(_) => StageResult::Failed,
    }
}

/// How reading the options went with this one: a setting without a value is an
/// error, any other option that is not understood ends the process.
pub fn option_result(o: &OptionStep) -> (r: StageResult)
    ensures
        r == (if o is RequiresValue {
            StageResult::Failed
        } else if o is InvalidArgument || o is RequiresArgument || o is UnknownOption {
            StageResult::Refused
        } else {
            StageResult::Done
        }),
{
    match o {
        OptionStep::RequiresValue { .. } => StageResult::Failed,
        OptionStep::InvalidArgument(_)
        | OptionStep::RequiresArgument(_)
        | OptionStep::UnknownOption => StageResult::Refused,
        _ => StageResult::Done,
    }
}

/// How the check for sockets went: a server that nobody can reach does not
/// start.
pub fn sockets_result(pm: &PostmasterState) -> (r: StageResult)
    ensures
        r == (if pm.listen_sockets@.len() == 0 {
            StageResult::Failed
        } else {
            StageResult::Done
        }),
{
    if pm.listen_sockets.len() == 0 {
        StageResult::Failed
    } else {
        StageResult::Done
    }
}

/// What is said when there is no socket.
pub const NO_SOCKET: &'static str = "no socket created for listening";

/// The child that brings the database up was started.
pub fn startup_launched(pm: &mut PostmasterState, child: PmChild)
    ensures
        *final(pm) == (PostmasterState {
            startup: Some(child),
            startup_status: StartupStatusEnum::Running,
            ..*old(pm)
        }),
{
    pm.startup = Some(child);
    pm.startup_status = StartupStatusEnum::Running;
}

/// The sockets to close at exit; the state has none afterwards.
pub fn close_server_ports(pm: &mut PostmasterState) -> (fds: Vec<i32>)
    ensures
        fds@ == old(pm).listen_sockets@,
        final(pm).listen_sockets@.len() == 0,
        *final(pm) == (PostmasterState { listen_sockets: final(pm).listen_sockets, ..*old(pm) }),
{
    let mut fds: Vec<i32> = Vec::new();
    std::mem::swap(&mut fds, &mut pm.listen_sockets);
    fds
}

/// The first line of the log.
pub fn render_starting() -> (s: String)
    ensures
        s@ == "starting "@ + PG_VERSION_STR@,
{
    let mut s = String::from_str("starting ");
    s.append(PG_VERSION_STR);
    s
}

/// What the log says of the regular expression engines; without the fast one
/// it is a warning.
pub fn render_regexp_engines(re2: bool) -> (r: (bool, &'static str))
    ensures
        r.0 == !re2,
        r.1@ == (if re2 {
            "regexp engines: re2+spencer (regex_engine=auto dispatches compatible patterns to re2)"@
        } else {
            "regexp engines: spencer only — RE2 was not linked into this build (regex_engine=auto has no re2 tier; SET regex_engine=re2 will error)"@
        }),
{
    if re2 {
        (
            false,
            "regexp engines: re2+spencer (regex_engine=auto dispatches compatible patterns to re2)",
        )
    } else {
        (
            true,
            "regexp engines: spencer only — RE2 was not linked into this build (regex_engine=auto has no re2 tier; SET regex_engine=re2 will error)",
        )
    }
}

/// The first `n` variables of an environment, each on a line of its own.
pub open spec fn variable_lines(names: Seq<Seq<char>>, values: Seq<Seq<char>>, n: nat) -> Seq<char>
    decreases n,
{
    if n == 0 {
        Seq::empty()
    } else {
        variable_lines(names, values, (n - 1) as nat) + "\n"@ + names[n - 1] + "="@ + values[n - 1]
    }
}

/// What the log says of the environment.
pub fn environment_dump(names: &Vec<String>, values: &Vec<String>) -> (s: String)
    requires
        names@.len() == values@.len(),
    ensures
        s@ == "initial environment dump:"@ + variable_lines(
            boot_options::views(names@),
            boot_options::views(values@),
            names@.len(),
        ),
{
    let ghost ns = boot_options::views(names@);
    let ghost vs = boot_options::views(values@);
    let mut s = String::from_str("initial environment dump:");
    let mut i: usize = 0;
    assert(s@ =~= "initial environment dump:"@ + variable_lines(ns, vs, 0));
    while i < names.len()
        invariant
            i <= names@.len(),
            names@.len() == values@.len(),
            ns == boot_options::views(names@),
            vs == boot_options::views(values@),
            s@ == "initial environment dump:"@ + variable_lines(ns, vs, i as nat),
        decreases names@.len() - i,
    {
        s.append("\n");
        s.append(names[i].as_str());
        s.append("=");
        s.append(values[i].as_str());
        i = i + 1;
        proof {
            assert(ns[i - 1] == names@[i - 1]@);
            assert(vs[i - 1] == values@[i - 1]@);
            assert(s@ =~= "initial environment dump:"@ + variable_lines(ns, vs, i as nat));
        }
    }
    s
}

/// What can go wrong with the external pid file.
#[derive(Clone, Copy, Debug, PartialEq, Eq, Structural)]
pub enum PidFileFault {
    Permissions,
    Write,
}

/// What is written about the external pid file.
pub fn render_pid_file_fault(f: PidFileFault, path: &str) -> (s: String)
    ensures
        s@ == (match f {
            PidFileFault::Permissions => "postgres: could not change permissions of external PID file \""@,
            PidFileFault::Write => "postgres: could not write external PID file \""@,
        }) + path@ + "\"\n"@,
{
    let mut s = String::from_str(
        match f {
            PidFileFault::Permissions => "postgres: could not change permissions of external PID file \"",
            PidFileFault::Write => "postgres: could not write external PID file \"",
        },
    );
    s.append(path);
    s.append("\"\n");
    s
}

/// The file in which the log collector says where the log is.
pub const LOG_METAINFO_DATAFILE: &'static str = "current_logfiles";

/// What the log says when that file cannot be removed.
pub fn render_metainfo_fault(error: &str) -> (s: String)
    ensures
        s@ == "could not remove file \""@ + LOG_METAINFO_DATAFILE@ + "\": "@ + error@,
{
    let mut s = String::from_str("could not remove file \"");
    s.append(LOG_METAINFO_DATAFILE);
    s.append("\": ");
    s.append(error);
    s
}

/// What is said when the access rules cannot be loaded.
pub fn render_hba_fault(file: &str) -> (s: String)
    ensures
        s@ == "could not load "@ + file@,
{
    let mut s = String::from_str("could not load ");
    s.append(file);
    s
}

} // verus!
