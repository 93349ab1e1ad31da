//! What holds of a start: its settings, its options, its order and its texts.
use vstd::prelude::*;
use crate::boot;
use crate::boot::{BootSettings, ConfigFault, ListenKind, ListenState, ListenStep};
use crate::boot_options;
use crate::boot_options::OptionView;
use crate::boot_order;
use crate::boot_order::{BootEnv, BootStage, StageResult};
use crate::boot_report;
use crate::boot_report::Disposition;
use crate::postmaster;
use crate::text;

verus! {

/// A start needs more connections than it reserves, and more than minimal WAL
/// for archiving, senders and summaries; the first thing amiss is reported.
pub proof fn law_settings_that_exclude_each_other(s: BootSettings)
    ensures
        ({
            let f = boot::config_fault(s);
            let full = s.superuser_reserved_connections + s.reserved_connections
                >= s.max_connections;
            let minimal = s.wal_level == 0;
            &&& f == Some(ConfigFault::ReservedConnections) <==> full
            &&& f == Some(ConfigFault::ArchivalNeedsWal) <==> !full && minimal && s.archive_mode > 0
            &&& f == Some(ConfigFault::StreamingNeedsWal) <==> !full && minimal && s.archive_mode
                <= 0 && s.max_wal_senders > 0
            &&& f == Some(ConfigFault::SummariesNeedWal) <==> !full && minimal && s.archive_mode
                <= 0 && s.max_wal_senders <= 0 && s.summarize_wal
            &&& f is None <==> !full && (!minimal || s.archive_mode <= 0 && s.max_wal_senders <= 0
                && !s.summarize_wal)
        }),
{
}

/// Each socket that opens counts. The lock file gets the first address, and
/// the first directory; a place that does not work is only warned about.
pub proof fn law_sockets_are_counted(st: ListenState, kind: ListenKind)
    requires
        st.success < 0xffff_ffff,
    ensures
        boot::listened(st, kind, false) == (st, ListenStep::Warn),
        ({
            let (after, step) = boot::listened(st, kind, true);
            &&& after.success == st.success + 1
            &&& kind is Tcp ==> after.listen_addr_saved && (step is SaveLine
                <==> !st.listen_addr_saved)
            &&& kind is Unix ==> after.listen_addr_saved == st.listen_addr_saved && (step is SaveLine
                <==> st.success == 0)
            &&& !(step is Warn)
        }),
{
}

/// Each argument stands in quotes, behind a space, in its place.
pub proof fn law_arguments_are_quoted(argv: Seq<Seq<char>>, i: int)
    requires
        0 <= i < argv.len(),
    ensures
        ({
            let t = boot::quoted_words(argv, i);
            let n = argv[i].len() as int;
            &&& t.len() >= 3 + n
            &&& t[0] == ' ' && t[1] == '"' && t[2 + n] == '"'
            &&& t.subrange(2, 2 + n) =~= argv[i]
            &&& t.skip(3 + n) =~= boot::quoted_words(argv, i + 1)
        }),
        boot::quoted_words(argv, argv.len() as int).len() == 0,
{
    reveal_strlit(" \"");
    reveal_strlit("\"");
}

/// The options file holds the program and its arguments, without the name it
/// was called by, on one line.
pub proof fn law_options_file(program: Seq<char>, argv: Seq<Seq<char>>)
    ensures
        ({
            let t = boot::opts_text(program, argv);
            let w = boot::quoted_words(argv, 1);
            &&& t.take(program.len() as int) =~= program
            &&& t.last() == '\n'
            &&& t.subrange(program.len() as int, t.len() - 1) =~= w
            &&& argv.len() <= 1 ==> t.len() == program.len() + 1
        }),
{
    reveal_strlit("\n");
}

/// A path in a buffer of 1024 bytes is cut to 1023 and filled up with zeros.
pub proof fn law_path_in_a_buffer(path: Seq<u8>, i: int)
    ensures
        boot::path_in_buffer(path).len() == 1024,
        boot::path_in_buffer(path)[1023] == 0,
        0 <= i < 1023 && i < path.len() ==> boot::path_in_buffer(path)[i] == path[i],
        path.len() <= i < 1024 ==> boot::path_in_buffer(path)[i] == 0,
{
}

/// What is written about a control file ends with the error and a line end,
/// and names the directory.
pub proof fn law_control_file_text(dir: Seq<char>, error: Seq<char>)
    ensures
        ({
            let t = boot::control_file_text(dir, true, error);
            &&& t.last() == '\n'
            &&& t.subrange(t.len() - 1 - error.len(), t.len() - 1) =~= error
            &&& t.subrange(83, 83 + dir.len() as int) =~= dir
        }),
        ({
            let t = boot::control_file_text(dir, false, error);
            &&& t.last() == '\n'
            &&& t.subrange(t.len() - 1 - error.len(), t.len() - 1) =~= error
            &&& t.subrange(31, 31 + dir.len() as int) =~= dir
        }),
{
    reveal_strlit("postgres: could not open file \"");
    reveal_strlit(
        "postgres: could not find the database system\nExpected to find it in the directory \"",
    );
    reveal_strlit("\n");
    assert(
        "postgres: could not find the database system\nExpected to find it in the directory \""@.len()
            == 83);
    assert("postgres: could not open file \""@.len() == 31);
}

/// Dashes of a name stand for underscores; every other character is itself.
pub proof fn law_dashes_are_underscores(s: Seq<char>, i: int)
    requires
        0 <= i < s.len(),
    ensures
        boot_options::underscored(s).len() == s.len(),
        s[i] == '-' ==> boot_options::underscored(s)[i] == '_',
        s[i] != '-' ==> boot_options::underscored(s)[i] == s[i],
{
}

proof fn lemma_find(s: Seq<char>, c: char)
    ensures
        ({
            let k = boot_options::find_char(s, c);
            &&& 0 <= k <= s.len()
            &&& k < s.len() ==> s[k] == c
            &&& forall|j: int| 0 <= j < k ==> #[trigger] s[j] != c
        }),
    decreases s.len(),
{
    if s.len() > 0 && s[0] != c {
        lemma_find(s.skip(1), c);
        let k = boot_options::find_char(s, c);
        assert forall|j: int| 0 <= j < k implies #[trigger] s[j] != c by {
            if j > 0 {
                assert(s.skip(1)[j - 1] == s[j]);
            }
        }
    }
}

/// An option without an equals sign has no value.
pub proof fn law_option_without_a_value(s: Seq<char>)
    requires
        forall|i: int| 0 <= i < s.len() ==> #[trigger] s[i] != '=',
    ensures
        boot_options::long_option(s).1 is None,
        boot_options::long_option(s).0 == boot_options::underscored(s),
{
    lemma_find(s, '=');
}

/// A list is split at its commas. Each item counts without the white space
/// around it, and not where nothing is left.
pub proof fn law_list_is_split_at_commas(a: Seq<char>, b: Seq<char>)
    requires
        forall|i: int| 0 <= i < a.len() ==> #[trigger] a[i] != ',',
    ensures
        text::trimmed(a).len() == 0 ==> boot_options::list_items(a).len() == 0,
        text::trimmed(a).len() > 0 ==> boot_options::list_items(a) =~= seq![text::trimmed(a)],
        boot_options::list_items(a.push(',') + b) =~= boot_options::list_items(a)
            + boot_options::list_items(b),
{
    lemma_find(a, ',');
    let s = a.push(',') + b;
    lemma_find(s, ',');
    let k = boot_options::find_char(s, ',');
    let n = a.len() as int;
    assert(s[n] == ',');
    assert(k == n) by {
        if k < n {
            assert(s[k] == a[k]);
        }
    }
    assert(s.take(n) =~= a);
    assert(s.skip(n + 1) =~= b);
}

/// These letters, and two dashes, take an argument.
pub open spec fn takes_one(c: char) -> bool {
    c == 'B' || c == 'C' || c == 'c' || c == 'D' || c == 'd' || c == 'f' || c == 'h' || c == 'k' || c
        == 'N' || c == 'p' || c == 'r' || c == 'S' || c == 't' || c == 'W' || c == '-'
}

/// An argument may stand in the word of its option or in the next one: it
/// means the same. Nothing else is read ahead.
pub proof fn law_argument_stands_in_either_place(
    before: Seq<Seq<char>>,
    c: char,
    v: Seq<char>,
    rest: Seq<Seq<char>>,
)
    requires
        c != '-',
        v.len() > 0,
    ensures
        ({
            let n = before.len() as int;
            let one = before.push(seq!['-', c] + v) + rest;
            let two = before.push(seq!['-', c]).push(v) + rest;
            let (o1, p1) = boot_options::option_at(one, n);
            let (o2, p2) = boot_options::option_at(two, n);
            &&& p1 == n + 1
            &&& takes_one(c) ==> o1 == o2 && p2 == n + 2
            &&& !takes_one(c) ==> p2 == n + 1
            &&& takes_one(c) <==> boot_options::takes_argument(c)
        }),
{
    let n = before.len() as int;
    let one = before.push(seq!['-', c] + v) + rest;
    let two = before.push(seq!['-', c]).push(v) + rest;
    assert(one[n] == seq!['-', c] + v);
    assert(two[n] == seq!['-', c]);
    assert(two[n + 1] == v);
    assert((seq!['-', c] + v).skip(2) =~= v);
}

/// An option that lacks its argument, a word that is no option and the end of
/// the line are told apart.
pub proof fn law_words_that_are_no_option(argv: Seq<Seq<char>>, pos: int)
    requires
        0 <= pos,
    ensures
        ({
            let (o, next) = boot_options::option_at(argv, pos);
            let w = argv[pos];
            &&& o is End <==> pos >= argv.len()
            &&& pos < argv.len() && (w.len() == 0 || w[0] != '-') ==> o
                == OptionView::InvalidArgument(w)
            &&& pos < argv.len() && w.len() == 1 && w[0] == '-' ==> o is UnknownOption
            &&& pos == argv.len() - 1 && w.len() == 2 && w[0] == '-' && w[1] != '-' && takes_one(
                w[1],
            ) ==> o == OptionView::RequiresArgument(seq![w[1]])
            &&& pos == argv.len() ==> next == pos
        }),
{
}

/// Settings by name: `--name=value` and `-c name=value` set the same; without
/// a value both are refused, each in its own words.
pub proof fn law_settings_by_name(name: Seq<char>, value: Seq<char>)
    requires
        forall|i: int| 0 <= i < name.len() ==> #[trigger] name[i] != '=',
    ensures
        ({
            let v = name + seq!['='] + value;
            let set = OptionView::SetConfig(boot_options::underscored(name), value);
            &&& boot_options::with_argument('-', v) == set
            &&& boot_options::with_argument('c', v) == set
            &&& boot_options::with_argument('-', name) == OptionView::RequiresValue(true, name)
            &&& boot_options::with_argument('c', name) == OptionView::RequiresValue(false, name)
        }),
{
    boot_options::law_long_option_splits_at_first_equals(name, value);
    law_option_without_a_value(name);
}

/// What each letter with an argument sets.
pub proof fn law_letters_with_an_argument(v: Seq<char>, n: nat)
    ensures
        boot_options::with_argument('B', v) == OptionView::SetConfig("shared_buffers"@, v),
        boot_options::with_argument('h', v) == OptionView::SetConfig("listen_addresses"@, v),
        boot_options::with_argument('k', v) == OptionView::SetConfig(
            "unix_socket_directories"@,
            v,
        ),
        boot_options::with_argument('N', v) == OptionView::SetConfig("max_connections"@, v),
        boot_options::with_argument('p', v) == OptionView::SetConfig("port"@, v),
        boot_options::with_argument('S', v) == OptionView::SetConfig("work_mem"@, v),
        boot_options::with_argument('W', v) == OptionView::SetConfig("post_auth_delay"@, v),
        boot_options::with_argument('C', v) == OptionView::OutputConfigVariable(v),
        boot_options::with_argument('D', v) == OptionView::DataDirectory(v),
        boot_options::with_argument('f', v) == OptionView::PlanDisabling(v),
        boot_options::with_argument('t', v) == OptionView::StatsOption(v),
        boot_options::with_argument('r', v) is Ignored,
        n <= 0x7fff_ffff ==> boot_options::with_argument('d', text::dec_int(n as int))
            == OptionView::DebugLevel(n as int),
        n > 0x7fff_ffff ==> boot_options::with_argument('d', text::dec_int(n as int))
            == OptionView::DebugLevel(0),
{
    text::law_numerals_read_back(n);
}

/// Letters without an argument: each makes one setting, or none is known.
pub proof fn law_letters_without_an_argument(c: char)
    ensures
        boot_options::without_argument('F') == OptionView::SetConfig("fsync"@, "false"@),
        boot_options::without_argument('i') == OptionView::SetConfig("listen_addresses"@, "*"@),
        boot_options::without_argument('l') == OptionView::SetConfig("ssl"@, "true"@),
        boot_options::without_argument('E') == OptionView::SetConfig("log_statement"@, "all"@),
        boot_options::without_argument('e') == OptionView::SetConfig("datestyle"@, "euro"@),
        boot_options::without_argument('O') == OptionView::SetConfig(
            "allow_system_table_mods"@,
            "true"@,
        ),
        boot_options::without_argument('P') == OptionView::SetConfig(
            "ignore_system_indexes"@,
            "true"@,
        ),
        boot_options::without_argument('s') == OptionView::SetConfig(
            "log_statement_stats"@,
            "true"@,
        ),
        boot_options::without_argument('T') == OptionView::SetConfig(
            "send_abort_for_crash"@,
            "true"@,
        ),
        boot_options::without_argument(c) is BinaryUpgrade <==> c == 'b',
        boot_options::without_argument(c) is Ignored <==> c == 'j',
        boot_options::without_argument(c) is SetConfig <==> c == 'E' || c == 'e' || c == 'F' || c
            == 'i' || c == 'l' || c == 'O' || c == 'P' || c == 's' || c == 'T',
{
}

/// The transport's option counts only behind the program's name.
pub proof fn law_where_options_start(argv: Seq<Seq<char>>)
    ensures
        boot_options::options_start(argv) == 2 <==> argv.len() > 1 && argv[1] == "--host-pipes"@,
        boot_options::options_start(argv) == 1 || boot_options::options_start(argv) == 2,
{
}

/// Which steps are left out, and why.
pub proof fn law_which_steps_are_left_out(stage: BootStage, env: BootEnv)
    ensures
        boot_order::skipped(stage, env) <==> {
            ||| stage is PrintConfigVariable && !env.output_config_variable
            ||| stage is EnvironmentDump && !env.debug3
            ||| stage is SecureInitialize && !env.enable_ssl
            ||| stage is ApplyLauncherShmem && !env.apply_launcher_shmem
            ||| stage is SysLogger && !env.logging_collector
            ||| stage is HostListener && !env.host_owns_listener
            ||| stage is ListenAddressLine && env.listen_addr_saved
            ||| stage is ExternalPidFile && !env.external_pid_file
            ||| stage is StartCheckpointer && env.have_checkpointer
            ||| stage is StartBgWriter && env.have_bgwriter
        },
{
}

/// How a start ends: with code 0 after a variable was printed or the server is
/// done, with 2 where the configuration or the database is not found, with 1
/// where another step refuses. Three steps may refuse without ending it.
pub proof fn law_how_a_start_ends(stage: BootStage, result: StageResult)
    ensures
        ({
            let c = boot_order::exit_code(stage, result);
            &&& c == Some(0i32) <==> result is Done && (stage is PrintConfigVariable
                || stage is Serve)
            &&& c == Some(2i32) <==> result is Refused && (stage is SelectConfigFiles
                || stage is CheckControlFile)
            &&& c == Some(1i32) <==> result is Refused && (stage is InstallationPaths
                || stage is Options || stage is CheckConfig || stage is OptsFile || stage is Serve)
            &&& c is None || c == Some(0i32) || c == Some(1i32) || c == Some(2i32)
        }),
        boot_order::goes_on(stage, result) <==> {
            ||| result is Done && !(stage is PrintConfigVariable) && !(stage is Serve)
            ||| result is Refused && (stage is RemoveLogMetainfo || stage is ExternalPidFile
                || stage is LoadIdent)
        },
{
}

/// Signals are blocked before handlers are there and delivered only after.
/// Settings come before options, options before the configuration, and that
/// before the data directory is looked at and locked.
pub proof fn law_early_order()
    ensures
        BootStage::ProcessGlobals.rank() == 0,
        BootStage::BlockSignals.rank() < BootStage::SignalHandlers.rank()
            < BootStage::UnblockSignals.rank(),
        BootStage::WaitEventSupport.rank() < BootStage::LocalLatch.rank()
            < BootStage::UnblockSignals.rank() < BootStage::GucOptions.rank(),
        BootStage::GucOptions.rank() < BootStage::MaxStackDepth.rank() < BootStage::Options.rank()
            < BootStage::SelectConfigFiles.rank() < BootStage::MemoryAutotune.rank()
            < BootStage::PrintConfigVariable.rank(),
        BootStage::PrintConfigVariable.rank() < BootStage::CheckDataDir.rank()
            < BootStage::CheckControlFile.rank() < BootStage::ChangeToDataDir.rank()
            < BootStage::CheckConfig.rank() < BootStage::DataDirLockFile.rank(),
        BootStage::CheckConfig.rank() < BootStage::EnvironmentDump.rank()
            < BootStage::DataDirLockFile.rank() < BootStage::LocalControlFile.rank(),
{
}

/// Libraries are loaded before backends are counted, and slots and requests
/// follow that before shared memory is made. The log collector comes before
/// any socket, sockets before the files that name them, access rules before
/// the server counts as started, and children last.
pub proof fn law_late_order()
    ensures
        BootStage::LocalControlFile.rank() < BootStage::ApplyLauncherRegister.rank()
            < BootStage::SharedPreloadLibraries.rank() < BootStage::PreloadContrib.rank()
            < BootStage::SecureInitialize.rank() < BootStage::RuntimeGangProcs.rank()
            < BootStage::MaxBackends.rank() < BootStage::ChildSlots.rank()
            < BootStage::BgworkerShmem.rank() < BootStage::ApplyLauncherShmem.rank()
            < BootStage::FastPathLocks.rank() < BootStage::ShmemRequests.rank()
            < BootStage::ShmemGucs.rank() < BootStage::WalConsistencyChecking.rank()
            < BootStage::SharedMemory.rank(),
        BootStage::SharedMemory.rank() < BootStage::MaxSafeFds.rank()
            < BootStage::RemovePromoteFiles.rank() < BootStage::RemoveLogrotateFiles.rank()
            < BootStage::RemoveLogMetainfo.rank() < BootStage::SysLogger.rank()
            < BootStage::OutputNowhere.rank() < BootStage::LogStarting.rank(),
        BootStage::LogStarting.rank() < BootStage::ClosePortsAtExit.rank()
            < BootStage::HostListener.rank() < BootStage::TcpSockets.rank()
            < BootStage::UnixSockets.rank() < BootStage::SocketsCheck.rank()
            < BootStage::ListenAddressLine.rank() < BootStage::OptsFile.rank()
            < BootStage::ExternalPidFile.rank() < BootStage::RemoveTempFiles.rank(),
        BootStage::RemoveTempFiles.rank() < BootStage::AutovacInit.rank()
            < BootStage::LoadHba.rank() < BootStage::LoadIdent.rank() < BootStage::StartTime.rank()
            < BootStage::StatusStarting.rank() < BootStage::EnterStartup.rank(),
        BootStage::CloseTapPhase.rank() < BootStage::FreezeLocale.rank()
            < BootStage::EnterStartup.rank() < BootStage::AdjustIoWorkers.rank()
            < BootStage::StartCheckpointer.rank() < BootStage::StartBgWriter.rank()
            < BootStage::StartStartup.rank() < BootStage::Serve.rank(),
        BootStage::Serve.rank() == 67,
{
}

/// Signal 1 reloads; 2, 3 and 15 shut down; 10 brings requests of children; 12
/// does nothing; 13 and 14 are ignored. No other signal is taken.
pub proof fn law_signals_of_the_supervisor(sig: i32)
    ensures
        ({
            let d = boot_report::disposition(sig);
            &&& d == Some(Disposition::Reload) <==> sig == 1
            &&& d == Some(Disposition::Shutdown) <==> sig == 2 || sig == 3 || sig == 15
            &&& d == Some(Disposition::PmSignal) <==> sig == 10
            &&& d == Some(Disposition::Dummy) <==> sig == 12
            &&& d == Some(Disposition::Ignore) <==> sig == 13 || sig == 14
            &&& d is None <==> sig != 1 && sig != 2 && sig != 3 && sig != 10 && sig != 12 && sig
                != 13 && sig != 14 && sig != 15
        }),
{
}

/// Each variable of the environment has a line of its own, behind those before
/// it: name, equals sign, value.
pub proof fn law_variables_have_lines(names: Seq<Seq<char>>, values: Seq<Seq<char>>, n: nat)
    ensures
        boot_report::variable_lines(names, values, 0).len() == 0,
        ({
            let p = boot_report::variable_lines(names, values, n);
            let q = boot_report::variable_lines(names, values, n + 1);
            let a = names[n as int];
            let b = values[n as int];
            let k = p.len() as int;
            &&& q.len() == k + 2 + a.len() + b.len()
            &&& q.take(k) =~= p
            &&& q[k] == '\n' && q[k + 1 + a.len()] == '='
            &&& q.subrange(k + 1, k + 1 + a.len()) =~= a
            &&& q.skip(k + 2 + a.len()) =~= b
        }),
{
    reveal_strlit("\n");
    reveal_strlit("=");
    reveal_with_fuel(boot_report::variable_lines, 2);
}

/// A wait status tells exits and signals apart: a code times 256 is an exit
/// with that code; a signal, with or without a core, is none.
pub proof fn law_exits_and_signals(code: i32, sig: i32)
    requires
        0 <= code <= 255,
        1 <= sig <= 127,
    ensures
        postmaster::exit_code((code * 256) as i32) == Some(code),
        postmaster::exit_code(sig) is None,
        postmaster::exit_code((sig + 128) as i32) is None,
{
    let a: i32 = (code * 256) as i32;
    let b: i32 = (sig + 128) as i32;
    assert(a & 0x7f == 0 && (a >> 8) & 0xff == code) by (bit_vector)
        requires
            0 <= code <= 255,
            a == code * 256,
    ;
    assert(sig & 0x7f != 0) by (bit_vector)
        requires
            1 <= sig <= 127,
    ;
    assert(b & 0x7f != 0) by (bit_vector)
        requires
            1 <= sig <= 127,
            b == sig + 128,
    ;
}

/// What is written about a refused option names it.
pub proof fn law_refusals_name_the_option(v: Seq<char>)
    ensures
        ({
            let t = boot_options::refusal_text(OptionView::InvalidArgument(v));
            &&& t.subrange(29, 29 + v.len() as int) =~= v
            &&& t[28] == '"' && t[29 + v.len() as int] == '"' && t.last() == '\n'
        }),
        ({
            let t = boot_options::refusal_text(OptionView::RequiresArgument(v));
            &&& t.subrange(t.len() - 1 - v.len(), t.len() - 1) =~= v
            &&& t.last() == '\n'
        }),
        ({
            let t = boot_options::refusal_text(OptionView::RequiresValue(true, v));
            &&& t[0] == '-' && t[1] == '-'
            &&& t.subrange(2, 2 + v.len() as int) =~= v
        }),
        ({
            let t = boot_options::refusal_text(OptionView::RequiresValue(false, v));
            &&& t[0] == '-' && t[1] == 'c' && t[2] == ' '
            &&& t.subrange(3, 3 + v.len() as int) =~= v
        }),
{
    reveal_strlit("postgres: invalid argument: \"");
    reveal_strlit("\"\nTry \"postgres --help\" for more information.\n");
    reveal_strlit("postgres: option requires an argument -- ");
    reveal_strlit("\n");
    reveal_strlit("--");
    reveal_strlit("-c ");
}

/// What follows a step: the process ends with 0, 1 or 2 exactly where the
/// steps say so; an error of a step is the start's error; else a later step
/// that is not left out comes next, and every step between is left out.
pub proof fn law_what_follows_a_step(
    stage: BootStage,
    result: StageResult,
    env: BootEnv,
    r: boot_order::BootStep,
    t: BootStage,
)
    requires
        boot_order::boot_follows(stage, result, env, r),
    ensures
        r == boot_order::BootStep::Exit(0) <==> result is Done && (stage is PrintConfigVariable
            || stage is Serve),
        r == boot_order::BootStep::Exit(2) <==> result is Refused && (stage is SelectConfigFiles
            || stage is CheckControlFile),
        r == boot_order::BootStep::Exit(1) <==> result is Refused && (stage is InstallationPaths
            || stage is Options || stage is CheckConfig || stage is OptsFile || stage is Serve),
        result is Failed ==> r is Fail,
        r is Run <==> result is Done && !(stage is PrintConfigVariable) && !(stage is Serve)
            || result is Refused && (stage is RemoveLogMetainfo || stage is ExternalPidFile
            || stage is LoadIdent),
        r matches boot_order::BootStep::Run(s) ==> stage.rank() < s.rank() && !boot_order::skipped(
            s,
            env,
        ) && (stage.rank() < t.rank() < s.rank() ==> boot_order::skipped(t, env)),
{
}

} // verus!
