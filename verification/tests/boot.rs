use pgrust::backend_type::BackendType;
use pgrust::boot::{
    checkControlFile, check_settings, control_file_path, ignore_listen_guc, listen_elements,
    listen_host, path_buffer, pg_start_time, pid_file_line, render_fault, render_ignored_listen,
    render_no_executable, render_no_sockets, render_socket_warning, set_pg_start_time,
    socket_opened, sockets_failed, BootSettings, ConfigFault, CreateOptsFile, ListenKind,
    ListenState, ListenStep, StartTime, MAXPGPATH,
};
use pgrust::boot_options::{
    first_option, next_option, parse_long_option, refusal_sqlstate, render_bad_argument,
    render_refusal, split_list,
    OptionStep,
};
use pgrust::boot_order::{BootEnv, BootStage, BootStep, PostmasterMain, StageResult};
use pgrust::boot_report::{
    close_server_ports, environment_dump, option_result, render_hba_fault, render_metainfo_fault,
    render_pid_file_fault, render_regexp_engines, render_starting, settings_result,
    signal_handlers, sockets_result, startup_launched, Disposition, PidFileFault,
};
use pgrust::pm_state::{PmChild, PostmasterState, StartupStatusEnum};
use pgrust::text::{parse_i32, parse_i64, parse_u64, trim};

fn args(v: &[&str]) -> Vec<String> {
    v.iter().map(|s| String::from(*s)).collect()
}

#[test]
fn long_options_split_at_the_first_equals() {
    assert_eq!(
        parse_long_option("work-mem=4=MB"),
        (String::from("work_mem"), Some(String::from("4=MB")))
    );
    assert_eq!(parse_long_option("fsync"), (String::from("fsync"), None));
}

#[test]
fn options_are_read_one_by_one() {
    let argv = args(&["postgres", "-D", "/data", "-p5433", "--work_mem=8MB", "-F", "x"]);
    let mut pos = first_option(&argv);
    let mut seen: Vec<OptionStep> = Vec::new();
    loop {
        let (step, next) = next_option(&argv, pos);
        if matches!(step, OptionStep::End) {
            break;
        }
        assert!(next > pos);
        seen.push(step);
        pos = next;
    }
    assert_eq!(seen.len(), 5);
    assert!(matches!(&seen[0], OptionStep::DataDirectory(d) if d == "/data"));
    assert!(
        matches!(&seen[1], OptionStep::SetConfig { name, value } if name == "port" && value == "5433")
    );
    assert!(
        matches!(&seen[2], OptionStep::SetConfig { name, value } if name == "work_mem" && value == "8MB")
    );
    assert!(
        matches!(&seen[3], OptionStep::SetConfig { name, value } if name == "fsync" && value == "false")
    );
    assert!(matches!(&seen[4], OptionStep::InvalidArgument(a) if a == "x"));
}

#[test]
fn a_setting_without_a_value_is_a_syntax_error() {
    let argv = args(&["postgres", "--host-pipes", "-c", "foo-bar"]);
    let (step, _) = next_option(&argv, first_option(&argv));
    assert_eq!(render_refusal(&step), "-c foo-bar requires a value");
    assert_eq!(refusal_sqlstate(&step), Some("42601"));
    assert_eq!(option_result(&step), StageResult::Failed);
    assert_eq!(refusal_sqlstate(&OptionStep::UnknownOption), None);
}

#[test]
fn bad_options_are_refused() {
    let argv = args(&["postgres", "-D"]);
    let (step, _) = next_option(&argv, first_option(&argv));
    assert!(matches!(&step, OptionStep::RequiresArgument(o) if o == "D"));
    assert!(render_refusal(&step).contains('D'));
    let argv = args(&["postgres", "--work_mem"]);
    let (step, _) = next_option(&argv, 1);
    assert!(matches!(&step, OptionStep::RequiresValue { dashes: true, .. }));
    assert!(render_refusal(&step).contains("--work_mem requires a value"), "{}", render_refusal(&step));
    assert!(render_bad_argument("-t", "zz").contains("zz"));
}

#[test]
fn lists_are_split_at_commas() {
    assert_eq!(split_list("a, b ,,c"), args(&["a", "b", "c"]));
    assert!(split_list("").is_empty());
}

fn settings() -> BootSettings {
    BootSettings {
        superuser_reserved_connections: 3,
        reserved_connections: 0,
        max_connections: 100,
        wal_level: 1,
        archive_mode: 0,
        max_wal_senders: 10,
        summarize_wal: false,
    }
}

#[test]
fn settings_that_contradict_each_other_are_faults() {
    assert_eq!(check_settings(settings()), None);
    let mut s = settings();
    s.reserved_connections = 97;
    assert_eq!(check_settings(s), Some(ConfigFault::ReservedConnections));
    assert!(render_fault(ConfigFault::ReservedConnections, s).contains("97"));
    let mut s = settings();
    s.wal_level = 0;
    s.archive_mode = 1;
    assert_eq!(check_settings(s), Some(ConfigFault::ArchivalNeedsWal));
    s.archive_mode = 0;
    assert_eq!(check_settings(s), Some(ConfigFault::StreamingNeedsWal));
    s.max_wal_senders = 0;
    assert_eq!(check_settings(s), None);
    s.summarize_wal = true;
    assert_eq!(check_settings(s), Some(ConfigFault::SummariesNeedWal));
}

#[test]
fn listeners_are_opened_and_counted() {
    assert_eq!(listen_elements(&Some(String::from("localhost, *"))), args(&["localhost", "*"]));
    assert_eq!(listen_host("*"), None);
    assert_eq!(listen_host("localhost"), Some("localhost"));
    let mut st = ListenState { success: 0, listen_addr_saved: false };
    assert_eq!(socket_opened(&mut st, ListenKind::Tcp, false), ListenStep::Warn);
    assert!(sockets_failed(&st, &args(&["localhost"])));
    assert_eq!(socket_opened(&mut st, ListenKind::Tcp, true), ListenStep::SaveLine);
    assert_eq!(socket_opened(&mut st, ListenKind::Tcp, true), ListenStep::Nothing);
    assert!(!sockets_failed(&st, &args(&["localhost"])));
    assert_eq!(ignore_listen_guc(true, Some(String::from("*"))), (None, true));
    assert_eq!(
        ignore_listen_guc(false, Some(String::from("*"))),
        (Some(String::from("*")), false)
    );
    assert!(render_ignored_listen("listen_addresses").contains("listen_addresses"));
    assert!(render_no_sockets(ListenKind::Tcp).contains("TCP/IP"));
    assert!(render_socket_warning(ListenKind::Unix, "/tmp").contains("/tmp"));
}

#[test]
fn small_files_and_paths() {
    assert_eq!(CreateOptsFile("/bin/postgres", &args(&["postgres", "-D", "/d"])), "/bin/postgres \"-D\" \"/d\"\n");
    assert_eq!(pid_file_line(77), "77\n");
    assert_eq!(control_file_path("/d"), "/d/global/pg_control");
    assert!(checkControlFile("/d", true, "gone").contains("/d"));
    assert!(render_no_executable("pg").contains("pg"));
    let buf = path_buffer(b"/d");
    assert_eq!(buf.len(), MAXPGPATH);
    assert_eq!(&buf[..3], b"/d\0");
    let mut t = StartTime::new();
    set_pg_start_time(&mut t, 99);
    assert_eq!(pg_start_time(&t), 99);
}

#[test]
fn the_boot_stops_at_a_failure() {
    let env = BootEnv {
        output_config_variable: false,
        debug3: false,
        enable_ssl: false,
        apply_launcher_shmem: false,
        logging_collector: false,
        host_owns_listener: false,
        listen_addr_saved: true,
        external_pid_file: false,
        have_checkpointer: true,
        have_bgwriter: true,
    };
    let mut stage = BootStage::ProcessGlobals;
    let mut steps = 1;
    loop {
        match PostmasterMain(stage, StageResult::Done, env) {
            BootStep::Run(next) => {
                stage = next;
                steps += 1;
            }
            BootStep::Exit(_) | BootStep::Fail => break,
        }
        assert!(steps < 100);
    }
    assert!(steps > 40);
    let after = |stage, result| PostmasterMain(stage, result, env);
    assert_eq!(after(BootStage::DataDirLockFile, StageResult::Failed), BootStep::Fail);
    assert_eq!(after(BootStage::SelectConfigFiles, StageResult::Failed), BootStep::Fail);
    assert_eq!(after(BootStage::SelectConfigFiles, StageResult::Refused), BootStep::Exit(2));
    assert_eq!(after(BootStage::CheckConfig, StageResult::Refused), BootStep::Exit(1));
    assert_eq!(after(BootStage::CheckConfig, StageResult::Failed), BootStep::Fail);
    assert_eq!(after(BootStage::Serve, StageResult::Refused), BootStep::Exit(1));
    assert_eq!(after(BootStage::LoadHba, StageResult::Refused), BootStep::Fail);
    assert_eq!(
        after(BootStage::LoadIdent, StageResult::Refused),
        BootStep::Run(BootStage::StartTime)
    );
    assert_eq!(
        after(BootStage::AdjustIoWorkers, StageResult::Done),
        BootStep::Run(BootStage::StartStartup)
    );
}

#[test]
fn a_printed_variable_ends_the_start() {
    let env = BootEnv {
        output_config_variable: true,
        debug3: true,
        enable_ssl: true,
        apply_launcher_shmem: true,
        logging_collector: true,
        host_owns_listener: true,
        listen_addr_saved: false,
        external_pid_file: true,
        have_checkpointer: false,
        have_bgwriter: false,
    };
    assert_eq!(
        PostmasterMain(BootStage::MemoryAutotune, StageResult::Done, env),
        BootStep::Run(BootStage::PrintConfigVariable)
    );
    assert_eq!(
        PostmasterMain(BootStage::PrintConfigVariable, StageResult::Done, env),
        BootStep::Exit(0)
    );
    assert_eq!(
        PostmasterMain(BootStage::AdjustIoWorkers, StageResult::Done, env),
        BootStep::Run(BootStage::StartCheckpointer)
    );
}

#[test]
fn settings_faults_end_or_fail_the_start() {
    assert_eq!(settings_result(None), StageResult::Done);
    assert_eq!(settings_result(Some(ConfigFault::ReservedConnections)), StageResult::Refused);
    assert_eq!(settings_result(Some(ConfigFault::StreamingNeedsWal)), StageResult::Failed);
}

#[test]
fn a_start_takes_its_signals_and_sockets() {
    let v = signal_handlers();
    assert_eq!(v.len(), 8);
    assert_eq!(v[0], (1, Disposition::Reload));
    assert_eq!(v[3], (15, Disposition::Shutdown));
    assert_eq!(v[5], (13, Disposition::Ignore));
    let mut pm = PostmasterState::new();
    assert_eq!(sockets_result(&pm), StageResult::Failed);
    pm.listen_sockets = vec![4, 5];
    assert_eq!(sockets_result(&pm), StageResult::Done);
    startup_launched(&mut pm, PmChild { child_slot: 2, bkend_type: BackendType::Startup, pid: 77 });
    assert_eq!(pm.startup_status, StartupStatusEnum::Running);
    assert_eq!(pm.startup.map(|c| c.pid), Some(77));
    assert_eq!(close_server_ports(&mut pm), vec![4, 5]);
    assert!(pm.listen_sockets.is_empty());
}

#[test]
fn a_start_says_what_it_does() {
    assert_eq!(render_starting(), "starting pgrust 0.2 (PostgreSQL 18.3 compatible)");
    assert!(!render_regexp_engines(true).0);
    assert_eq!(
        render_regexp_engines(false),
        (
            true,
            "regexp engines: spencer only \u{2014} RE2 was not linked into this build \
             (regex_engine=auto has no re2 tier; SET regex_engine=re2 will error)"
        )
    );
    assert_eq!(
        environment_dump(&args(&["A", "B"]), &args(&["1", ""])),
        "initial environment dump:\nA=1\nB="
    );
    assert_eq!(
        render_pid_file_fault(PidFileFault::Write, "/x"),
        "postgres: could not write external PID file \"/x\"\n"
    );
    assert_eq!(
        render_pid_file_fault(PidFileFault::Permissions, "/x"),
        "postgres: could not change permissions of external PID file \"/x\"\n"
    );
    assert_eq!(
        render_metainfo_fault("denied"),
        "could not remove file \"current_logfiles\": denied"
    );
    assert_eq!(render_hba_fault("pg_hba.conf"), "could not load pg_hba.conf");
}

#[test]
fn numbers_are_parsed_as_the_standard_library_does() {
    assert_eq!(trim("  a b\t\n"), "a b");
    assert_eq!(parse_u64("18446744073709551615"), Some(u64::MAX));
    assert_eq!(parse_u64("18446744073709551616"), None);
    assert_eq!(parse_u64("+7"), Some(7));
    assert_eq!(parse_u64("-7"), None);
    assert_eq!(parse_i64("-9223372036854775808"), Some(i64::MIN));
    assert_eq!(parse_i32("2147483648"), None);
    assert_eq!(parse_i32(""), None);
}

#[test]
fn the_usual_command_line_is_read() {
    let argv = args(&[
        "postgres",
        "-D",
        "/tmp/pgrust-data",
        "-k",
        "/tmp",
        "-p",
        "5432",
        "-c",
        "listen_addresses=",
        "-c",
        "io_method=sync",
        "-c",
        "max_stack_depth=60000",
    ]);
    let mut pos = first_option(&argv);
    let mut seen: Vec<OptionStep> = Vec::new();
    loop {
        let (step, next) = next_option(&argv, pos);
        if matches!(step, OptionStep::End) {
            break;
        }
        seen.push(step);
        pos = next;
    }
    assert_eq!(seen.len(), 6);
    assert!(matches!(&seen[0], OptionStep::DataDirectory(d) if d == "/tmp/pgrust-data"));
    let settings: Vec<(&str, &str)> = seen[1..]
        .iter()
        .map(|s| match s {
            OptionStep::SetConfig { name, value } => (name.as_str(), value.as_str()),
            _ => panic!("not a setting"),
        })
        .collect();
    assert_eq!(
        settings,
        [
            ("unix_socket_directories", "/tmp"),
            ("port", "5432"),
            ("listen_addresses", ""),
            ("io_method", "sync"),
            ("max_stack_depth", "60000"),
        ]
    );
    assert_eq!(option_result(&seen[0]), StageResult::Done);
    assert_eq!(option_result(&OptionStep::UnknownOption), StageResult::Refused);
    let bare = OptionStep::RequiresValue { dashes: true, optarg: String::from("fsync") };
    assert_eq!(option_result(&bare), StageResult::Failed);
}
