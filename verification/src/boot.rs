//! The checks and the texts of a start: settings that exclude each other,
//! listening sockets, files that a start writes.
use vstd::prelude::*;
use crate::boot_options;
use crate::boot_options::split_list;
use crate::text;

verus! {

pub const WAL_LEVEL_MINIMAL: i32 = 0;
pub const ARCHIVE_MODE_OFF: i32 = 0;

/// The length of a path buffer.
pub const MAXPGPATH: usize = 1024;

/// The version the start announces.
pub const PG_VERSION_STR: &'static str = "pgrust 0.2 (PostgreSQL 18.3 compatible)";

/// The settings that are checked against each other.
#[derive(Clone, Copy, Debug, PartialEq, Eq, Structural)]
pub struct BootSettings {
    pub superuser_reserved_connections: i32,
    pub reserved_connections: i32,
    pub max_connections: i32,
    pub wal_level: i32,
    pub archive_mode: i32,
    pub max_wal_senders: i32,
    pub summarize_wal: bool,
}

/// What can be wrong with them.
#[derive(Clone, Copy, Debug, PartialEq, Eq, Structural)]
pub enum ConfigFault {
    /// Ends the process with code 1.
    ReservedConnections,
    ArchivalNeedsWal,
    StreamingNeedsWal,
    SummariesNeedWal,
}

/// The first fault of the settings, in the order they are checked.
pub open spec fn config_fault(s: BootSettings) -> Option<ConfigFault> {
    if s.superuser_reserved_connections + s.reserved_connections >= s.max_connections {
        Some(ConfigFault::ReservedConnections)
    } else if s.wal_level != WAL_LEVEL_MINIMAL {
        None
    } else if s.archive_mode > ARCHIVE_MODE_OFF {
        Some(ConfigFault::ArchivalNeedsWal)
    } else if s.max_wal_senders > 0 {
        Some(ConfigFault::StreamingNeedsWal)
    } else if s.summarize_wal {
        Some(ConfigFault::SummariesNeedWal)
    } else {
        None
    }
}

/// Checks the settings.
pub fn check_settings(s: BootSettings) -> (r: Option<ConfigFault>)
    ensures
        r == config_fault(s),
{
    if s.superuser_reserved_connections as i64 + s.reserved_connections as i64
        >= s.max_connections as i64 {
        return Some(ConfigFault::ReservedConnections);
    }
    if s.archive_mode > ARCHIVE_MODE_OFF && s.wal_level == WAL_LEVEL_MINIMAL {
        return Some(ConfigFault::ArchivalNeedsWal);
    }
    if s.max_wal_senders > 0 && s.wal_level == WAL_LEVEL_MINIMAL {
        return Some(ConfigFault::StreamingNeedsWal);
    }
    if s.summarize_wal && s.wal_level == WAL_LEVEL_MINIMAL {
        return Some(ConfigFault::SummariesNeedWal);
    }
    None
}

/// What is written about a fault.
pub open spec fn fault_text(f: ConfigFault, s: BootSettings) -> Seq<char> {
    match f {
        ConfigFault::ReservedConnections => "postgres: \"superuser_reserved_connections\" ("@
            + text::dec_int(s.superuser_reserved_connections as int)
            + ") plus \"reserved_connections\" ("@ + text::dec_int(s.reserved_connections as int)
            + ") must be less than \"max_connections\" ("@ + text::dec_int(s.max_connections as int) + ")\n"@,
        ConfigFault::ArchivalNeedsWal => "WAL archival cannot be enabled when \"wal_level\" is \"minimal\""@,
        ConfigFault::StreamingNeedsWal => "WAL streaming (\"max_wal_senders\" > 0) requires \"wal_level\" to be \"replica\" or \"logical\""@,
        ConfigFault::SummariesNeedWal => "WAL cannot be summarized when \"wal_level\" is \"minimal\""@,
    }
}

/// What is written about a fault.
pub fn render_fault(f: ConfigFault, s: BootSettings) -> (r: String)
    ensures
        r@ == fault_text(f, s),
{
    match f {
        ConfigFault::ReservedConnections => {
            let mut r = String::from_str("postgres: \"superuser_reserved_connections\" (");
            text::append_i64(&mut r, s.superuser_reserved_connections as i64);
            r.append(") plus \"reserved_connections\" (");
            text::append_i64(&mut r, s.reserved_connections as i64);
            r.append(") must be less than \"max_connections\" (");
            text::append_i64(&mut r, s.max_connections as i64);
            r.append(")\n");
            r
        },
        ConfigFault::ArchivalNeedsWal => String::from_str(
            "WAL archival cannot be enabled when \"wal_level\" is \"minimal\"",
        ),
        ConfigFault::StreamingNeedsWal => String::from_str(
            "WAL streaming (\"max_wal_senders\" > 0) requires \"wal_level\" to be \"replica\" or \"logical\"",
        ),
        ConfigFault::SummariesNeedWal => String::from_str(
            "WAL cannot be summarized when \"wal_level\" is \"minimal\"",
        ),
    }
}

/// A listen setting under a transport that brings its own listener is not
/// honoured; where it is set at all, that deserves a warning.
pub fn ignore_listen_guc(host_owns_listener: bool, value: Option<String>) -> (r: (Option<String>, bool))
    ensures
        !host_owns_listener ==> r.0 == value && !r.1,
        host_owns_listener ==> r.0 is None && r.1 == (value matches Some(v) && v@.len() > 0),
{
    if !host_owns_listener {
        return (value, false);
    }
    let warn = match &value {
        Some(v) => v.as_str().unicode_len() > 0,
        None => false,
    };
    (None, warn)
}

/// What is warned about a listen setting that is not honoured.
pub fn render_ignored_listen(name: &str) -> (s: String)
    ensures
        s@ == name@ + " is ignored by the host-pipes transport"@,
{
    let mut s = String::from_str(name);
    s.append(" is ignored by the host-pipes transport");
    s
}

/// The places to listen at that a setting names; none where it is not set.
pub open spec fn listen_places(value: Option<String>) -> Seq<Seq<char>> {
    match value {
        Some(v) => boot_options::list_items(v@),
        None => Seq::empty(),
    }
}

/// The places to listen at that a setting names.
pub fn listen_elements(value: &Option<String>) -> (r: Vec<String>)
    ensures
        boot_options::views(r@) == listen_places(*value),
{
    match value {
        Some(v) => split_list(v.as_str()),
        None => {
            let r: Vec<String> = Vec::new();
            assert(boot_options::views(r@) =~= Seq::<Seq<char>>::empty());
            r
        },
    }
}

/// The host to listen at: a lone star means every address.
pub fn listen_host(curhost: &str) -> (r: Option<&str>)
    ensures
        curhost@ == "*"@ ==> r is None,
        curhost@ != "*"@ ==> (r matches Some(h) && h@ == curhost@),
{
    if text::str_eq(curhost, "*") {
        None
    } else {
        Some(curhost)
    }
}

/// Which kind of sockets is being opened.
#[derive(Clone, Copy, Debug, PartialEq, Eq, Structural)]
pub enum ListenKind {
    Tcp,
    Unix,
}

/// The state of opening the sockets of one kind.
#[derive(Clone, Copy, Debug, PartialEq, Eq, Structural)]
pub struct ListenState {
    /// How many sockets of this kind were opened.
    pub success: u32,
    /// Whether the lock file names a listen address.
    pub listen_addr_saved: bool,
}

/// What to do after an attempt to open a socket.
#[derive(Clone, Copy, Debug, PartialEq, Eq, Structural)]
pub enum ListenStep {
    Nothing,
    /// Write the place to its line of the lock file.
    SaveLine,
    Warn,
}

/// The state and the step after an attempt. The lock file gets the first
/// address that works, and the first socket directory that works.
pub open spec fn listened(st: ListenState, kind: ListenKind, ok: bool) -> (ListenState, ListenStep) {
    if !ok {
        (st, ListenStep::Warn)
    } else {
        match kind {
            ListenKind::Tcp => (
                ListenState { success: (st.success + 1) as u32, listen_addr_saved: true },
                if st.listen_addr_saved { ListenStep::Nothing } else { ListenStep::SaveLine },
            ),
            ListenKind::Unix => (
                ListenState { success: (st.success + 1) as u32, ..st },
                if st.success == 0 { ListenStep::SaveLine } else { ListenStep::Nothing },
            ),
        }
    }
}

/// Records an attempt to open a socket.
pub fn socket_opened(st: &mut ListenState, kind: ListenKind, ok: bool) -> (r: ListenStep)
    requires
        old(st).success < u32::MAX,
    ensures
        (*final(st), r) == listened(*old(st), kind, ok),
{
    if !ok {
        return ListenStep::Warn;
    }
    st.success = st.success + 1;
    match kind {
        ListenKind::Tcp => {
            if !st.listen_addr_saved {
                st.listen_addr_saved = true;
                ListenStep::SaveLine
            } else {
                ListenStep::Nothing
            }
        },
        ListenKind::Unix => {
            if st.success == 1 {
                ListenStep::SaveLine
            } else {
                ListenStep::Nothing
            }
        },
    }
}

/// Whether opening the sockets of one kind failed: places were named and none
/// worked.
pub fn sockets_failed(st: &ListenState, places: &Vec<String>) -> (r: bool)
    ensures
        r == (st.success == 0 && places@.len() > 0),
{
    st.success == 0 && places.len() > 0
}

/// What is said when no place of a kind worked.
pub fn render_no_sockets(kind: ListenKind) -> (s: &'static str)
    ensures
        s@ == (match kind {
            ListenKind::Tcp => "could not create any TCP/IP sockets"@,
            ListenKind::Unix => "could not create any Unix-domain sockets"@,
        }),
{
    match kind {
        ListenKind::Tcp => "could not create any TCP/IP sockets",
        ListenKind::Unix => "could not create any Unix-domain sockets",
    }
}

/// What is warned when one place did not work.
pub fn render_socket_warning(kind: ListenKind, place: &str) -> (s: String)
    ensures
        s@ == (match kind {
            ListenKind::Tcp => "could not create listen socket for \""@,
            ListenKind::Unix => "could not create Unix-domain socket in directory \""@,
        }) + place@ + "\""@,
{
    let mut s = String::from_str(
        match kind {
            ListenKind::Tcp => "could not create listen socket for \"",
            ListenKind::Unix => "could not create Unix-domain socket in directory \"",
        },
    );
    s.append(place);
    s.append("\"");
    s
}

/// `argv` from `i` on, each word in quotes behind a space.
pub open spec fn quoted_words(argv: Seq<Seq<char>>, i: int) -> Seq<char>
    decreases argv.len() - i,
{
    if i >= argv.len() {
        Seq::empty()
    } else {
        " \""@ + argv[i] + "\""@ + quoted_words(argv, i + 1)
    }
}

/// The line of the options file: the program, and its arguments in quotes.
pub open spec fn opts_text(program: Seq<char>, argv: Seq<Seq<char>>) -> Seq<char> {
    program + quoted_words(argv, 1) + "\n"@
}

/// The line of the options file.
pub fn CreateOptsFile(program: &str, argv: &Vec<String>) -> (line: String)
    ensures
        line@ == opts_text(program@, boot_options::views(argv@)),
{
    let ghost words = boot_options::views(argv@);
    let mut line = String::from_str(program);
    let mut i: usize = 1;
    while i < argv.len()
        invariant
            1 <= i,
            words == boot_options::views(argv@),
            line@ + quoted_words(words, i as int) == program@ + quoted_words(words, 1),
        decreases argv@.len() - i,
    {
        let ghost before = line@;
        line.append(" \"");
        line.append(argv[i].as_str());
        line.append("\"");
        proof {
            assert(words[i as int] == argv@[i as int]@);
            assert(line@ + quoted_words(words, i + 1) =~= before + (" \""@ + words[i as int] + "\""@
                + quoted_words(words, i + 1)));
        }
        i = i + 1;
    }
    proof {
        assert(quoted_words(words, i as int) =~= Seq::<char>::empty());
        assert(line@ + Seq::<char>::empty() =~= line@);
    }
    line.append("\n");
    line
}

/// A path in a buffer of fixed length: cut so that a zero follows.
pub open spec fn path_in_buffer(path: Seq<u8>) -> Seq<u8> {
    Seq::new(
        MAXPGPATH as nat,
        |i: int| if i < path.len() && i < MAXPGPATH - 1 { path[i] } else { 0u8 },
    )
}

/// A path in a buffer of fixed length.
pub fn path_buffer(path: &[u8]) -> (r: Vec<u8>)
    ensures
        r@ == path_in_buffer(path@),
{
    let mut r: Vec<u8> = Vec::new();
    while r.len() < MAXPGPATH
        invariant
            r@.len() <= MAXPGPATH,
            r@ =~= path_in_buffer(path@).take(r@.len() as int),
        decreases MAXPGPATH - r@.len(),
    {
        let i: usize = r.len();
        if i < path.len() && i < MAXPGPATH - 1 {
            r.push(path[i]);
        } else {
            r.push(0);
        }
    }
    r
}

/// Where the control file is.
pub fn control_file_path(data_dir: &str) -> (s: String)
    ensures
        s@ == data_dir@ + "/global/pg_control"@,
{
    let mut s = String::from_str(data_dir);
    s.append("/global/pg_control");
    s
}

/// What is written when the control file cannot be opened.
pub open spec fn control_file_text(data_dir: Seq<char>, missing: bool, error: Seq<char>) -> Seq<char> {
    if missing {
        "postgres: could not find the database system\nExpected to find it in the directory \""@ + data_dir
            + "\",\nbut could not open file \""@ + (data_dir + "/global/pg_control"@) + "\": "@ + error
            + "\n"@
    } else {
        "postgres: could not open file \""@ + (data_dir + "/global/pg_control"@) + "\": "@ + error + "\n"@
    }
}

/// What is written when the control file cannot be opened; the process then
/// ends with code 2.
pub fn checkControlFile(data_dir: &str, missing: bool, error: &str) -> (s: String)
    ensures
        s@ == control_file_text(data_dir@, missing, error@),
{
    let path = control_file_path(data_dir);
    let mut s;
    if missing {
        s = String::from_str(
            "postgres: could not find the database system\nExpected to find it in the directory \"",
        );
        s.append(data_dir);
        s.append("\",\nbut could not open file \"");
    } else {
        s = String::from_str("postgres: could not open file \"");
    }
    s.append(path.as_str());
    s.append("\": ");
    s.append(error);
    s.append("\n");
    s
}

/// What is written when the program cannot find itself.
pub fn render_no_executable(argv0: &str) -> (s: String)
    ensures
        s@ == "FATAL:  "@ + argv0@ + ": could not locate my own executable path\n"@,
{
    let mut s = String::from_str("FATAL:  ");
    s.append(argv0);
    s.append(": could not locate my own executable path\n");
    s
}

/// The content of the external pid file.
pub fn pid_file_line(pid: i32) -> (s: String)
    ensures
        s@ == text::dec_int(pid as int) + "\n"@,
{
    let mut s = String::new();
    text::append_i64(&mut s, pid as i64);
    assert(s@ =~= text::dec_int(pid as int));
    s.append("\n");
    s
}

/// When the server started.
#[derive(Clone, Copy, Debug, PartialEq, Eq, Structural)]
pub struct StartTime {
    pub at: i64,
}

impl StartTime {
    /// Not started yet.
    pub fn new() -> (t: StartTime)
        ensures
            t.at == 0,
    {
        StartTime { at: 0 }
    }
}

/// Records when the server started.
pub fn set_pg_start_time(t: &mut StartTime, ts: i64)
    ensures
        final(t).at == ts,
{
    t.at = ts;
}

/// When the server started.
pub fn pg_start_time(t: &StartTime) -> (ts: i64)
    ensures
        ts == t.at,
{
    t.at
}

} // verus!
