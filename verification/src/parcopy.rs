//! Copying directories in parallel: which files, how many threads, who takes
//! what, when to stop, and what to report.
use vstd::prelude::*;
use crate::text;

verus! {

pub const EINTR: i32 = 4;
pub const EINVAL: i32 = 22;

/// One directory to create, with the files to copy into it.
pub struct CopyDirJob {
    pub dst_dir: String,
    /// Source and destination of each file.
    pub files: Vec<(String, String)>,
}

/// What a finished copy reports.
#[derive(Clone, Copy, Debug, PartialEq, Eq, Structural)]
pub struct CopyStats {
    pub dirs: usize,
    pub files: usize,
    pub threads: usize,
    /// Wall time of the whole copy.
    pub wall_ns: u64,
    /// The sum of the workers' busy times.
    pub busy_ns: u64,
}

/// How to copy; taken once, before any worker starts.
#[derive(Clone, Copy, Debug, PartialEq, Eq, Structural)]
pub struct CopyKnobs {
    pub clone_files: bool,
    pub fsync: bool,
    pub writethrough: bool,
    pub file_mode: u32,
    pub dir_mode: u32,
}

/// Why a copy failed.
pub struct CopyFailure {
    pub op: &'static str,
    pub path: String,
    pub errno: i32,
    pub panic: bool,
}

/// The copy method that clones files.
pub const FILE_COPY_METHOD_CLONE: i32 = 1;

/// Takes the knobs from the settings.
pub fn snapshot_knobs(
    file_copy_method: i32,
    fsync: bool,
    writethrough: bool,
    file_mode: u32,
    dir_mode: u32,
) -> (k: CopyKnobs)
    ensures
        k == (CopyKnobs {
            clone_files: file_copy_method == FILE_COPY_METHOD_CLONE,
            fsync,
            writethrough,
            file_mode,
            dir_mode,
        }),
{
    CopyKnobs {
        clone_files: file_copy_method == FILE_COPY_METHOD_CLONE,
        fsync,
        writethrough,
        file_mode,
        dir_mode,
    }
}

/// One entry of a source directory.
pub struct DirEntry {
    pub name: String,
    /// A regular file, not followed through links.
    pub is_file: bool,
}

/// Whether an entry is copied: a regular file that is not one of the two
/// entries every directory has.
pub open spec fn copied(e: DirEntry) -> bool {
    e.is_file && e.name@ != "."@ && e.name@ != ".."@
}

pub open spec fn path_in(dir: Seq<char>, name: Seq<char>) -> Seq<char> {
    dir + "/"@ + name
}

/// Source and destination of the files to copy.
pub open spec fn job_files(src: Seq<char>, dst: Seq<char>, entries: Seq<DirEntry>) -> Seq<(Seq<char>, Seq<char>)>
    decreases entries.len(),
{
    if entries.len() == 0 {
        Seq::empty()
    } else {
        let before = job_files(src, dst, entries.drop_last());
        let e = entries.last();
        if copied(e) {
            before.push((path_in(src, e.name@), path_in(dst, e.name@)))
        } else {
            before
        }
    }
}

pub open spec fn pair_views(v: Seq<(String, String)>) -> Seq<(Seq<char>, Seq<char>)> {
    v.map_values(|p: (String, String)| (p.0@, p.1@))
}

fn join_path(dir: &str, name: &str) -> (s: String)
    ensures
        s@ == path_in(dir@, name@),
{
    let mut s = String::from_str(dir);
    s.append("/");
    s.append(name);
    s
}

/// The job of copying a directory: every regular file directly in it.
pub fn enumerate_dir_job(src_dir: &str, dst_dir: &str, entries: &Vec<DirEntry>) -> (j: CopyDirJob)
    ensures
        j.dst_dir@ == dst_dir@,
        pair_views(j.files@) == job_files(src_dir@, dst_dir@, entries@),
{
    let mut files: Vec<(String, String)> = Vec::new();
    let mut i: usize = 0;
    proof {
        assert(entries@.take(0) =~= Seq::<DirEntry>::empty());
        assert(pair_views(files@) =~= Seq::<(Seq<char>, Seq<char>)>::empty());
    }
    while i < entries.len()
        invariant
            i <= entries@.len(),
            pair_views(files@) == job_files(src_dir@, dst_dir@, entries@.take(i as int)),
        decreases entries@.len() - i,
    {
        let ghost before = pair_views(files@);
        proof {
            assert(entries@.take(i + 1).drop_last() =~= entries@.take(i as int));
            assert(entries@.take(i + 1).last() == entries@[i as int]);
        }
        let name = entries[i].name.as_str();
        if !text::str_eq(name, ".") && !text::str_eq(name, "..") && entries[i].is_file {
            let from = join_path(src_dir, name);
            let to = join_path(dst_dir, name);
            let ghost pair = (from@, to@);
            files.push((from, to));
            assert(pair_views(files@) =~= before.push(pair));
        }
        i = i + 1;
    }
    assert(entries@.take(i as int) =~= entries@);
    CopyDirJob { dst_dir: String::from_str(dst_dir), files }
}

/// What listing a source directory can fail at.
#[derive(Clone, Copy, Debug, PartialEq, Eq, Structural)]
pub enum ListStage {
    Open,
    /// Reading the next entry.
    Read,
    /// Looking at an entry.
    Stat,
}

/// What a failed listing says it was at.
pub open spec fn list_op(at: ListStage) -> Seq<char> {
    match at {
        ListStage::Open => "open directory"@,
        ListStage::Read => "read directory"@,
        ListStage::Stat => "stat file"@,
    }
}

/// The failure of listing a source directory; `path` is the directory, or the
/// entry that was looked at.
pub fn list_failure(at: ListStage, path: &str, raw_os_error: Option<i32>) -> (f: CopyFailure)
    ensures
        failure_is(f, list_op(at), path@, last_error(raw_os_error)),
{
    let op: &'static str = match at {
        ListStage::Open => "open directory",
        ListStage::Read => "read directory",
        ListStage::Stat => "stat file",
    };
    io_failure(op, path, raw_os_error)
}

/// How many threads copy: no more than there are directories, but one at
/// least.
pub open spec fn thread_count(workers: int, dirs: int) -> int {
    let m = if workers < dirs {
        workers
    } else {
        dirs
    };
    if m < 1 {
        1
    } else {
        m
    }
}

/// How many threads copy.
pub fn copy_threads(workers: usize, dirs: usize) -> (r: usize)
    ensures
        r == thread_count(workers as int, dirs as int),
{
    let m: usize = if workers < dirs { workers } else { dirs };
    if m < 1 {
        1
    } else {
        m
    }
}

/// How many files there are in all.
pub open spec fn file_count(jobs: Seq<CopyDirJob>) -> nat
    decreases jobs.len(),
{
    if jobs.len() == 0 {
        0
    } else {
        file_count(jobs.drop_last()) + jobs.last().files@.len()
    }
}

proof fn lemma_file_count_prefix(jobs: Seq<CopyDirJob>, k: int)
    requires
        0 <= k <= jobs.len(),
    ensures
        file_count(jobs.take(k)) <= file_count(jobs),
    decreases jobs.len() - k,
{
    if k == jobs.len() {
        assert(jobs.take(k) =~= jobs);
    } else {
        lemma_file_count_prefix(jobs, k + 1);
        assert(jobs.take(k + 1).drop_last() =~= jobs.take(k));
    }
}

/// What the workers share: the jobs left, whether to stop, and the first
/// failure.
pub struct CopyBatch {
    pub queue: Vec<CopyDirJob>,
    pub abort: bool,
    pub failure: Option<CopyFailure>,
    /// Every directory that the batch creates.
    pub dirs: Vec<String>,
}

/// The directories that jobs create.
pub open spec fn dst_dirs(jobs: Seq<CopyDirJob>) -> Seq<Seq<char>> {
    jobs.map_values(|j: CopyDirJob| j.dst_dir@)
}

pub open spec fn views(v: Seq<String>) -> Seq<Seq<char>> {
    v.map_values(|s: String| s@)
}

/// A batch about to begin, with what its report will say of its size.
pub fn begin_copy(jobs: Vec<CopyDirJob>, workers: usize) -> (r: (CopyBatch, CopyStats))
    requires
        file_count(jobs@) <= usize::MAX,
    ensures
        r.0.queue == jobs,
        !r.0.abort,
        r.0.failure is None,
        views(r.0.dirs@) == dst_dirs(jobs@),
        r.1 == (CopyStats {
            dirs: jobs@.len() as usize,
            files: file_count(jobs@) as usize,
            threads: thread_count(workers as int, jobs@.len() as int) as usize,
            wall_ns: 0,
            busy_ns: 0,
        }),
{
    let dirs: usize = jobs.len();
    let mut files: usize = 0;
    let mut made: Vec<String> = Vec::new();
    let mut i: usize = 0;
    assert(jobs@.take(0) =~= Seq::<CopyDirJob>::empty());
    while i < jobs.len()
        invariant
            i <= jobs@.len(),
            made@.len() == i,
            forall|k: int| 0 <= k < i ==> (#[trigger] made@[k])@ == jobs@[k].dst_dir@,
            file_count(jobs@) <= usize::MAX,
            files == file_count(jobs@.take(i as int)),
        decreases jobs@.len() - i,
    {
        proof {
            assert(jobs@.take(i + 1).drop_last() =~= jobs@.take(i as int));
            lemma_file_count_prefix(jobs@, i + 1);
        }
        files = files + jobs[i].files.len();
        made.push(String::from_str(jobs[i].dst_dir.as_str()));
        i = i + 1;
    }
    assert(jobs@.take(i as int) =~= jobs@);
    assert(views(made@) =~= dst_dirs(jobs@));
    let threads: usize = copy_threads(workers, dirs);
    (
        CopyBatch { queue: jobs, abort: false, failure: None, dirs: made },
        CopyStats { dirs, files, threads, wall_ns: 0, busy_ns: 0 },
    )
}

/// The next job of a worker: the last one left, unless the batch is to stop.
pub fn worker_loop(b: &mut CopyBatch) -> (r: Option<CopyDirJob>)
    ensures
        r is Some <==> !old(b).abort && old(b).queue@.len() > 0,
        r matches Some(j) ==> j == old(b).queue@.last() && final(b).queue@ == old(b).queue@.drop_last(),
        r is None ==> final(b).queue@ == old(b).queue@,
        final(b).abort == old(b).abort,
        final(b).failure == old(b).failure,
        final(b).dirs == old(b).dirs,
{
    if b.abort {
        return None;
    }
    let job = b.queue.pop();
    proof {
        if old(b).queue@.len() == 0 {
            assert(b.queue@ =~= old(b).queue@);
        }
    }
    job
}

/// Keeps the first failure and stops everybody.
pub fn park_failure(b: &mut CopyBatch, f: CopyFailure)
    ensures
        final(b).abort,
        final(b).failure == (if old(b).failure is Some {
            old(b).failure
        } else {
            Some(f)
        }),
        final(b).queue == old(b).queue,
        final(b).dirs == old(b).dirs,
{
    if b.failure.is_none() {
        b.failure = Some(f);
    }
    b.abort = true;
}

/// Stops everybody: an interrupt came.
pub fn interrupt_copy(b: &mut CopyBatch)
    ensures
        final(b).abort,
        final(b).failure == old(b).failure,
        final(b).queue == old(b).queue,
        final(b).dirs == old(b).dirs,
{
    b.abort = true;
}

/// The failure of a worker that panicked.
pub fn worker_panicked() -> (f: CopyFailure)
    ensures
        f.op@ == "copy worker"@,
        f.path@.len() == 0,
        f.errno == 0,
        f.panic,
{
    CopyFailure { op: "copy worker", path: String::new(), errno: 0, panic: true }
}

/// How a batch ended.
pub enum CopyEnd {
    /// The interrupt is raised.
    Interrupted,
    /// This is raised: the text, and the error number that its `%m` and its
    /// code stand for. A panic has none: it is an internal error.
    Failed { message: String, errno: Option<i32> },
    /// Every file is there. These directories are made durable next, in this
    /// order and by the caller's own thread.
    Copied { stats: CopyStats, sync_dirs: Vec<String> },
}

/// The text of a failure.
pub open spec fn failure_text(f: CopyFailure) -> Seq<char> {
    if f.panic {
        "batch copy worker panicked; aborting the mint batch"@
    } else {
        "could not "@ + f.op@ + " \""@ + f.path@ + "\": %m"@
    }
}

/// The text of a failure.
pub fn render_failure(f: &CopyFailure) -> (s: String)
    ensures
        s@ == failure_text(*f),
{
    if f.panic {
        return String::from_str("batch copy worker panicked; aborting the mint batch");
    }
    let mut s = String::from_str("could not ");
    s.append(f.op);
    s.append(" \"");
    s.append(f.path.as_str());
    s.append("\": %m");
    s
}

/// The code that is raised with a failure; none where it follows from the error
/// number.
pub fn failure_sqlstate(f: &CopyFailure) -> (r: Option<&'static str>)
    ensures
        f.panic ==> r is Some && (r->0)@ == "XX000"@,
        !f.panic ==> r is None,
{
    if f.panic {
        Some("XX000")
    } else {
        None
    }
}

/// The directories to make durable once every file is copied: all of them, or
/// none where nothing is made durable.
pub open spec fn dirs_to_sync(dirs: Seq<Seq<char>>, knobs: CopyKnobs) -> Seq<Seq<char>> {
    if knobs.fsync {
        dirs
    } else {
        Seq::empty()
    }
}

fn copy_strings(v: &Vec<String>) -> (r: Vec<String>)
    ensures
        views(r@) == views(v@),
{
    let mut r: Vec<String> = Vec::new();
    let mut i: usize = 0;
    while i < v.len()
        invariant
            i <= v@.len(),
            r@.len() == i,
            forall|k: int| 0 <= k < i ==> (#[trigger] r@[k])@ == v@[k]@,
        decreases v@.len() - i,
    {
        r.push(String::from_str(v[i].as_str()));
        i = i + 1;
    }
    assert(views(r@) =~= views(v@));
    r
}

/// What a batch ends in, once every worker has stopped: an interrupt goes
/// first, then the failure that was kept; only a batch without either
/// succeeds, and has its directories made durable.
pub fn copy_dirs_parallel(
    b: &CopyBatch,
    knobs: CopyKnobs,
    interrupted: bool,
    stats: CopyStats,
    wall_ns: u64,
    busy_ns: u64,
) -> (r: CopyEnd)
    ensures
        interrupted <==> r is Interrupted,
        !interrupted ==> (r is Failed <==> b.failure is Some),
        r matches CopyEnd::Failed { message, errno } ==> {
            &&& message@ == failure_text(b.failure->0)
            &&& errno == (if (b.failure->0).panic {
                None
            } else {
                Some((b.failure->0).errno)
            })
        },
        r matches CopyEnd::Copied { stats: s, sync_dirs } ==> {
            &&& s == (CopyStats { wall_ns, busy_ns, ..stats })
            &&& views(sync_dirs@) == dirs_to_sync(views(b.dirs@), knobs)
        },
{
    if interrupted {
        return CopyEnd::Interrupted;
    }
    match &b.failure {
        Some(f) => {
            let errno: Option<i32> = if f.panic { None } else { Some(f.errno) };
            CopyEnd::Failed { message: render_failure(f), errno }
        },
        None => {
            let sync_dirs: Vec<String> = if knobs.fsync {
                copy_strings(&b.dirs)
            } else {
                Vec::new()
            };
            assert(!knobs.fsync ==> views(sync_dirs@) =~= Seq::empty());
            CopyEnd::Copied {
                stats: CopyStats {
                    dirs: stats.dirs,
                    files: stats.files,
                    threads: stats.threads,
                    wall_ns,
                    busy_ns,
                },
                sync_dirs,
            }
        },
    }
}

/// Where a worker is with a directory.
#[derive(Clone, Copy, Debug, PartialEq, Eq, Structural)]
pub enum DirStage {
    /// It is yet to be created.
    Create,
    /// The file at this place is next.
    File(usize),
    /// Whatever was created is yet to be made known.
    Note,
    End,
}

/// A worker's progress with a directory.
pub struct DirCopy {
    pub stage: DirStage,
    pub failure: Option<CopyFailure>,
}

/// What a worker does next with a directory.
#[derive(Clone, Copy, Debug, PartialEq, Eq, Structural)]
pub enum DirStep {
    /// Create it, with this mode; it must not exist.
    CreateDir(u32),
    /// Copy the file at this place.
    CopyFile(usize),
    /// Tell everybody that files were created, so that nobody takes one of
    /// them for absent any longer.
    NoteFilesCreated,
    /// The directory is done, failed, or given up because the batch stops.
    Done,
}

/// What came of a step with a directory.
pub enum DirReply {
    Did,
    /// Creating it failed, with this error number where there is one.
    NotCreated(Option<i32>),
    /// Copying a file failed.
    FileFailed(CopyFailure),
}

/// Whether a failure is that of an operation on a path.
pub open spec fn failure_is(f: CopyFailure, op: Seq<char>, path: Seq<char>, errno: i32) -> bool {
    f.op@ == op && f.path@ == path && f.errno == errno && !f.panic
}

/// A directory about to be copied. One whose path cannot be handed to the
/// system fails at once.
pub fn begin_dir(job: &CopyDirJob) -> (d: DirCopy)
    ensures
        encodable(job.dst_dir@) ==> d.stage == DirStage::Create && d.failure is None,
        !encodable(job.dst_dir@) ==> {
            &&& d.stage == DirStage::Note
            &&& d.failure is Some
            &&& failure_is(d.failure->0, "encode path"@, job.dst_dir@, EINVAL)
        },
{
    match cstr(job.dst_dir.as_str()) {
        Some(f) => DirCopy { stage: DirStage::Note, failure: Some(f) },
        None => DirCopy { stage: DirStage::Create, failure: None },
    }
}

/// The stage with the batch looked at: before each file it is given up if the
/// batch stops.
pub open spec fn dir_polled(s: DirStage, files: nat, abort: bool) -> DirStage {
    match s {
        DirStage::File(i) => if abort || i >= files {
            DirStage::Note
        } else {
            s
        },
        _ => s,
    }
}

/// The step of a stage.
pub open spec fn dir_step(s: DirStage, knobs: CopyKnobs) -> DirStep {
    match s {
        DirStage::Create => DirStep::CreateDir(knobs.dir_mode),
        DirStage::File(i) => DirStep::CopyFile(i),
        DirStage::Note => DirStep::NoteFilesCreated,
        DirStage::End => DirStep::Done,
    }
}

/// The next step with a directory: it is created first; files follow one by
/// one, and none once the batch is to stop. Last, failed or not, the new files
/// are made known.
pub fn copy_one_dir(job: &CopyDirJob, d: &mut DirCopy, abort: bool, knobs: CopyKnobs) -> (r: DirStep)
    ensures
        final(d).stage == dir_polled(old(d).stage, job.files@.len(), abort),
        final(d).failure == old(d).failure,
        r == dir_step(final(d).stage, knobs),
{
    if let DirStage::File(i) = d.stage {
        if abort || i >= job.files.len() {
            d.stage = DirStage::Note;
        }
    }
    match d.stage {
        DirStage::Create => DirStep::CreateDir(knobs.dir_mode),
        DirStage::File(i) => DirStep::CopyFile(i),
        DirStage::Note => DirStep::NoteFilesCreated,
        DirStage::End => DirStep::Done,
    }
}

/// The stage after a step.
pub open spec fn dir_after(s: DirStage, reply: DirReply) -> DirStage {
    match (s, reply) {
        (DirStage::Note, _) | (DirStage::End, _) => DirStage::End,
        (DirStage::Create, DirReply::Did) => DirStage::File(0),
        (DirStage::File(i), DirReply::Did) => DirStage::File((i + 1) as usize),
        (_, _) => DirStage::Note,
    }
}

/// Takes what came of a step with a directory. The first failure is kept.
pub fn dir_replied(job: &CopyDirJob, d: &mut DirCopy, reply: DirReply)
    requires
        old(d).stage matches DirStage::File(i) ==> i < job.files.len(),
    ensures
        final(d).stage == dir_after(old(d).stage, reply),
        old(d).stage is Note || old(d).stage is End || reply is Did ==> final(d).failure == old(
            d,
        ).failure,
        !(old(d).stage is Note || old(d).stage is End) ==> match reply {
            DirReply::Did => true,
            DirReply::NotCreated(e) => final(d).failure is Some && failure_is(
                final(d).failure->0,
                "create directory"@,
                job.dst_dir@,
                last_error(e),
            ),
            DirReply::FileFailed(f) => final(d).failure == Some(f),
        },
{
    match d.stage {
        DirStage::Note | DirStage::End => {
            d.stage = DirStage::End;
        },
        DirStage::Create => match reply {
            DirReply::Did => {
                d.stage = DirStage::File(0);
            },
            DirReply::NotCreated(e) => {
                d.failure = Some(io_failure("create directory", job.dst_dir.as_str(), e));
                d.stage = DirStage::Note;
            },
            DirReply::FileFailed(f) => {
                d.failure = Some(f);
                d.stage = DirStage::Note;
            },
        },
        DirStage::File(i) => match reply {
            DirReply::Did => {
                d.stage = DirStage::File(i + 1);
            },
            DirReply::NotCreated(e) => {
                d.failure = Some(io_failure("create directory", job.dst_dir.as_str(), e));
                d.stage = DirStage::Note;
            },
            DirReply::FileFailed(f) => {
                d.failure = Some(f);
                d.stage = DirStage::Note;
            },
        },
    }
}

/// Whatever comes of a directory, it ends only after the new files were made
/// known.
pub proof fn law_files_are_made_known(s: DirStage, files: nat, abort: bool, reply: DirReply)
    requires
        s != DirStage::End,
    ensures
        dir_polled(s, files, abort) != DirStage::End,
        dir_after(s, reply) == DirStage::End <==> s == DirStage::Note,
{
}

/// How many bytes are read at a time, and how many are cloned.
pub const COPY_CHUNK: usize = 65536;

pub const CLONE_CHUNK: usize = 1048576;

/// How the system clones files.
#[derive(Clone, Copy, Debug, PartialEq, Eq, Structural)]
pub enum CloneArm {
    /// Chunk by chunk.
    Chunks,
    /// Each in one call, with the source's own mode.
    Whole,
    /// Not at all.
    Unsupported,
}

/// How a file is made durable.
#[derive(Clone, Copy, Debug, PartialEq, Eq, Structural)]
pub enum SyncArm {
    Plain,
    /// Through the cache of the drive.
    Writethrough,
}

/// Which way a file is made durable: through the drive's cache only where that
/// was asked for and the system can do it.
pub open spec fn sync_arm(knobs: CopyKnobs, can_write_through: bool) -> SyncArm {
    if knobs.writethrough && can_write_through {
        SyncArm::Writethrough
    } else {
        SyncArm::Plain
    }
}

/// Where a worker is with a file.
#[derive(Clone, Copy, Debug, PartialEq, Eq, Structural)]
pub enum FileStage {
    /// The source is yet to be opened.
    Source,
    /// The destination is yet to be created.
    Dest,
    /// Another chunk is to be read, or cloned.
    Chunk,
    /// The chunk of this many bytes is to be written.
    Write(usize),
    /// The whole file is to be cloned.
    Whole,
    /// The copy is to be opened again, to be made durable.
    Reopen,
    /// The copy is to be made durable.
    Sync,
    End,
}

/// What a worker does next with a file.
#[derive(Clone, Copy, Debug, PartialEq, Eq, Structural)]
pub enum FileStep {
    OpenSource,
    /// Create the destination, with this mode; it must not exist.
    CreateDest(u32),
    /// Read at most this many bytes.
    ReadChunk(usize),
    /// Write what was read.
    WriteChunk(usize),
    /// Clone at most this many bytes.
    CloneChunk(usize),
    CloneWhole,
    /// Open the copy.
    OpenDest,
    Fsync(SyncArm),
    /// The file is done, or given up because the batch stops.
    Done,
}

/// What came of a step with a file.
#[derive(Clone, Copy, Debug, PartialEq, Eq, Structural)]
pub enum FileReply {
    /// It was done; to how many bytes, for a chunk.
    Did(usize),
    /// It failed, with this error number where there is one.
    Failed(Option<i32>),
}

/// The stage once all bytes are copied.
pub open spec fn content_copied(knobs: CopyKnobs) -> FileStage {
    if !knobs.fsync {
        FileStage::End
    } else if knobs.clone_files {
        FileStage::Reopen
    } else {
        FileStage::Sync
    }
}

fn after_content(knobs: CopyKnobs) -> (r: FileStage)
    ensures
        r == content_copied(knobs),
{
    if !knobs.fsync {
        FileStage::End
    } else if knobs.clone_files {
        FileStage::Reopen
    } else {
        FileStage::Sync
    }
}

/// A file about to be copied: cloned or read and written, as the knobs say.
/// Where it is cloned in one call, both paths must be such as can be handed to
/// the system.
pub fn begin_file(src: &str, dst: &str, knobs: CopyKnobs, arm: CloneArm) -> (r: Result<
    FileStage,
    CopyFailure,
>)
    ensures
        !knobs.clone_files || arm == CloneArm::Chunks ==> r == Ok::<FileStage, CopyFailure>(
            FileStage::Source,
        ),
        knobs.clone_files && arm == CloneArm::Whole ==> match r {
            Ok(s) => s == FileStage::Whole && encodable(src@) && encodable(dst@),
            Err(f) => if !encodable(src@) {
                failure_is(f, "encode path"@, src@, EINVAL)
            } else {
                !encodable(dst@) && failure_is(f, "encode path"@, dst@, EINVAL)
            },
        },
        knobs.clone_files && arm == CloneArm::Unsupported ==> r is Err && failure_is(
            r->Err_0,
            "clone file"@,
            dst@,
            0,
        ),
{
    if !knobs.clone_files {
        return Ok(FileStage::Source);
    }
    match arm {
        CloneArm::Chunks => Ok(FileStage::Source),
        CloneArm::Whole => {
            if let Some(f) = cstr(src) {
                return Err(f);
            }
            if let Some(f) = cstr(dst) {
                return Err(f);
            }
            Ok(FileStage::Whole)
        },
        CloneArm::Unsupported => Err(io_failure("clone file", dst, None)),
    }
}

/// The stage with the batch looked at: before each chunk the copying is given
/// up if the batch stops. A clone that is given up is still made durable.
pub open spec fn file_polled(s: FileStage, abort: bool, knobs: CopyKnobs) -> FileStage {
    if s == FileStage::Chunk && abort {
        if knobs.clone_files {
            content_copied(knobs)
        } else {
            FileStage::End
        }
    } else {
        s
    }
}

/// The step of a stage.
pub open spec fn file_step(s: FileStage, knobs: CopyKnobs, can_write_through: bool) -> FileStep {
    match s {
        FileStage::Source => FileStep::OpenSource,
        FileStage::Dest => FileStep::CreateDest(knobs.file_mode),
        FileStage::Chunk => if knobs.clone_files {
            FileStep::CloneChunk(CLONE_CHUNK)
        } else {
            FileStep::ReadChunk(COPY_CHUNK)
        },
        FileStage::Write(n) => FileStep::WriteChunk(n),
        FileStage::Whole => FileStep::CloneWhole,
        FileStage::Reopen => FileStep::OpenDest,
        FileStage::Sync => FileStep::Fsync(sync_arm(knobs, can_write_through)),
        FileStage::End => FileStep::Done,
    }
}

/// The next step with a file. The batch is looked at before each chunk.
pub fn copy_one_file(s: &mut FileStage, abort: bool, knobs: CopyKnobs, can_write_through: bool) -> (r:
    FileStep)
    ensures
        *final(s) == file_polled(*old(s), abort, knobs),
        r == file_step(*final(s), knobs, can_write_through),
{
    if *s == FileStage::Chunk && abort {
        *s = if knobs.clone_files {
            after_content(knobs)
        } else {
            FileStage::End
        };
    }
    match *s {
        FileStage::Source => FileStep::OpenSource,
        FileStage::Dest => FileStep::CreateDest(knobs.file_mode),
        FileStage::Chunk => if knobs.clone_files {
            FileStep::CloneChunk(CLONE_CHUNK)
        } else {
            FileStep::ReadChunk(COPY_CHUNK)
        },
        FileStage::Write(n) => FileStep::WriteChunk(n),
        FileStage::Whole => FileStep::CloneWhole,
        FileStage::Reopen => FileStep::OpenDest,
        FileStage::Sync => FileStep::Fsync(
            if knobs.writethrough && can_write_through {
                SyncArm::Writethrough
            } else {
                SyncArm::Plain
            },
        ),
        FileStage::End => FileStep::Done,
    }
}

/// What a worker was at when it failed, and whether that was on the source.
pub open spec fn failed_op(s: FileStage, knobs: CopyKnobs) -> (Seq<char>, bool) {
    match s {
        FileStage::Source => ("open file"@, true),
        FileStage::Dest => ("create file"@, false),
        FileStage::Chunk => if knobs.clone_files {
            ("clone file"@, true)
        } else {
            ("read file"@, true)
        },
        FileStage::Write(_) => ("write to file"@, false),
        FileStage::Whole => ("clone file"@, true),
        FileStage::Reopen => ("open file"@, false),
        _ => ("fsync file"@, false),
    }
}

/// Whether a failed step is repeated: a call that was interrupted, where it
/// cloned a chunk or made a file durable the plain way.
pub open spec fn repeated(s: FileStage, errno: i32, knobs: CopyKnobs, can_write_through: bool) -> bool {
    errno == EINTR && match s {
        FileStage::Chunk => knobs.clone_files,
        FileStage::Sync => sync_arm(knobs, can_write_through) == SyncArm::Plain,
        _ => false,
    }
}

/// The stage after a step that was done.
pub open spec fn file_after(s: FileStage, n: usize, knobs: CopyKnobs) -> FileStage {
    match s {
        FileStage::Source => FileStage::Dest,
        FileStage::Dest => FileStage::Chunk,
        FileStage::Chunk => if n == 0 {
            content_copied(knobs)
        } else if knobs.clone_files {
            FileStage::Chunk
        } else {
            FileStage::Write(n)
        },
        FileStage::Write(_) => FileStage::Chunk,
        FileStage::Whole => content_copied(knobs),
        FileStage::Reopen => FileStage::Sync,
        FileStage::Sync | FileStage::End => FileStage::End,
    }
}

/// After an attempt to clone a chunk: an interrupted one is repeated, and none
/// is left once no byte was cloned.
pub fn clone_file_raw(src: &str, reply: FileReply, knobs: CopyKnobs) -> (r: Result<
    FileStage,
    CopyFailure,
>)
    requires
        knobs.clone_files,
    ensures
        match reply {
            FileReply::Did(n) => r == Ok::<FileStage, CopyFailure>(
                file_after(FileStage::Chunk, n, knobs),
            ),
            FileReply::Failed(e) => if last_error(e) == EINTR {
                r == Ok::<FileStage, CopyFailure>(FileStage::Chunk)
            } else {
                r is Err && failure_is(r->Err_0, "clone file"@, src@, last_error(e))
            },
        },
{
    match reply {
        FileReply::Did(n) => if n == 0 {
            Ok(after_content(knobs))
        } else {
            Ok(FileStage::Chunk)
        },
        FileReply::Failed(e) => if last_errno(e) == EINTR {
            Ok(FileStage::Chunk)
        } else {
            Err(io_failure("clone file", src, e))
        },
    }
}

/// After an attempt to make a file durable: an interrupted one is repeated,
/// but not one through the drive's cache.
pub fn fsync_file_raw(dst: &str, reply: FileReply, arm: SyncArm) -> (r: Result<
    FileStage,
    CopyFailure,
>)
    ensures
        match reply {
            FileReply::Did(_) => r == Ok::<FileStage, CopyFailure>(FileStage::End),
            FileReply::Failed(e) => if last_error(e) == EINTR && arm == SyncArm::Plain {
                r == Ok::<FileStage, CopyFailure>(FileStage::Sync)
            } else {
                r is Err && failure_is(r->Err_0, "fsync file"@, dst@, last_error(e))
            },
        },
{
    match reply {
        FileReply::Did(_) => Ok(FileStage::End),
        FileReply::Failed(e) => if last_errno(e) == EINTR && arm == SyncArm::Plain {
            Ok(FileStage::Sync)
        } else {
            Err(io_failure("fsync file", dst, e))
        },
    }
}

/// Takes what came of a step with a file: where it goes on, or how it failed.
pub fn file_replied(
    src: &str,
    dst: &str,
    s: FileStage,
    reply: FileReply,
    knobs: CopyKnobs,
    can_write_through: bool,
) -> (r: Result<FileStage, CopyFailure>)
    ensures
        s == FileStage::End ==> r == Ok::<FileStage, CopyFailure>(FileStage::End),
        s != FileStage::End ==> match reply {
            FileReply::Did(n) => r == Ok::<FileStage, CopyFailure>(file_after(s, n, knobs)),
            FileReply::Failed(e) => if repeated(s, last_error(e), knobs, can_write_through) {
                r == Ok::<FileStage, CopyFailure>(s)
            } else {
                let (op, on_source) = failed_op(s, knobs);
                r is Err && failure_is(
                    r->Err_0,
                    op,
                    if on_source {
                        src@
                    } else {
                        dst@
                    },
                    last_error(e),
                )
            },
        },
{
    match s {
        FileStage::End => {
            return Ok(FileStage::End);
        },
        FileStage::Chunk => {
            if knobs.clone_files {
                return clone_file_raw(src, reply, knobs);
            }
        },
        FileStage::Sync => {
            let arm: SyncArm = if knobs.writethrough && can_write_through {
                SyncArm::Writethrough
            } else {
                SyncArm::Plain
            };
            return fsync_file_raw(dst, reply, arm);
        },
        _ => {},
    }
    match reply {
        FileReply::Did(n) => Ok(
            match s {
                FileStage::Source => FileStage::Dest,
                FileStage::Dest => FileStage::Chunk,
                FileStage::Chunk => if n == 0 {
                    after_content(knobs)
                } else {
                    FileStage::Write(n)
                },
                FileStage::Write(_) => FileStage::Chunk,
                FileStage::Whole => after_content(knobs),
                FileStage::Reopen => FileStage::Sync,
                FileStage::Sync | FileStage::End => FileStage::End,
            },
        ),
        FileReply::Failed(e) => Err(
            match s {
                FileStage::Source => io_failure("open file", src, e),
                FileStage::Dest => io_failure("create file", dst, e),
                FileStage::Chunk => io_failure("read file", src, e),
                FileStage::Write(_) => io_failure("write to file", dst, e),
                FileStage::Whole => io_failure("clone file", src, e),
                FileStage::Reopen => io_failure("open file", dst, e),
                FileStage::Sync | FileStage::End => io_failure("fsync file", dst, e),
            },
        ),
    }
}

/// Once the batch is to stop, no further chunk is read or cloned.
pub proof fn law_no_chunk_after_abort(s: FileStage, knobs: CopyKnobs, can_write_through: bool)
    ensures
        ({
            let step = file_step(file_polled(s, true, knobs), knobs, can_write_through);
            !(step is ReadChunk) && !(step is CloneChunk)
        }),
{
}

/// A file that was copied whole ends only after it was made durable, where
/// files are made durable at all.
pub proof fn law_copies_are_made_durable(s: FileStage, n: usize, knobs: CopyKnobs)
    requires
        s != FileStage::End,
        knobs.fsync,
    ensures
        file_after(s, n, knobs) == FileStage::End <==> s == FileStage::Sync,
{
}

/// The files of a copy: the source, how much of it was read, and the copy.
pub ghost struct FileWorld {
    pub src: Seq<u8>,
    pub read: nat,
    pub dst: Seq<u8>,
}

/// Whether a step that was done, to `n` bytes, left `w1` of `w`. A chunk holds
/// the next bytes of the source, and none only at its end.
pub open spec fn performed(w: FileWorld, step: FileStep, n: usize, w1: FileWorld) -> bool {
    match step {
        FileStep::OpenSource => w1 == (FileWorld { read: 0, ..w }),
        FileStep::CreateDest(_) => w1 == (FileWorld { dst: Seq::empty(), ..w }),
        FileStep::ReadChunk(max) => {
            &&& n <= max && w.read + n <= w.src.len()
            &&& n == 0 <==> w.read == w.src.len()
            &&& w1 == (FileWorld { read: w.read + n as nat, ..w })
        },
        FileStep::CloneChunk(max) => {
            &&& n <= max && w.read + n <= w.src.len()
            &&& n == 0 <==> w.read == w.src.len()
            &&& w1 == (FileWorld {
                read: w.read + n as nat,
                dst: w.dst + w.src.subrange(w.read as int, w.read + n),
                ..w
            })
        },
        FileStep::WriteChunk(k) => {
            &&& k <= w.read
            &&& w1 == (FileWorld { dst: w.dst + w.src.subrange(w.read - k, w.read as int), ..w })
        },
        FileStep::CloneWhole => w1 == (FileWorld { dst: w.src, ..w }),
        FileStep::OpenDest | FileStep::Fsync(_) | FileStep::Done => w1 == w,
    }
}

/// Whether the copy holds what it should at a stage: so far what was read and
/// written, and in the end the source.
pub open spec fn copied_so_far(w: FileWorld, s: FileStage) -> bool {
    match s {
        FileStage::Source | FileStage::Whole => true,
        FileStage::Dest => w.read == 0,
        FileStage::Chunk => w.read <= w.src.len() && w.dst == w.src.take(w.read as int),
        FileStage::Write(n) => n <= w.read <= w.src.len() && w.dst == w.src.take(w.read - n),
        FileStage::Reopen | FileStage::Sync | FileStage::End => w.dst == w.src,
    }
}

/// A copy that is not given up ends as a copy of the source, byte for byte:
/// every step that is done keeps what the copy should hold.
pub proof fn law_copies_are_faithful(
    w: FileWorld,
    s: FileStage,
    n: usize,
    knobs: CopyKnobs,
    can_write_through: bool,
    w1: FileWorld,
)
    requires
        copied_so_far(w, s),
        performed(w, file_step(file_polled(s, false, knobs), knobs, can_write_through), n, w1),
    ensures
        copied_so_far(w1, file_after(s, n, knobs)),
{
    match s {
        FileStage::Dest => {
            assert(w1.dst =~= w1.src.take(0));
        },
        FileStage::Chunk => {
            if n == 0 {
                assert(w.src.take(w.read as int) =~= w.src);
                assert(w.src.subrange(w.read as int, w.read as int) =~= Seq::empty());
                assert(w1.dst =~= w.src);
            } else if knobs.clone_files {
                assert(w1.dst =~= w.src.take(w.read + n));
            }
        },
        FileStage::Write(k) => {
            assert(w1.dst =~= w.src.take(w.read as int));
        },
        _ => {},
    }
}

/// Unless the batch stops or a file fails, a directory is left only after every
/// file of it was copied.
pub proof fn law_every_file_is_copied(i: usize, files: nat, knobs: CopyKnobs)
    ensures
        ({
            let s = dir_polled(DirStage::File(i), files, false);
            if i < files {
                dir_step(s, knobs) == DirStep::CopyFile(i)
            } else {
                s == DirStage::Note
            }
        }),
{
}

/// Files are cloned exactly where the knobs ask for it, and read and written
/// otherwise.
pub proof fn law_method_is_the_knobs(s: FileStage, abort: bool, knobs: CopyKnobs, can_write_through: bool)
    requires
        knobs.clone_files ==> !(s is Write),
        !knobs.clone_files ==> !(s is Whole),
    ensures
        ({
            let step = file_step(file_polled(s, abort, knobs), knobs, can_write_through);
            &&& knobs.clone_files ==> !(step is ReadChunk) && !(step is WriteChunk)
            &&& !knobs.clone_files ==> !(step is CloneChunk) && !(step is CloneWhole)
        }),
{
}

/// The failure of an operation on a path.
pub fn io_failure(op: &'static str, path: &str, raw_os_error: Option<i32>) -> (f: CopyFailure)
    ensures
        f.op@ == op@,
        f.path@ == path@,
        f.errno == last_error(raw_os_error),
        !f.panic,
{
    CopyFailure { op, path: String::from_str(path), errno: last_errno(raw_os_error), panic: false }
}

/// The error number, or 0 where the system gives none.
pub open spec fn last_error(raw: Option<i32>) -> i32 {
    match raw {
        Some(e) => e,
        None => 0,
    }
}

/// The error number, or 0 where the system gives none.
pub fn last_errno(raw: Option<i32>) -> (r: i32)
    ensures
        r == last_error(raw),
{
    match raw {
        Some(e) => e,
        None => 0,
    }
}

/// Whether a path can be handed to the system: it holds no zero.
pub open spec fn encodable(s: Seq<char>) -> bool {
    forall|i: int| 0 <= i < s.len() ==> s[i] != '\0'
}

/// The failure of a path that cannot be handed to the system; none where it
/// can.
pub fn cstr(s: &str) -> (r: Option<CopyFailure>)
    ensures
        r is None <==> encodable(s@),
        r matches Some(f) ==> f.op@ == "encode path"@ && f.path@ == s@ && f.errno == EINVAL && !f.panic,
{
    let n: usize = s.unicode_len();
    let mut i: usize = 0;
    while i < n
        invariant
            i <= n,
            n == s@.len(),
            forall|k: int| 0 <= k < i ==> s@[k] != '\0',
        decreases n - i,
    {
        if s.get_char(i) == '\0' {
            return Some(
                CopyFailure { op: "encode path", path: String::from_str(s), errno: EINVAL, panic: false },
            );
        }
        i = i + 1;
    }
    None
}

/// What is kept of failures that are parked one after the other.
pub open spec fn kept(before: Option<CopyFailure>, fs: Seq<CopyFailure>) -> Option<CopyFailure>
    decreases fs.len(),
{
    if fs.len() == 0 {
        before
    } else {
        let k = kept(before, fs.drop_last());
        if k is Some {
            k
        } else {
            Some(fs.last())
        }
    }
}

/// However many failures are parked, the first one is reported.
pub proof fn law_first_failure_wins(fs: Seq<CopyFailure>)
    requires
        fs.len() > 0,
    ensures
        kept(None, fs) == Some(fs[0]),
    decreases fs.len(),
{
    reveal_with_fuel(kept, 2);
    if fs.len() > 1 {
        law_first_failure_wins(fs.drop_last());
    }
}

/// Between one thread and one per directory.
pub proof fn law_thread_count_bounds(workers: int, dirs: int)
    requires
        dirs >= 0,
    ensures
        1 <= thread_count(workers, dirs),
        dirs > 0 ==> thread_count(workers, dirs) <= dirs,
        workers > 0 ==> thread_count(workers, dirs) <= workers,
{
}

/// Every regular file of the source directory is copied, under its name.
pub proof fn law_job_covers_regular_files(src: Seq<char>, dst: Seq<char>, entries: Seq<DirEntry>, i: int)
    requires
        0 <= i < entries.len(),
        copied(entries[i]),
    ensures
        job_files(src, dst, entries).contains(
            (path_in(src, entries[i].name@), path_in(dst, entries[i].name@)),
        ),
    decreases entries.len(),
{
    let pair = (path_in(src, entries[i].name@), path_in(dst, entries[i].name@));
    let all = job_files(src, dst, entries);
    let before = job_files(src, dst, entries.drop_last());
    if i == entries.len() - 1 {
        assert(all[all.len() - 1] == pair);
    } else {
        law_job_covers_regular_files(src, dst, entries.drop_last(), i);
        let k = choose|k: int| 0 <= k < before.len() && before[k] == pair;
        assert(all[k] == pair);
    }
}

/// Only regular files of the source directory are copied, each to its own name.
pub proof fn law_job_copies_only_regular_files(
    src: Seq<char>,
    dst: Seq<char>,
    entries: Seq<DirEntry>,
    k: int,
)
    requires
        0 <= k < job_files(src, dst, entries).len(),
    ensures
        exists|i: int|
            0 <= i < entries.len() && copied(#[trigger] entries[i]) && job_files(src, dst, entries)[k]
                == (path_in(src, entries[i].name@), path_in(dst, entries[i].name@)),
    decreases entries.len(),
{
    let before = job_files(src, dst, entries.drop_last());
    if k < before.len() {
        law_job_copies_only_regular_files(src, dst, entries.drop_last(), k);
        let i = choose|i: int|
            0 <= i < entries.drop_last().len() && copied(#[trigger] entries.drop_last()[i]) && before[k]
                == (
                path_in(src, entries.drop_last()[i].name@),
                path_in(dst, entries.drop_last()[i].name@),
            );
        assert(entries[i] == entries.drop_last()[i]);
    } else {
        assert(copied(entries[entries.len() - 1]));
    }
}

} // verus!
