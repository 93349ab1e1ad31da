use std::collections::BTreeMap;

use pgrust::parcopy::{
    begin_copy, begin_dir, begin_file, clone_file_raw, copy_dirs_parallel, copy_one_dir,
    copy_one_file, copy_threads, cstr, dir_replied, enumerate_dir_job, file_replied,
    failure_sqlstate, fsync_file_raw, interrupt_copy, io_failure, last_errno, list_failure,
    park_failure, render_failure, snapshot_knobs, worker_loop, worker_panicked, CloneArm, CopyBatch, CopyDirJob, CopyEnd,
    CopyFailure, CopyKnobs, DirEntry, DirReply, DirStage, DirStep, FileReply, FileStage, FileStep,
    ListStage, SyncArm, COPY_CHUNK, EINTR, EINVAL, FILE_COPY_METHOD_CLONE,
};

fn entry(name: &str, is_file: bool) -> DirEntry {
    DirEntry { name: String::from(name), is_file }
}

fn job() -> CopyDirJob {
    enumerate_dir_job(
        "/data/base/1",
        "/data/base/5",
        &vec![entry("1259", true), entry("pgsql_tmp", false), entry("2619", true)],
    )
}

#[test]
fn jobs_hold_the_regular_files() {
    let j = job();
    assert_eq!(j.dst_dir, "/data/base/5");
    assert_eq!(
        j.files,
        vec![
            (String::from("/data/base/1/1259"), String::from("/data/base/5/1259")),
            (String::from("/data/base/1/2619"), String::from("/data/base/5/2619")),
        ]
    );
}

#[test]
fn threads_are_bounded_by_work() {
    assert_eq!(copy_threads(8, 3), 3);
    assert_eq!(copy_threads(2, 3), 2);
    assert_eq!(copy_threads(0, 3), 1);
}

#[test]
fn a_batch_hands_out_every_job_once() {
    let (mut b, stats) = begin_copy(vec![job(), job()], 4);
    assert_eq!((stats.dirs, stats.files, stats.threads), (2, 4, 2));
    assert!(worker_loop(&mut b).is_some());
    assert!(worker_loop(&mut b).is_some());
    assert!(worker_loop(&mut b).is_none());
    match copy_dirs_parallel(&b, knobs(), false, stats, 10, 20) {
        CopyEnd::Copied { stats: s, sync_dirs } => {
            assert_eq!((s.files, s.wall_ns, s.busy_ns), (4, 10, 20));
            assert!(sync_dirs.is_empty());
        }
        _ => panic!("the copy ended well"),
    }
}

#[test]
fn the_first_failure_wins_and_stops_the_rest() {
    let (mut b, stats) = begin_copy(vec![job(), job()], 2);
    park_failure(&mut b, io_failure("open", "/data/base/1/1259", Some(2)));
    park_failure(&mut b, io_failure("write", "/data/base/5/2619", Some(28)));
    assert!(b.abort);
    assert!(worker_loop(&mut b).is_none());
    match copy_dirs_parallel(&b, knobs(), false, stats, 0, 0) {
        CopyEnd::Failed { message, errno } => {
            assert!(message.contains("/data/base/1/1259"), "{message}");
            assert_eq!(errno, Some(2));
        }
        _ => panic!("the copy failed"),
    }
}

#[test]
fn interrupts_stop_the_copy() {
    let (mut b, stats) = begin_copy(vec![job()], 1);
    interrupt_copy(&mut b);
    assert!(b.abort && worker_loop(&mut b).is_none());
    assert!(matches!(copy_dirs_parallel(&b, knobs(), true, stats, 0, 0), CopyEnd::Interrupted));
}

#[test]
fn directories_are_copied_file_by_file() {
    let (j, k) = (job(), snapshot_knobs(0, true, false, 0o600, 0o750));
    let mut d = begin_dir(&j);
    assert_eq!(copy_one_dir(&j, &mut d, false, k), DirStep::CreateDir(0o750));
    dir_replied(&j, &mut d, DirReply::Did);
    assert_eq!(copy_one_dir(&j, &mut d, false, k), DirStep::CopyFile(0));
    dir_replied(&j, &mut d, DirReply::Did);
    assert_eq!(copy_one_dir(&j, &mut d, false, k), DirStep::CopyFile(1));
    dir_replied(&j, &mut d, DirReply::Did);
    assert_eq!(copy_one_dir(&j, &mut d, false, k), DirStep::NoteFilesCreated);
    dir_replied(&j, &mut d, DirReply::Did);
    assert_eq!(copy_one_dir(&j, &mut d, false, k), DirStep::Done);
    assert!(d.failure.is_none());
}

#[test]
fn a_failed_file_ends_the_directory() {
    let j = job();
    let mut d = begin_dir(&j);
    dir_replied(&j, &mut d, DirReply::Did);
    dir_replied(&j, &mut d, DirReply::FileFailed(io_failure("read file", "/x", Some(5))));
    assert_eq!(d.stage, DirStage::Note);
    assert_eq!(copy_one_dir(&j, &mut d, false, knobs()), DirStep::NoteFilesCreated);
    dir_replied(&j, &mut d, DirReply::Did);
    assert_eq!(copy_one_dir(&j, &mut d, false, knobs()), DirStep::Done);
    assert_eq!(d.failure.map(|f| (f.op, f.errno)), Some(("read file", 5)));
    let bad = enumerate_dir_job("/a", "/b\0", &vec![]);
    let d = begin_dir(&bad);
    assert_eq!(d.stage, DirStage::Note);
    assert_eq!(d.failure.map(|f| (f.op, f.errno)), Some(("encode path", EINVAL)));
}

#[test]
fn directories_are_made_durable_last() {
    let (mut b, stats) = begin_copy(vec![job(), job()], 4);
    while worker_loop(&mut b).is_some() {}
    let k = snapshot_knobs(0, true, false, 0o600, 0o700);
    match copy_dirs_parallel(&b, k, false, stats, 0, 0) {
        CopyEnd::Copied { sync_dirs, .. } => {
            assert_eq!(sync_dirs, vec!["/data/base/5", "/data/base/5"]);
        }
        _ => panic!("the copy ended well"),
    }
}

#[test]
fn the_method_is_the_knobs() {
    let buffered = snapshot_knobs(0, true, false, 0o600, 0o700);
    assert!(!buffered.clone_files && buffered.fsync);
    let cloned = snapshot_knobs(FILE_COPY_METHOD_CLONE, true, false, 0o600, 0o700);
    assert!(cloned.clone_files);
    let step = |s: FileStage, k| copy_one_file(&mut s.clone(), false, k, false);
    assert_eq!(step(FileStage::Chunk, buffered), FileStep::ReadChunk(64 * 1024));
    assert_eq!(step(FileStage::Chunk, cloned), FileStep::CloneChunk(1024 * 1024));
    assert_eq!(step(FileStage::Dest, cloned), FileStep::CreateDest(0o600));
    let begin = |k, arm| begin_file("/a", "/b", k, arm).map_err(|f| (f.op, f.path, f.errno));
    assert_eq!(begin(buffered, CloneArm::Unsupported), Ok(FileStage::Source));
    assert_eq!(begin(cloned, CloneArm::Chunks), Ok(FileStage::Source));
    assert_eq!(begin(cloned, CloneArm::Whole), Ok(FileStage::Whole));
    let refused = ("clone file", String::from("/b"), 0);
    assert_eq!(begin(cloned, CloneArm::Unsupported), Err(refused));
}

#[test]
fn an_abandoned_clone_is_still_made_durable() {
    let cloned = snapshot_knobs(FILE_COPY_METHOD_CLONE, true, false, 0o600, 0o700);
    let mut s = FileStage::Chunk;
    assert_eq!(copy_one_file(&mut s, true, cloned, false), FileStep::OpenDest);
    s = done(s, 0, cloned);
    assert_eq!(copy_one_file(&mut s, true, cloned, false), FileStep::Fsync(SyncArm::Plain));
    let mut s = FileStage::Chunk;
    let buffered = snapshot_knobs(0, true, false, 0o600, 0o700);
    assert_eq!(copy_one_file(&mut s, true, buffered, false), FileStep::Done);
}

#[test]
fn copies_are_made_durable_as_asked() {
    let plain = snapshot_knobs(0, true, false, 0o600, 0o700);
    let through = snapshot_knobs(0, true, true, 0o600, 0o700);
    let arm = |k, can| copy_one_file(&mut FileStage::Sync, false, k, can);
    assert_eq!(arm(plain, true), FileStep::Fsync(SyncArm::Plain));
    assert_eq!(arm(through, false), FileStep::Fsync(SyncArm::Plain));
    assert_eq!(arm(through, true), FileStep::Fsync(SyncArm::Writethrough));
    let tell = |r: Result<FileStage, CopyFailure>| r.map_err(|f| (f.op, f.path, f.errno));
    let eintr = FileReply::Failed(Some(EINTR));
    let failed = Err(("fsync file", String::from("/b"), EINTR));
    assert_eq!(tell(fsync_file_raw("/b", eintr, SyncArm::Plain)), Ok(FileStage::Sync));
    assert_eq!(tell(fsync_file_raw("/b", eintr, SyncArm::Writethrough)), failed);
    assert_eq!(tell(fsync_file_raw("/b", FileReply::Did(0), SyncArm::Plain)), Ok(FileStage::End));
    assert_eq!(done(FileStage::Chunk, 0, plain), FileStage::Sync);
    assert_eq!(done(FileStage::Chunk, 0, knobs()), FileStage::End);
}

#[test]
fn interrupted_clones_are_repeated() {
    let k = snapshot_knobs(FILE_COPY_METHOD_CLONE, true, false, 0o600, 0o700);
    let tell = |r: Result<FileStage, CopyFailure>| r.map_err(|f| (f.op, f.path, f.errno));
    let again = clone_file_raw("/a", FileReply::Failed(Some(EINTR)), k);
    assert_eq!(tell(again), Ok(FileStage::Chunk));
    let failed = clone_file_raw("/a", FileReply::Failed(Some(5)), k);
    assert_eq!(tell(failed), Err(("clone file", String::from("/a"), 5)));
    assert_eq!(tell(clone_file_raw("/a", FileReply::Did(9), k)), Ok(FileStage::Chunk));
    assert_eq!(tell(clone_file_raw("/a", FileReply::Did(0), k)), Ok(FileStage::Reopen));
}

#[test]
fn every_file_step_names_its_failure() {
    let whose = |s, k| {
        let r = file_replied("/a", "/b", s, FileReply::Failed(Some(5)), k, true);
        r.map_err(|f| (f.op, f.path)).unwrap_err()
    };
    let named = |op, path: &str| (op, String::from(path));
    assert_eq!(whose(FileStage::Source, knobs()), named("open file", "/a"));
    assert_eq!(whose(FileStage::Dest, knobs()), named("create file", "/b"));
    assert_eq!(whose(FileStage::Chunk, knobs()), named("read file", "/a"));
    assert_eq!(whose(FileStage::Write(3), knobs()), named("write to file", "/b"));
    assert_eq!(whose(FileStage::Whole, knobs()), named("clone file", "/a"));
    assert_eq!(whose(FileStage::Reopen, knobs()), named("open file", "/b"));
    assert_eq!(whose(FileStage::Sync, knobs()), named("fsync file", "/b"));
}

fn done(s: FileStage, n: usize, k: CopyKnobs) -> FileStage {
    match file_replied("/a", "/b", s, FileReply::Did(n), k, false) {
        Ok(s) => s,
        Err(_) => panic!("a step that was done does not fail"),
    }
}

fn knobs() -> CopyKnobs {
    CopyKnobs {
        clone_files: false,
        fsync: false,
        writethrough: false,
        file_mode: 0o600,
        dir_mode: 0o700,
    }
}

/// A file system in memory: contents and mode of each file, and the
/// directories.
struct Disk {
    files: BTreeMap<String, (Vec<u8>, u32)>,
    dirs: Vec<String>,
}

const EEXIST: i32 = 17;

impl Disk {
    fn new() -> Disk {
        Disk { files: BTreeMap::new(), dirs: Vec::new() }
    }

    fn mkfile(&mut self, path: &str, contents: &[u8]) {
        self.files.insert(String::from(path), (contents.to_vec(), 0o644));
    }

    fn list(&self, dir: &str) -> Vec<DirEntry> {
        let prefix = format!("{dir}/");
        self.files
            .keys()
            .filter_map(|f| f.strip_prefix(prefix.as_str()))
            .map(|name| entry(name, true))
            .collect()
    }

    fn copy_file(&mut self, src: &str, dst: &str, abort: bool, k: CopyKnobs) -> Result<(), CopyFailure> {
        let mut stage = begin_file(src, dst, k, CloneArm::Chunks)?;
        let mut pos = 0;
        let mut buf = Vec::new();
        loop {
            let reply = match copy_one_file(&mut stage, abort, k, false) {
                FileStep::OpenSource => match self.files.contains_key(src) {
                    true => FileReply::Did(0),
                    false => FileReply::Failed(Some(2)),
                },
                FileStep::CreateDest(mode) => match self.files.contains_key(dst) {
                    true => FileReply::Failed(Some(EEXIST)),
                    false => {
                        self.files.insert(String::from(dst), (Vec::new(), mode));
                        FileReply::Did(0)
                    }
                },
                FileStep::ReadChunk(n) => {
                    let from = &self.files[src].0[pos..];
                    buf = from[..n.min(from.len())].to_vec();
                    pos += buf.len();
                    FileReply::Did(buf.len())
                }
                FileStep::WriteChunk(n) => {
                    let to = self.files.get_mut(dst).expect("it was created");
                    to.0.extend_from_slice(&buf[..n]);
                    FileReply::Did(n)
                }
                FileStep::Done => return Ok(()),
                other => panic!("nothing is cloned or made durable here: {other:?}"),
            };
            stage = file_replied(src, dst, stage, reply, k, false)?;
        }
    }

    fn copy_dir(&mut self, job: &CopyDirJob, abort: bool, k: CopyKnobs) -> Result<(), CopyFailure> {
        let mut d = begin_dir(job);
        loop {
            let reply = match copy_one_dir(job, &mut d, abort, k) {
                DirStep::CreateDir(_) => match self.dirs.contains(&job.dst_dir) {
                    true => DirReply::NotCreated(Some(EEXIST)),
                    false => {
                        self.dirs.push(job.dst_dir.clone());
                        DirReply::Did
                    }
                },
                DirStep::CopyFile(i) => {
                    let (src, dst) = &job.files[i];
                    match self.copy_file(src, dst, abort, k) {
                        Ok(()) => DirReply::Did,
                        Err(f) => DirReply::FileFailed(f),
                    }
                }
                DirStep::NoteFilesCreated => DirReply::Did,
                DirStep::Done => return d.failure.map_or(Ok(()), Err),
            };
            dir_replied(job, &mut d, reply);
        }
    }

    fn copy_dirs(&mut self, jobs: Vec<CopyDirJob>, workers: usize, k: CopyKnobs) -> CopyEnd {
        let (mut b, stats) = begin_copy(jobs, workers);
        while let Some(job) = worker_loop(&mut b) {
            if let Err(f) = self.copy_dir(&job, b.abort, k) {
                park_failure(&mut b, f);
            }
        }
        copy_dirs_parallel(&b, k, false, stats, 0, 0)
    }
}

#[test]
fn parallel_copy_moves_all_files() {
    let mut disk = Disk::new();
    let mut jobs = Vec::new();
    for j in 0..5 {
        for f in 0..4 {
            disk.mkfile(&format!("src{j}/f{f}"), format!("j{j}f{f}").as_bytes());
        }
        let entries = disk.list(&format!("src{j}"));
        jobs.push(enumerate_dir_job(&format!("src{j}"), &format!("dst{j}"), &entries));
    }
    match disk.copy_dirs(jobs, 3, knobs()) {
        CopyEnd::Copied { stats, .. } => {
            assert_eq!((stats.dirs, stats.files, stats.threads), (5, 20, 3));
        }
        _ => panic!("the copy ended well"),
    }
    for j in 0..5 {
        for f in 0..4 {
            let got = disk.files[&format!("dst{j}/f{f}")].0.clone();
            assert_eq!(got, format!("j{j}f{f}").into_bytes());
        }
    }
}

#[test]
fn worker_failure_aborts_and_surfaces() {
    let mut disk = Disk::new();
    disk.mkfile("src/f0", b"x");
    disk.dirs.push(String::from("dst_taken"));
    let job = enumerate_dir_job("src", "dst_taken", &disk.list("src"));
    match disk.copy_dirs(vec![job], 2, knobs()) {
        CopyEnd::Failed { message, errno } => {
            assert!(
                message.contains("create directory") && message.contains("dst_taken"),
                "error names the op and path: {message}"
            );
            assert_eq!(errno, Some(EEXIST));
        }
        _ => panic!("the copy failed"),
    }
}

#[test]
fn dst_files_carry_snapshotted_mode() {
    let mut disk = Disk::new();
    disk.mkfile("src/f0", b"x");
    let job = enumerate_dir_job("src", "dst", &disk.list("src"));
    let mut k = knobs();
    k.file_mode = 0o400;
    assert!(matches!(disk.copy_dirs(vec![job], 1, k), CopyEnd::Copied { .. }));
    let mode = disk.files["dst/f0"].1 & 0o777;
    assert_eq!(mode, 0o400, "dst mode is knobs.file_mode, not a hardcoded 0600");
}

#[test]
fn abort_flag_stops_mid_file() {
    let mut disk = Disk::new();
    disk.mkfile("src/f0", &vec![7u8; 3 * 64 * 1024]);
    assert!(disk.copy_file("src/f0", "f0.out", true, knobs()).is_ok());
    assert_eq!(
        disk.files["f0.out"].0.len(),
        0,
        "no chunk may be copied after the abort flag is up"
    );
    assert!(disk.copy_file("src/f0", "f1.out", false, knobs()).is_ok());
    assert_eq!(disk.files["f1.out"].0.len(), 3 * COPY_CHUNK);
}

#[test]
fn abort_flag_stops_copying_between_files() {
    let mut disk = Disk::new();
    for f in 0..8 {
        disk.mkfile(&format!("src/f{f}"), b"payload");
    }
    let job = enumerate_dir_job("src", "dst", &disk.list("src"));
    assert!(disk.copy_dir(&job, true, knobs()).is_ok());
    assert!(disk.dirs.contains(&String::from("dst")), "mkdir precedes the abort check");
    assert_eq!(
        disk.list("dst").len(),
        0,
        "no file may be copied after the abort flag is up"
    );

    let mut b = CopyBatch { queue: Vec::new(), abort: false, failure: None, dirs: Vec::new() };
    let failure = |op, path: &str, errno| CopyFailure {
        op,
        path: String::from(path),
        errno,
        panic: false,
    };
    park_failure(&mut b, failure("one", "p1", 1));
    park_failure(&mut b, failure("two", "p2", 2));
    assert!(b.abort);
    let kept = b.failure.unwrap();
    assert_eq!((kept.op, kept.errno), ("one", 1), "first failure wins");
}

#[test]
fn listings_say_what_failed() {
    let say = |at, path: &str| render_failure(&list_failure(at, path, Some(2)));
    assert_eq!(say(ListStage::Open, "/a"), "could not open directory \"/a\": %m");
    assert_eq!(say(ListStage::Read, "/a"), "could not read directory \"/a\": %m");
    assert_eq!(say(ListStage::Stat, "/a/b"), "could not stat file \"/a/b\": %m");
    assert_eq!(failure_sqlstate(&worker_panicked()), Some("XX000"));
    assert_eq!(failure_sqlstate(&list_failure(ListStage::Open, "/a", None)), None);
}

#[test]
fn failures_say_what_failed() {
    let f = io_failure("open", "/x", Some(13));
    assert_eq!((f.op, f.errno, f.panic), ("open", 13, false));
    assert!(render_failure(&f).contains("/x"));
    assert!(worker_panicked().panic);
    assert_eq!(last_errno(None), last_errno(None));
    assert!(cstr("plain").is_none());
    let nul = cstr("a\0b").expect("a NUL cannot be in a path");
    assert_eq!(nul.errno, EINVAL);
}
