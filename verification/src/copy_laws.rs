//! What holds of a parallel copy, over all files, directories and failures.
use vstd::prelude::*;
use crate::parcopy;
use crate::parcopy::{
    CopyDirJob, CopyFailure, CopyKnobs, DirEntry, DirReply, DirStage, DirStep, FileStage, FileStep,
    SyncArm,
};

verus! {

/// Regular files are copied, all but the two names that every directory has.
pub proof fn law_which_entries_are_copied(e: DirEntry)
    ensures
        !e.is_file ==> !parcopy::copied(e),
        e.is_file && e.name@ =~= seq!['.'] ==> !parcopy::copied(e),
        e.is_file && e.name@ =~= seq!['.', '.'] ==> !parcopy::copied(e),
        e.is_file && e.name@.len() > 2 ==> parcopy::copied(e),
        e.is_file && e.name@.len() > 0 && e.name@[0] != '.' ==> parcopy::copied(e),
        e.is_file && e.name@.len() == 2 && e.name@[1] != '.' ==> parcopy::copied(e),
{
    reveal_strlit(".");
    reveal_strlit("..");
    assert("."@ =~= seq!['.']);
    assert(".."@ =~= seq!['.', '.']);
    assert(".."@[1] == '.');
}

/// The path of a name in a directory: the directory, a slash, the name.
pub proof fn law_path_of_a_name(dir: Seq<char>, name: Seq<char>)
    ensures
        ({
            let p = parcopy::path_in(dir, name);
            &&& p.len() == dir.len() + 1 + name.len()
            &&& p.take(dir.len() as int) =~= dir
            &&& p[dir.len() as int] == '/'
            &&& p.skip(dir.len() as int + 1) =~= name
        }),
{
    reveal_strlit("/");
}

/// A job copies the regular files in the order of the listing, each from the
/// one directory to the other, under its name.
pub proof fn law_files_keep_their_order(
    src: Seq<char>,
    dst: Seq<char>,
    entries: Seq<DirEntry>,
    more: Seq<DirEntry>,
)
    ensures
        parcopy::job_files(src, dst, entries + more) =~= parcopy::job_files(src, dst, entries)
            + parcopy::job_files(src, dst, more),
        parcopy::job_files(src, dst, entries).len() <= entries.len(),
    decreases entries.len() + more.len(),
{
    if more.len() > 0 {
        assert((entries + more).drop_last() =~= entries + more.drop_last());
        law_files_keep_their_order(src, dst, entries, more.drop_last());
    } else {
        assert(entries + more =~= entries);
        if entries.len() > 0 {
            assert(entries.drop_last() + Seq::<DirEntry>::empty() =~= entries.drop_last());
            law_files_keep_their_order(src, dst, entries.drop_last(), Seq::empty());
        }
    }
}

/// One entry: a regular file is one file to copy, anything else is none.
pub proof fn law_one_entry(src: Seq<char>, dst: Seq<char>, e: DirEntry)
    ensures
        ({
            let f = parcopy::job_files(src, dst, seq![e]);
            &&& !e.is_file ==> f.len() == 0
            &&& e.is_file && e.name@.len() > 2 ==> f.len() == 1 && f[0].0.take(src.len() as int)
                =~= src && f[0].1.take(dst.len() as int) =~= dst && f[0].0.skip(src.len() as int + 1)
                =~= e.name@ && f[0].1.skip(dst.len() as int + 1) =~= e.name@
        }),
{
    reveal_with_fuel(parcopy::job_files, 2);
    law_which_entries_are_copied(e);
    law_path_of_a_name(src, e.name@);
    law_path_of_a_name(dst, e.name@);
}

/// As many threads copy as there are workers or directories, whichever is
/// less; one where either is none.
pub proof fn law_number_of_threads(workers: int, dirs: int)
    ensures
        1 <= workers <= dirs ==> parcopy::thread_count(workers, dirs) == workers,
        1 <= dirs <= workers ==> parcopy::thread_count(workers, dirs) == dirs,
        workers < 1 || dirs < 1 ==> parcopy::thread_count(workers, dirs) == 1,
{
}

/// Every file of every directory counts once.
pub proof fn law_every_file_counts(jobs: Seq<CopyDirJob>, more: Seq<CopyDirJob>, j: CopyDirJob)
    ensures
        parcopy::file_count(jobs + more) == parcopy::file_count(jobs) + parcopy::file_count(more),
        parcopy::file_count(seq![j]) == j.files@.len(),
    decreases more.len(),
{
    reveal_with_fuel(parcopy::file_count, 2);
    if more.len() > 0 {
        assert((jobs + more).drop_last() =~= jobs + more.drop_last());
        law_every_file_counts(jobs, more.drop_last(), j);
    } else {
        assert(jobs + more =~= jobs);
    }
    assert(seq![j].drop_last() =~= Seq::<CopyDirJob>::empty());
}

/// A directory is created first, with its mode, whether the batch stops or
/// not. Its files follow from the first on, one after another. A failure, or
/// the end of the batch before a file, leads to making the files known, and
/// that to the end.
pub proof fn law_course_of_a_directory(
    s: DirStage,
    files: nat,
    abort: bool,
    reply: DirReply,
    knobs: CopyKnobs,
    i: usize,
)
    ensures
        parcopy::dir_polled(DirStage::Create, files, abort) == DirStage::Create,
        parcopy::dir_step(DirStage::Create, knobs) == DirStep::CreateDir(knobs.dir_mode),
        parcopy::dir_after(DirStage::Create, DirReply::Did) == DirStage::File(0),
        i < usize::MAX ==> parcopy::dir_after(DirStage::File(i), DirReply::Did) == DirStage::File(
            (i + 1) as usize,
        ),
        parcopy::dir_polled(DirStage::File(i), files, abort) == DirStage::Note <==> abort || i
            >= files,
        !abort && i < files ==> parcopy::dir_polled(DirStage::File(i), files, abort)
            == DirStage::File(i),
        parcopy::dir_step(DirStage::File(i), knobs) == DirStep::CopyFile(i),
        !(reply is Did) ==> parcopy::dir_after(DirStage::File(i), reply) == DirStage::Note,
        !(reply is Did) ==> parcopy::dir_after(DirStage::Create, reply) == DirStage::Note,
        parcopy::dir_step(DirStage::Note, knobs) == DirStep::NoteFilesCreated,
        parcopy::dir_after(DirStage::Note, reply) == DirStage::End,
        parcopy::dir_step(DirStage::End, knobs) == DirStep::Done,
        parcopy::dir_polled(DirStage::Note, files, abort) == DirStage::Note,
        parcopy::dir_polled(DirStage::End, files, abort) == DirStage::End,
{
}

/// A file's source is opened first and its copy created next, with its mode.
/// Then comes chunk after chunk: 1 MiB at a time where it is cloned, else 64
/// KiB that are written as they were read.
pub proof fn law_course_of_a_file(knobs: CopyKnobs, through: bool, n: usize)
    ensures
        parcopy::file_step(FileStage::Source, knobs, through) == FileStep::OpenSource,
        parcopy::file_after(FileStage::Source, n, knobs) == FileStage::Dest,
        parcopy::file_step(FileStage::Dest, knobs, through) == FileStep::CreateDest(
            knobs.file_mode,
        ),
        parcopy::file_after(FileStage::Dest, n, knobs) == FileStage::Chunk,
        parcopy::file_step(FileStage::Chunk, knobs, through) == if knobs.clone_files {
            FileStep::CloneChunk(1048576)
        } else {
            FileStep::ReadChunk(65536)
        },
        n > 0 && !knobs.clone_files ==> parcopy::file_step(
            parcopy::file_after(FileStage::Chunk, n, knobs),
            knobs,
            through,
        ) == FileStep::WriteChunk(n),
        n > 0 && knobs.clone_files ==> parcopy::file_after(FileStage::Chunk, n, knobs)
            == FileStage::Chunk,
        parcopy::file_after(FileStage::Write(n), n, knobs) == FileStage::Chunk,
        parcopy::file_step(FileStage::Whole, knobs, through) == FileStep::CloneWhole,
{
}

/// A file whose last byte was copied is done, or made durable: a clone is
/// opened again for that. It goes through the drive's cache where that was
/// asked for and is possible.
pub proof fn law_end_of_a_file(knobs: CopyKnobs, through: bool, n: usize)
    ensures
        ({
            let e = parcopy::file_after(FileStage::Chunk, 0, knobs);
            &&& parcopy::file_after(FileStage::Whole, n, knobs) == e
            &&& !knobs.fsync ==> parcopy::file_step(e, knobs, through) == FileStep::Done
            &&& knobs.fsync && knobs.clone_files ==> parcopy::file_step(e, knobs, through)
                == FileStep::OpenDest && parcopy::file_step(
                parcopy::file_after(e, n, knobs),
                knobs,
                through,
            ) is Fsync
            &&& knobs.fsync && !knobs.clone_files ==> parcopy::file_step(e, knobs, through) is Fsync
        }),
        parcopy::file_step(FileStage::Sync, knobs, through) == FileStep::Fsync(
            if knobs.writethrough && through {
                SyncArm::Writethrough
            } else {
                SyncArm::Plain
            },
        ),
        parcopy::file_after(FileStage::Sync, n, knobs) == FileStage::End,
        parcopy::file_step(FileStage::End, knobs, through) == FileStep::Done,
{
}

/// A batch that stops leaves a file only between chunks: one that is read and
/// written ends there, a clone goes on to what follows its last byte.
pub proof fn law_where_a_file_is_given_up(s: FileStage, abort: bool, knobs: CopyKnobs)
    ensures
        !abort || s != FileStage::Chunk ==> parcopy::file_polled(s, abort, knobs) == s,
        !knobs.clone_files ==> parcopy::file_polled(FileStage::Chunk, true, knobs)
            == FileStage::End,
        knobs.clone_files ==> parcopy::file_polled(FileStage::Chunk, true, knobs)
            == parcopy::file_after(FileStage::Chunk, 0, knobs),
{
}

/// Only an interrupted call (error 4) is made again: one that clones a chunk,
/// or makes a file durable the plain way.
pub proof fn law_what_is_tried_again(s: FileStage, errno: i32, knobs: CopyKnobs, through: bool)
    ensures
        errno != 4 ==> !parcopy::repeated(s, errno, knobs, through),
        parcopy::repeated(FileStage::Chunk, 4, knobs, through) <==> knobs.clone_files,
        parcopy::repeated(FileStage::Sync, 4, knobs, through) <==> !(knobs.writethrough && through),
        !(s is Chunk) && !(s is Sync) ==> !parcopy::repeated(s, errno, knobs, through),
{
}

/// A failure names the file that it is about: the source where that is opened,
/// read or cloned, else the copy.
pub proof fn law_failure_names_its_file(s: FileStage, knobs: CopyKnobs, n: usize)
    ensures
        parcopy::failed_op(s, knobs).1 <==> s is Source || s is Chunk || s is Whole,
        parcopy::failed_op(FileStage::Source, knobs).0 == "open file"@,
        parcopy::failed_op(FileStage::Reopen, knobs).0 == "open file"@,
        parcopy::failed_op(FileStage::Dest, knobs).0 == "create file"@,
        parcopy::failed_op(FileStage::Write(n), knobs).0 == "write to file"@,
        parcopy::failed_op(FileStage::Sync, knobs).0 == "fsync file"@,
        parcopy::failed_op(FileStage::Whole, knobs).0 == "clone file"@,
        parcopy::failed_op(FileStage::Chunk, knobs).0 == if knobs.clone_files {
            "clone file"@
        } else {
            "read file"@
        },
{
}

/// A failure's text holds what was done and the path, as they are; a panic's
/// text is the same for all.
pub proof fn law_text_of_a_failure(f: CopyFailure, g: CopyFailure)
    ensures
        ({
            let t = parcopy::failure_text(f);
            let n = f.op@.len() as int;
            &&& !f.panic ==> {
                &&& t.len() == 17 + n + f.path@.len()
                &&& t.subrange(10, 10 + n) =~= f.op@
                &&& t.subrange(12 + n, 12 + n + f.path@.len()) =~= f.path@
                &&& t[11 + n] == '"' && t[12 + n + f.path@.len()] == '"'
                &&& t.last() == 'm' && t[t.len() - 2] == '%'
            }
            &&& f.panic && g.panic ==> t == parcopy::failure_text(g)
        }),
{
    reveal_strlit("could not ");
    reveal_strlit(" \"");
    reveal_strlit("\": %m");
}

/// All directories are made durable, in their order, or none is.
pub proof fn law_directories_are_made_durable(dirs: Seq<Seq<char>>, knobs: CopyKnobs)
    ensures
        knobs.fsync ==> parcopy::dirs_to_sync(dirs, knobs) == dirs,
        !knobs.fsync ==> parcopy::dirs_to_sync(dirs, knobs).len() == 0,
{
}

/// An error number that is missing counts as 0, and a path with a zero in it
/// cannot be handed to the system.
pub proof fn law_errors_and_paths(e: i32, a: Seq<char>, b: Seq<char>)
    ensures
        parcopy::last_error(Some(e)) == e,
        parcopy::last_error(None) == 0,
        !parcopy::encodable(a.push('\0') + b),
        parcopy::encodable(a + b) <==> parcopy::encodable(a) && parcopy::encodable(b),
        parcopy::encodable(Seq::empty()),
{
    assert((a.push('\0') + b)[a.len() as int] == '\0');
    if parcopy::encodable(a + b) {
        assert forall|i: int| 0 <= i < a.len() implies a[i] != '\0' by {
            assert((a + b)[i] == a[i]);
        }
        assert forall|i: int| 0 <= i < b.len() implies b[i] != '\0' by {
            assert((a + b)[a.len() + i] == b[i]);
        }
    }
}

} // verus!
