//! File names, timestamps and the steps of writing files
//!
//! The functions in this module decide; reading and writing is up to the caller.

use crate::paths;
use vstd::prelude::*;

verus! {

/// A point in time, in nanoseconds since the Unix epoch
pub type Timestamp = i128;

/// A file metadata version number
///
/// Deserialized metadata with non-current version number are considered invalid
#[derive(Debug, Clone, Copy, PartialEq, Eq, Structural)]
pub struct FileMetaVersion(pub u32);

/// Metadata stored with generated files to track required incremental updates
#[derive(Debug, Clone, Copy, PartialEq, Eq, Structural)]
pub struct FileMeta {
    /// Version of data described by the FileMeta
    pub version: FileMetaVersion,
    /// Timestamp stored with generated data
    ///
    /// This timestamp is always the time of last modification of the inputs
    /// that were used to generate the file described by the FileMeta.
    pub timestamp: Timestamp,
}

/// Derives the filename for temporary storage of data during generation
pub fn tmpfile_name(path: &str) -> (r: String)
    ensures
        r@ == paths::with_suffix(path@, ".tmp"@),
{
    paths::suffix_name(path, ".tmp")
}

/// Derives the filename for associated metadata for generated files
pub fn metafile_name(path: &str) -> (r: String)
    ensures
        r@ == paths::with_suffix(path@, ".meta"@),
{
    paths::suffix_name(path, ".meta")
}

/// The temporary file and the metadata file of a file are other files of the same
/// directory
pub proof fn companion_files(path: Seq<char>)
    requires
        paths::file_name(path) is Some,
    ensures
        paths::parent(paths::with_suffix(path, ".tmp"@)) == paths::parent(path),
        paths::parent(paths::with_suffix(path, ".meta"@)) == paths::parent(path),
        paths::file_name(paths::with_suffix(path, ".tmp"@)) != paths::file_name(path),
        paths::file_name(paths::with_suffix(path, ".meta"@)) != paths::file_name(path),
        paths::with_suffix(path, ".tmp"@) != paths::with_suffix(path, ".meta"@),
{
    reveal_strlit(".tmp");
    reveal_strlit(".meta");
    paths::suffix_keeps_directory(path, ".tmp"@);
    paths::suffix_keeps_directory(path, ".meta"@);
    let name = paths::file_name(path)->0;
    assert((name + ".tmp"@).len() == name.len() + 4);
    assert((name + ".meta"@).len() == name.len() + 5);
}

/// What to do next in a comparison of two files
#[derive(Debug, Clone, Copy, PartialEq, Eq, Structural)]
pub enum EqualStep {
    /// Read the next block of both files
    ReadBlock,
    /// The files have been compared
    Done(bool),
}

/// Compares the sizes of two files, as a cheap shortcut
pub fn compare_sizes(len1: u64, len2: u64) -> (r: EqualStep)
    ensures
        r == (if len1 != len2 {
            EqualStep::Done(false)
        } else {
            EqualStep::ReadBlock
        }),
{
    if len1 != len2 {
        EqualStep::Done(false)
    } else {
        EqualStep::ReadBlock
    }
}

/// What to do after a block of both files has been read
pub open spec fn block_step(block1: Seq<u8>, block2: Seq<u8>) -> EqualStep {
    if block1.len() == 0 {
        EqualStep::Done(true)
    } else if block1 != block2 {
        EqualStep::Done(false)
    } else {
        EqualStep::ReadBlock
    }
}

/// Compares a block of the first file with the bytes of the second file at the same place
///
/// An empty block stands for the end of the first file. As the sizes are equal, both files
/// end together.
pub fn compare_blocks(block1: &[u8], block2: &[u8]) -> (r: EqualStep)
    ensures
        r == block_step(block1@, block2@),
{
    if block1.len() == 0 {
        return EqualStep::Done(true);
    }
    if block1.len() != block2.len() {
        return EqualStep::Done(false);
    }
    let mut i: usize = 0;
    while i < block1.len()
        invariant
            i <= block1.len(),
            block1.len() == block2.len(),
            block1.len() > 0,
            forall|j: int| 0 <= j < i ==> block1@[j] == block2@[j],
        decreases block1.len() - i,
    {
        if block1[i] != block2[i] {
            assert(block1@[i as int] != block2@[i as int]);
            return EqualStep::Done(false);
        }
        i = i + 1;
    }
    assert(block1@ =~= block2@);
    EqualStep::ReadBlock
}

/// The result of comparing two files whose contents are read in the given blocks
pub open spec fn blocks_equal(blocks: Seq<(Seq<u8>, Seq<u8>)>) -> bool
    decreases blocks.len(),
{
    if blocks.len() == 0 {
        true
    } else {
        match block_step(blocks[0].0, blocks[0].1) {
            EqualStep::Done(equal) => equal,
            EqualStep::ReadBlock => blocks_equal(blocks.skip(1)),
        }
    }
}

/// The contents of a file that is read in blocks
pub open spec fn contents(blocks: Seq<Seq<u8>>) -> Seq<u8>
    decreases blocks.len(),
{
    if blocks.len() == 0 {
        Seq::empty()
    } else {
        blocks[0] + contents(blocks.skip(1))
    }
}

/// Comparing two files of the same size block by block tells whether their contents are
/// equal
pub proof fn blocks_compare_contents(first: Seq<Seq<u8>>, second: Seq<Seq<u8>>)
    requires
        first.len() == second.len(),
        forall|i: int|
            0 <= i < first.len() ==> (#[trigger] first[i]).len() == second[i].len()
                && first[i].len() > 0,
    ensures
        blocks_equal(first.zip_with(second)) == (contents(first) == contents(second)),
    decreases first.len(),
{
    let blocks = first.zip_with(second);
    if first.len() > 0 {
        assert(blocks[0] == (first[0], second[0]));
        assert(blocks.skip(1) =~= first.skip(1).zip_with(second.skip(1)));
        blocks_compare_contents(first.skip(1), second.skip(1));
        let a = contents(first);
        let b = contents(second);
        let n = first[0].len() as int;
        assert(a.take(n) =~= first[0] && b.take(n) =~= second[0]);
        assert(a.skip(n) =~= contents(first.skip(1)) && b.skip(n) =~= contents(second.skip(1)));
    }
}

/// What to do next when a file is created by way of a temporary file
#[derive(Debug, Clone, Copy, PartialEq, Eq, Structural)]
pub enum TmpfileStep {
    /// Write the contents to the temporary file
    Write,
    /// Compare the temporary file with the file
    Compare,
    /// Rename the temporary file to the file
    Rename,
    /// Remove the temporary file
    Remove(bool),
    /// Report whether the file has been created
    Finish(bool),
}

/// How a step has ended
#[derive(Debug, Clone, Copy, PartialEq, Eq, Structural)]
pub enum TmpfileEvent {
    /// The step has been performed; compared files differ
    Done,
    /// The compared files are equal
    Equal,
    /// The step has failed
    Failed,
}

/// What follows a step
///
/// The file is left alone if it has the same contents already, so that its timestamp is only
/// updated if the contents have changed. A comparison that fails counts as a difference.
pub open spec fn tmpfile_step(step: TmpfileStep, event: TmpfileEvent) -> TmpfileStep {
    match (step, event) {
        (TmpfileStep::Write, TmpfileEvent::Failed) => TmpfileStep::Remove(false),
        (TmpfileStep::Write, _) => TmpfileStep::Compare,
        (TmpfileStep::Compare, TmpfileEvent::Equal) => TmpfileStep::Remove(true),
        (TmpfileStep::Compare, _) => TmpfileStep::Rename,
        (TmpfileStep::Rename, TmpfileEvent::Failed) => TmpfileStep::Remove(false),
        (TmpfileStep::Rename, _) => TmpfileStep::Finish(true),
        (TmpfileStep::Remove(ok), _) => TmpfileStep::Finish(ok),
        (TmpfileStep::Finish(ok), _) => TmpfileStep::Finish(ok),
    }
}

/// Decides what follows a step when a file is created by way of a temporary file
///
/// Storing the data in a temporary file prevents leaving half-written files
/// when the creation is interrupted.
pub fn next_tmpfile_step(step: TmpfileStep, event: TmpfileEvent) -> (r: TmpfileStep)
    ensures
        r == tmpfile_step(step, event),
{
    match (step, event) {
        (TmpfileStep::Write, TmpfileEvent::Failed) => TmpfileStep::Remove(false),
        (TmpfileStep::Write, _) => TmpfileStep::Compare,
        (TmpfileStep::Compare, TmpfileEvent::Equal) => TmpfileStep::Remove(true),
        (TmpfileStep::Compare, _) => TmpfileStep::Rename,
        (TmpfileStep::Rename, TmpfileEvent::Failed) => TmpfileStep::Remove(false),
        (TmpfileStep::Rename, _) => TmpfileStep::Finish(true),
        (TmpfileStep::Remove(ok), _) => TmpfileStep::Finish(ok),
        (TmpfileStep::Finish(ok), _) => TmpfileStep::Finish(ok),
    }
}

/// A file and its temporary file on disk
pub struct FilePair {
    /// Contents of the file, if it exists
    pub file: Option<Seq<u8>>,
    /// Contents of the temporary file, if it exists
    pub tmp: Option<Seq<u8>>,
}

/// How a step that ends with an event may change the files on disk, where `new` are the
/// contents to be written
pub open spec fn tmpfile_effect(
    step: TmpfileStep,
    event: TmpfileEvent,
    new: Seq<u8>,
    before: FilePair,
    after: FilePair,
) -> bool {
    match (step, event) {
        // A failed write may leave anything in the temporary file
        (TmpfileStep::Write, TmpfileEvent::Failed) => after.file == before.file,
        (TmpfileStep::Write, _) => after.file == before.file && after.tmp == Some(new),
        (TmpfileStep::Compare, TmpfileEvent::Equal) => after == before && before.file
            == before.tmp,
        (TmpfileStep::Rename, TmpfileEvent::Failed) => after == before,
        (TmpfileStep::Rename, _) => after.file == before.tmp && after.tmp is None,
        (TmpfileStep::Remove(_), TmpfileEvent::Failed) => after == before,
        (TmpfileStep::Remove(_), _) => after.file == before.file && after.tmp is None,
        _ => after == before,
    }
}

/// What holds before a step, where `old` is what was in the file at first
pub open spec fn tmpfile_state(
    step: TmpfileStep,
    old_file: Option<Seq<u8>>,
    new: Seq<u8>,
    disk: FilePair,
) -> bool {
    match step {
        TmpfileStep::Write => disk.file == old_file,
        TmpfileStep::Compare | TmpfileStep::Rename => disk.file == old_file && disk.tmp == Some(
            new,
        ),
        TmpfileStep::Remove(ok) | TmpfileStep::Finish(ok) => disk.file == (if ok {
            Some(new)
        } else {
            old_file
        }),
    }
}

/// At every step the file has either its old contents or the complete new contents, and in
/// the end it has the new contents just if its creation is reported
pub proof fn file_never_half_written(
    step: TmpfileStep,
    event: TmpfileEvent,
    old_file: Option<Seq<u8>>,
    new: Seq<u8>,
    before: FilePair,
    after: FilePair,
)
    requires
        tmpfile_state(step, old_file, new, before),
        tmpfile_effect(step, event, new, before, after),
    ensures
        tmpfile_state(tmpfile_step(step, event), old_file, new, after),
        after.file == old_file || after.file == Some(new),
{
}

/// The temporary file is gone in the end, unless its removal fails
pub proof fn tmpfile_cleaned_up(
    step: TmpfileStep,
    event: TmpfileEvent,
    new: Seq<u8>,
    before: FilePair,
    after: FilePair,
)
    requires
        step != tmpfile_step(step, event),
        tmpfile_step(step, event) is Finish,
        step is Remove ==> event != TmpfileEvent::Failed,
        tmpfile_effect(step, event, new, before, after),
    ensures
        after.tmp is None,
{
}

/// What is known of a file's time of last modification
#[derive(Debug, Clone, Copy, PartialEq, Eq, Structural)]
pub enum Modified {
    /// The time of last modification
    At(Timestamp),
    /// The file does not exist
    NotFound,
    /// The time cannot be determined
    Failed,
}

/// Returns the time of last modification for a given file; a missing file is an error
pub fn modified_timestamp(modified: Modified) -> (r: Result<Timestamp, ()>)
    ensures
        match modified {
            Modified::At(t) => r == Ok::<Timestamp, ()>(t),
            _ => r is Err,
        },
{
    match modified {
        Modified::At(t) => Ok(t),
        _ => Err(()),
    }
}

/// Returns the time of last modification for a given file, or `Ok(None)`
/// if the file does not exist
///
/// A missing source file is an expected condition for layers that are not
/// generated for every region (e.g. the lightmap layer is never produced for
/// Bedrock worlds), so it must not be treated as an error.
pub fn modified_timestamp_opt(modified: Modified) -> (r: Result<Option<Timestamp>, ()>)
    ensures
        match modified {
            Modified::At(t) => r == Ok::<Option<Timestamp>, ()>(Some(t)),
            Modified::NotFound => r == Ok::<Option<Timestamp>, ()>(None),
            Modified::Failed => r is Err,
        },
{
    match modified {
        Modified::At(t) => Ok(Some(t)),
        Modified::NotFound => Ok(None),
        Modified::Failed => Err(()),
    }
}

/// The timestamp of file metadata, if it has the current version
pub open spec fn stored_timestamp(meta: Option<FileMeta>, version: FileMetaVersion) -> Option<
    Timestamp,
> {
    match meta {
        Some(m) => if m.version == version {
            Some(m.timestamp)
        } else {
            None
        },
        None => None,
    }
}

/// Returns the stored timestamp from file metadata, if the metadata could be read and has
/// the current version
pub fn read_timestamp(meta: Option<FileMeta>, version: FileMetaVersion) -> (r: Option<Timestamp>)
    ensures
        r == stored_timestamp(meta, version),
{
    match meta {
        Some(m) => if m.version == version {
            Some(m.timestamp)
        } else {
            None
        },
        None => None,
    }
}

/// Returns the metadata to be stored with a file, once the file has been written
pub fn create_with_timestamp(
    written: bool,
    version: FileMetaVersion,
    timestamp: Timestamp,
) -> (r: Option<FileMeta>)
    ensures
        r == (if written {
            Some(FileMeta { version, timestamp })
        } else {
            None
        }),
{
    if written {
        Some(FileMeta { version, timestamp })
    } else {
        None
    }
}

/// A stored timestamp is read back with the same version, and with no other
pub proof fn timestamp_read_back(
    version: FileMetaVersion,
    timestamp: Timestamp,
    other: FileMetaVersion,
)
    ensures
        stored_timestamp(Some(FileMeta { version, timestamp }), version) == Some(timestamp),
        other != version ==> stored_timestamp(Some(FileMeta { version, timestamp }), other) is None,
{
}

/// A file that is created without a failure is written, and reported as created
///
/// The temporary file is written first. Where the file has other contents, or cannot be
/// compared, it is replaced.
pub proof fn file_created(written: TmpfileEvent, compared: TmpfileEvent, renamed: TmpfileEvent)
    requires
        written != TmpfileEvent::Failed,
        compared != TmpfileEvent::Equal,
        renamed != TmpfileEvent::Failed,
    ensures
        ({
            let second = tmpfile_step(TmpfileStep::Write, written);
            let third = tmpfile_step(second, compared);
            &&& second == TmpfileStep::Compare
            &&& third == TmpfileStep::Rename
            &&& tmpfile_step(third, renamed) == TmpfileStep::Finish(true)
        }),
{
}

/// A file that has the same contents already is left alone, and a failure is reported; the
/// temporary file is removed in both cases
pub proof fn unchanged_file_kept(removed: TmpfileEvent)
    ensures
        tmpfile_step(TmpfileStep::Compare, TmpfileEvent::Equal) == TmpfileStep::Remove(true),
        tmpfile_step(TmpfileStep::Write, TmpfileEvent::Failed) == TmpfileStep::Remove(false),
        tmpfile_step(TmpfileStep::Rename, TmpfileEvent::Failed) == TmpfileStep::Remove(false),
        tmpfile_step(TmpfileStep::Remove(true), removed) == TmpfileStep::Finish(true),
        tmpfile_step(TmpfileStep::Remove(false), removed) == TmpfileStep::Finish(false),
{
}

/// At the end of both files, they are equal
pub proof fn end_compares_equal(first: Seq<Seq<u8>>, second: Seq<Seq<u8>>)
    requires
        first.len() == second.len(),
        forall|i: int|
            0 <= i < first.len() ==> (#[trigger] first[i]).len() == second[i].len()
                && first[i].len() > 0,
    ensures
        block_step(Seq::empty(), Seq::empty()) == EqualStep::Done(true),
        blocks_equal(first.zip_with(second).push((Seq::empty(), Seq::empty()))) == (contents(first)
            == contents(second)),
    decreases first.len(),
{
    let blocks = first.zip_with(second);
    let ended = blocks.push((Seq::empty(), Seq::empty()));
    blocks_compare_contents(first, second);
    if first.len() == 0 {
        assert(first =~= second);
        assert(ended[0] == (Seq::<u8>::empty(), Seq::<u8>::empty()));
    } else {
        assert(blocks[0] == (first[0], second[0]) && ended[0] == blocks[0]);
        assert(blocks.skip(1) =~= first.skip(1).zip_with(second.skip(1)));
        assert(ended.skip(1) =~= blocks.skip(1).push((Seq::empty(), Seq::empty())));
        end_compares_equal(first.skip(1), second.skip(1));
        blocks_compare_contents(first.skip(1), second.skip(1));
    }
}

} // verus!
