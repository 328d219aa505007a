//! Reads a zip archive and plans how its entries are unpacked.
//!
//! Nothing is written here. The plan lists, in the order of the entries, the
//! directories to create and the files to write, each by its components
//! below the destination. An archive with an entry that would leave the
//! destination gets no plan at all.

use std::io::Cursor;
use std::io::Read;

use vstd::prelude::*;
use zip::result::ZipError;
use zip::ZipArchive;

use crate::error::Error;
use crate::path::{components, entry_path, escapes, marks_directory, path_view};

verus! {

/// An in-memory reader of std.
#[verifier::external_type_specification]
#[verifier::external_body]
#[verifier::reject_recursive_types(T)]
pub struct ExCursor<T>(Cursor<T>);

/// An opened archive of the `zip` crate.
#[verifier::external_type_specification]
#[verifier::external_body]
#[verifier::reject_recursive_types(R)]
pub struct ExZipArchive<R>(ZipArchive<R>);

/// The `zip` crate's error.
#[verifier::external_type_specification]
#[verifier::external_body]
pub struct ExZipError(ZipError);

/// One entry as the archive stores it.
#[derive(Debug, PartialEq, Eq)]
pub struct StoredEntry {
    /// The stored path.
    pub name: String,
    /// The bytes of the entry, decompressed. Empty for a directory.
    pub content: Vec<u8>,
}

/// The mathematical value of a [`StoredEntry`].
pub ghost struct EntryView {
    pub name: Seq<char>,
    pub content: Seq<u8>,
}

impl View for StoredEntry {
    type V = EntryView;

    open spec fn view(&self) -> EntryView {
        EntryView { name: self.name@, content: self.content@ }
    }
}

/// The number of entries of the archive that `bytes` hold, `None` where
/// `ZipArchive::new` reports that they hold none.
pub uninterp spec fn archive_size(bytes: Seq<u8>) -> Option<nat>;

/// The entry at `index` of the archive that `bytes` hold: its stored path and
/// its decompressed bytes, `None` where the `zip` crate cannot read it.
pub uninterp spec fn archive_entry(bytes: Seq<u8>, index: int) -> Option<EntryView>;

/// The bytes that an archive was opened on.
pub uninterp spec fn archive_source(archive: ZipArchive<Cursor<&[u8]>>) -> Seq<u8>;

/// Calls `ZipArchive::new` on a cursor over `bytes`. It reads the central
/// directory and fails where there is none that it can use. The contract
/// names that test and says that the archive stands for those bytes.
#[verifier::external_body]
fn open_archive<'a>(bytes: &'a [u8]) -> (result: Result<ZipArchive<Cursor<&'a [u8]>>, ZipError>)
    ensures
        match result {
            Ok(archive) => archive_source(archive) == bytes@ && archive_size(bytes@) is Some,
            Err(_) => archive_size(bytes@) is None,
        },
{
    ZipArchive::new(Cursor::new(bytes))
}

/// Calls `ZipArchive::len`: the number of entries of the central directory.
#[verifier::external_body]
fn entry_total(archive: &ZipArchive<Cursor<&[u8]>>) -> (total: usize)
    ensures
        archive_size(archive_source(*archive)) == Some(total as nat),
{
    archive.len()
}

/// Calls `ZipArchive::by_index` and takes the entry's stored path and bytes
/// out of the `ZipFile`, with `ZipFile::name` and `Read::read_to_end`. Each
/// of the three can fail; the archive stays what it was. The contract names
/// the outcome by the archive's bytes and the index.
#[verifier::external_body]
fn read_entry(archive: &mut ZipArchive<Cursor<&[u8]>>, index: usize) -> (result: Result<
    StoredEntry,
    ZipError,
>)
    ensures
        archive_source(*final(archive)) == archive_source(*old(archive)),
        match result {
            Ok(entry) => archive_entry(archive_source(*old(archive)), index as int) == Some(
                entry@,
            ),
            Err(_) => archive_entry(archive_source(*old(archive)), index as int) is None,
        },
{
    let mut file = archive.by_index(index)?;
    let name = file.name()?.into_owned();
    let mut content = Vec::new();
    file.read_to_end(&mut content)?;
    Ok(StoredEntry { name, content })
}

/// One thing to do below the destination.
#[derive(Debug, PartialEq, Eq)]
pub enum InstallStep {
    /// Create the directory at `path` and every directory above it that is
    /// missing. An empty `path` is the destination itself.
    CreateDir { path: Vec<String> },
    /// Write `content` to the file at `path`, replacing what is there.
    WriteFile { path: Vec<String>, content: Vec<u8> },
}

/// The mathematical value of an [`InstallStep`].
pub ghost enum StepView {
    CreateDir { path: Seq<Seq<char>> },
    WriteFile { path: Seq<Seq<char>>, content: Seq<u8> },
}

impl View for InstallStep {
    type V = StepView;

    open spec fn view(&self) -> StepView {
        match self {
            InstallStep::CreateDir { path } => StepView::CreateDir { path: path_view(path@) },
            InstallStep::WriteFile { path, content } => StepView::WriteFile {
                path: path_view(path@),
                content: content@,
            },
        }
    }
}

/// What to do, in order, to unpack an archive into `destination`.
#[derive(Debug, PartialEq, Eq)]
pub struct InstallPlan {
    /// The directory that the paths of the steps are below.
    pub destination: String,
    /// The steps, in the order of the archive's entries.
    pub steps: Vec<InstallStep>,
}

/// The mathematical value of an [`InstallPlan`].
pub ghost struct PlanView {
    pub destination: Seq<char>,
    pub steps: Seq<StepView>,
}

/// The mathematical value of each step.
pub open spec fn steps_view(steps: Seq<InstallStep>) -> Seq<StepView> {
    steps.map_values(|step: InstallStep| step@)
}

impl View for InstallPlan {
    type V = PlanView;

    open spec fn view(&self) -> PlanView {
        PlanView { destination: self.destination@, steps: steps_view(self.steps@) }
    }
}

/// The steps that one entry asks for.
///
/// An entry whose stored path escapes gets none, and neither does a file
/// whose stored path has no component: it would stand in the destination's
/// own place. A directory entry creates its directory. A file entry creates
/// the directory it lies in and then writes the file.
pub open spec fn entry_steps_of(entry: EntryView) -> Result<Seq<StepView>, Error> {
    if escapes(entry.name) {
        Err(Error::PathTraversalAttempt)
    } else if marks_directory(entry.name) {
        Ok(seq![StepView::CreateDir { path: components(entry.name) }])
    } else if components(entry.name).len() == 0 {
        Err(Error::PathTraversalAttempt)
    } else {
        Ok(
            seq![
                StepView::CreateDir { path: components(entry.name).drop_last() },
                StepView::WriteFile { path: components(entry.name), content: entry.content },
            ],
        )
    }
}

/// What one position of an archive asks for: `ArchiveCorrupt` where the
/// entry cannot be read, else the steps of the entry.
pub open spec fn entry_outcome(entry: Option<EntryView>) -> Result<Seq<StepView>, Error> {
    match entry {
        None => Err(Error::ArchiveCorrupt),
        Some(e) => entry_steps_of(e),
    }
}

/// `index` is the first entry that asks for a failure.
pub open spec fn is_first_failure(entries: Seq<Option<EntryView>>, index: int) -> bool {
    &&& 0 <= index < entries.len()
    &&& entry_outcome(entries[index]) is Err
    &&& forall|j: int| 0 <= j < index ==> entry_outcome(#[trigger] entries[j]) is Ok
}

/// The steps of every entry, one entry after the other. Entries that ask for
/// a failure add nothing.
pub open spec fn all_steps(entries: Seq<Option<EntryView>>) -> Seq<StepView>
    decreases entries.len(),
{
    if entries.len() == 0 {
        Seq::<StepView>::empty()
    } else {
        match entry_outcome(entries.last()) {
            Ok(steps) => all_steps(entries.drop_last()) + steps,
            Err(_) => all_steps(entries.drop_last()),
        }
    }
}

/// What planning gives for the entries of an archive: the failure of the
/// first entry that asks for one, else the steps of all entries in order.
pub open spec fn planned(entries: Seq<Option<EntryView>>) -> Result<Seq<StepView>, Error> {
    if exists|i: int| is_first_failure(entries, i) {
        Err(entry_outcome(entries[choose|i: int| is_first_failure(entries, i)])->Err_0)
    } else {
        Ok(all_steps(entries))
    }
}

/// The entries of the archive that `bytes` hold, where they hold one with
/// `total` entries.
pub open spec fn stored_entries(bytes: Seq<u8>, total: nat) -> Seq<Option<EntryView>> {
    Seq::new(total, |i: int| archive_entry(bytes, i))
}

/// What extracting gives: `ArchiveCorrupt` where the bytes hold no archive,
/// else what planning gives for its entries, with the destination.
pub open spec fn extraction(bytes: Seq<u8>, to: Seq<char>) -> Result<PlanView, Error> {
    match archive_size(bytes) {
        None => Err(Error::ArchiveCorrupt),
        Some(total) => match planned(stored_entries(bytes, total)) {
            Ok(steps) => Ok(PlanView { destination: to, steps }),
            Err(e) => Err(e),
        },
    }
}

/// The mathematical value of a planner's result.
pub open spec fn plan_result_view(result: Result<InstallPlan, Error>) -> Result<PlanView, Error> {
    match result {
        Ok(plan) => Ok(plan@),
        Err(e) => Err(e),
    }
}

/// Any two first failures are the same entry.
pub proof fn lemma_first_failure_unique(entries: Seq<Option<EntryView>>, i: int, j: int)
    requires
        is_first_failure(entries, i),
        is_first_failure(entries, j),
    ensures
        i == j,
{
    if i < j {
        assert(entry_outcome(entries[i]) is Ok);
    } else if j < i {
        assert(entry_outcome(entries[j]) is Ok);
    }
}

/// Plans the steps of one entry.
///
/// Fails with `PathTraversalAttempt` where the stored path is absolute,
/// starts with a drive letter or holds a `..` piece, and where a file's
/// stored path has no component.
pub fn entry_steps(entry: StoredEntry) -> (result: Result<Vec<InstallStep>, Error>)
    ensures
        match result {
            Ok(steps) => entry_steps_of(entry@) == Ok::<Seq<StepView>, Error>(steps_view(steps@)),
            Err(e) => entry_steps_of(entry@) == Err::<Seq<StepView>, Error>(e),
        },
{
    let path = match entry_path(entry.name.as_str()) {
        Ok(path) => path,
        Err(e) => {
            return Err(e);
        },
    };
    let total = entry.name.as_str().unicode_len();
    let mut steps: Vec<InstallStep> = Vec::new();
    let directory = if total > 0 {
        let last = entry.name.as_str().get_char(total - 1);
        last == '/' || last == '\\'
    } else {
        false
    };
    if directory {
        steps.push(InstallStep::CreateDir { path });
        proof {
            assert(steps_view(steps@) =~= seq![
                StepView::CreateDir { path: components(entry@.name) },
            ]);
        }
        return Ok(steps);
    }
    if path.len() == 0 {
        return Err(Error::PathTraversalAttempt);
    }
    let mut parent: Vec<String> = Vec::new();
    let mut index: usize = 0;
    while index < path.len() - 1
        invariant
            path.len() > 0,
            0 <= index <= path.len() - 1,
            parent@.len() == index,
            forall|j: int| 0 <= j < index ==> (#[trigger] parent@[j])@ == path@[j]@,
        decreases path.len() - index,
    {
        parent.push(path[index].clone());
        index += 1;
    }
    proof {
        assert(path_view(parent@) =~= components(entry@.name).drop_last());
    }
    steps.push(InstallStep::CreateDir { path: parent });
    steps.push(InstallStep::WriteFile { path, content: entry.content });
    proof {
        assert(steps_view(steps@) =~= seq![
            StepView::CreateDir { path: components(entry@.name).drop_last() },
            StepView::WriteFile { path: components(entry@.name), content: entry@.content },
        ]);
    }
    Ok(steps)
}

/// Adding one more entry to entries that ask for no failure.
proof fn lemma_planned_step(entries: Seq<Option<EntryView>>, next: Option<EntryView>)
    requires
        planned(entries) is Ok,
    ensures
        entry_outcome(next) matches Ok(steps) ==> planned(entries.push(next)) == Ok::<
            Seq<StepView>,
            Error,
        >(all_steps(entries) + steps),
        entry_outcome(next) matches Err(e) ==> planned(entries.push(next)) == Err::<
            Seq<StepView>,
            Error,
        >(e),
{
    let longer = entries.push(next);
    assert(longer.drop_last() =~= entries);
    assert(longer.last() == next);
    assert forall|j: int| 0 <= j < entries.len() implies entry_outcome(
        #[trigger] longer[j],
    ) is Ok by {
        if entry_outcome(entries[j]) is Err {
            lemma_some_first_failure(entries, j);
        }
    }
    if entry_outcome(next) is Err {
        assert(is_first_failure(longer, entries.len() as int));
        lemma_first_failure_unique(
            longer,
            entries.len() as int,
            choose|i: int| is_first_failure(longer, i),
        );
    } else {
        assert forall|i: int| !is_first_failure(longer, i) by {
            if 0 <= i < longer.len() {
                assert(entry_outcome(longer[i]) is Ok);
            }
        }
    }
}

/// Where some entry asks for a failure, one does so first.
proof fn lemma_some_first_failure(entries: Seq<Option<EntryView>>, index: int)
    requires
        0 <= index < entries.len(),
        entry_outcome(entries[index]) is Err,
    ensures
        exists|i: int| is_first_failure(entries, i),
    decreases index,
{
    if exists|j: int| 0 <= j < index && entry_outcome(#[trigger] entries[j]) is Err {
        let j = choose|j: int| 0 <= j < index && entry_outcome(#[trigger] entries[j]) is Err;
        lemma_some_first_failure(entries, j);
    } else {
        assert(is_first_failure(entries, index));
    }
}

/// Moves the steps of one entry behind the steps planned so far.
fn append_steps(steps: &mut Vec<InstallStep>, more: Vec<InstallStep>)
    ensures
        steps_view(final(steps)@) == steps_view(old(steps)@) + steps_view(more@),
{
    let mut more = more;
    let ghost added = more@;
    steps.append(&mut more);
    proof {
        assert(steps_view(steps@) =~= steps_view(old(steps)@) + steps_view(added));
    }
}

/// Plans the steps for entries that were read from an archive, in their
/// order. The first entry that asks for a failure decides, and then there is
/// no plan.
pub fn plan_entries(entries: Vec<StoredEntry>, to: &str) -> (result: Result<InstallPlan, Error>)
    ensures
        plan_result_view(result) == match planned(
            entries@.map_values(|entry: StoredEntry| Some(entry@)),
        ) {
            Ok(steps) => Ok::<PlanView, Error>(PlanView { destination: to@, steps }),
            Err(e) => Err::<PlanView, Error>(e),
        },
{
    let ghost stated = entries@.map_values(|entry: StoredEntry| Some(entry@));
    let total = entries.len();
    let mut rest = crate::util::reversed(entries);
    proof {
        assert forall|j: int| 0 <= j < rest@.len() implies Some((#[trigger] rest@[j])@)
            == stated[total - 1 - j] by {
            assert(stated[total - 1 - j] == Some(entries@[total - 1 - j]@));
        }
    }
    let mut steps: Vec<InstallStep> = Vec::new();
    let mut done: usize = 0;
    proof {
        assert(stated.take(0) =~= Seq::<Option<EntryView>>::empty());
        assert(forall|i: int| !is_first_failure(stated.take(0), i));
        assert(all_steps(stated.take(0)) =~= steps_view(steps@));
    }
    while done < total
        invariant
            0 <= done <= total,
            total == stated.len(),
            stated == entries@.map_values(|entry: StoredEntry| Some(entry@)),
            rest@.len() == total - done,
            forall|j: int|
                0 <= j < rest@.len() ==> Some((#[trigger] rest@[j])@) == stated[total - 1 - j],
            planned(stated.take(done as int)) == Ok::<Seq<StepView>, Error>(steps_view(steps@)),
        decreases total - done,
    {
        let entry = rest.pop().unwrap();
        proof {
            assert(stated.take(done + 1) =~= stated.take(done as int).push(Some(entry@)));
            lemma_planned_step(stated.take(done as int), Some(entry@));
        }
        match entry_steps(entry) {
            Ok(more) => {
                append_steps(&mut steps, more);
            },
            Err(e) => {
                proof {
                    lemma_failure_stays(stated, done + 1);
                }
                return Err(e);
            },
        }
        done += 1;
    }
    proof {
        assert(stated.take(total as int) =~= stated);
    }
    Ok(InstallPlan { destination: to.to_owned(), steps })
}

/// A failure among the first entries is the failure of all of them.
proof fn lemma_failure_stays(entries: Seq<Option<EntryView>>, count: int)
    requires
        0 <= count <= entries.len(),
        planned(entries.take(count)) is Err,
    ensures
        planned(entries) == planned(entries.take(count)),
{
    let short = entries.take(count);
    let first = choose|i: int| is_first_failure(short, i);
    assert(is_first_failure(short, first));
    assert(is_first_failure(entries, first)) by {
        assert(short[first] == entries[first]);
        assert forall|j: int| 0 <= j < first implies entry_outcome(#[trigger] entries[j]) is Ok by {
            assert(short[j] == entries[j]);
        }
    }
    lemma_first_failure_unique(entries, first, choose|i: int| is_first_failure(entries, i));
}

/// Reads the archive that `from` holds and plans how it is unpacked into `to`.
///
/// Fails with `ArchiveCorrupt` where `from` holds no archive or an entry
/// cannot be read, and with `PathTraversalAttempt` where an entry's stored
/// path would leave the destination. The entries are taken in order, and the
/// first that fails decides. Nothing is written, and a failure leaves no plan.
pub fn extract(from: &[u8], to: &str) -> (result: Result<InstallPlan, Error>)
    ensures
        plan_result_view(result) == extraction(from@, to@),
{
    let mut archive = match open_archive(from) {
        Ok(archive) => archive,
        Err(_) => {
            return Err(Error::ArchiveCorrupt);
        },
    };
    let total = entry_total(&archive);
    let ghost stated = stored_entries(from@, total as nat);
    let mut steps: Vec<InstallStep> = Vec::new();
    let mut done: usize = 0;
    proof {
        assert(stated.take(0) =~= Seq::<Option<EntryView>>::empty());
        assert(forall|i: int| !is_first_failure(stated.take(0), i));
        assert(all_steps(stated.take(0)) =~= steps_view(steps@));
    }
    while done < total
        invariant
            0 <= done <= total,
            archive_source(archive) == from@,
            archive_size(from@) == Some(total as nat),
            stated == stored_entries(from@, total as nat),
            planned(stated.take(done as int)) == Ok::<Seq<StepView>, Error>(steps_view(steps@)),
        decreases total - done,
    {
        let read = read_entry(&mut archive, done);
        proof {
            assert(stated[done as int] == archive_entry(from@, done as int));
            assert(stated.take(done + 1) =~= stated.take(done as int).push(stated[done as int]));
            lemma_planned_step(stated.take(done as int), stated[done as int]);
        }
        let entry = match read {
            Ok(entry) => entry,
            Err(_) => {
                proof {
                    lemma_failure_stays(stated, done + 1);
                }
                return Err(Error::ArchiveCorrupt);
            },
        };
        match entry_steps(entry) {
            Ok(more) => {
                append_steps(&mut steps, more);
            },
            Err(e) => {
                proof {
                    lemma_failure_stays(stated, done + 1);
                }
                return Err(e);
            },
        }
        done += 1;
    }
    proof {
        assert(stated.take(total as int) =~= stated);
    }
    Ok(InstallPlan { destination: to.to_owned(), steps })
}

/// An archive with an entry whose stored path escapes gets no plan. Where
/// every entry can be read, the failure is `PathTraversalAttempt`.
pub proof fn law_traversal_rejected(entries: Seq<Option<EntryView>>, index: int)
    requires
        0 <= index < entries.len(),
        entries[index] matches Some(entry) && escapes(entry.name),
    ensures
        planned(entries) is Err,
        (forall|j: int| 0 <= j < entries.len() ==> (#[trigger] entries[j]) is Some) ==> planned(
            entries,
        ) == Err::<Seq<StepView>, Error>(Error::PathTraversalAttempt),
{
    lemma_some_first_failure(entries, index);
    let first = choose|i: int| is_first_failure(entries, i);
    assert(is_first_failure(entries, first));
}

} // verus!
