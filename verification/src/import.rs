//! The decisions of an import run: which files it reads, how one file
//! moves from discovery to submission, and when the run has succeeded.

use vstd::prelude::*;
use vstd::string::*;
use crate::address::{addr_of, copy_regions, region_views, Addr, AddrView, OpenAddresse, Region};

verus! {

/// Where a file stands in the run.
#[derive(Clone, Copy, Debug, PartialEq, Eq, Structural)]
pub enum FileState {
    Discovered,
    Parsing,
    Building,
    Batched,
    Submitted,
    Failed,
}

/// What happened to a file since the last step.
#[derive(Clone, Copy, Debug, PartialEq, Eq, Structural)]
pub enum FileEvent {
    /// A worker took the file.
    Started,
    /// The file could not be opened.
    OpenFailed,
    /// A line did not decode as a record.
    RecordMalformed,
    /// The last line was read.
    RecordsRead,
    /// Every record read has its address document.
    DocumentsBuilt,
    /// The index acknowledged every batch.
    BatchesWritten,
    /// The index refused a batch or could not be reached.
    WriteFailed,
}

/// What the worker does next for the file.
#[derive(Clone, Copy, Debug, PartialEq, Eq, Structural)]
pub enum FileAction {
    /// Open the file and decode its lines.
    ReadRecords,
    /// Log a warning and go on with the next line.
    SkipRecord,
    /// Build the address documents.
    BuildDocuments,
    /// Hand the batches to the index.
    SubmitBatches,
    /// The file is done.
    Finish,
    /// Give the run up.
    Abort,
    /// The event does not concern the file where it stands.
    Ignore,
}

/// Where a file stands after an event. A malformed line leaves it where
/// it was; a file that cannot be opened and a refused batch fail it;
/// `Submitted` and `Failed` are never left.
pub open spec fn next_state(state: FileState, event: FileEvent) -> FileState {
    match (state, event) {
        (FileState::Discovered, FileEvent::Started) => FileState::Parsing,
        (FileState::Parsing, FileEvent::OpenFailed) => FileState::Failed,
        (FileState::Parsing, FileEvent::RecordsRead) => FileState::Building,
        (FileState::Building, FileEvent::DocumentsBuilt) => FileState::Batched,
        (FileState::Batched, FileEvent::BatchesWritten) => FileState::Submitted,
        (FileState::Batched, FileEvent::WriteFailed) => FileState::Failed,
        _ => state,
    }
}

/// What the worker does after an event.
pub open spec fn action_for(state: FileState, event: FileEvent) -> FileAction {
    match (state, event) {
        (FileState::Discovered, FileEvent::Started) => FileAction::ReadRecords,
        (FileState::Parsing, FileEvent::OpenFailed) => FileAction::Abort,
        (FileState::Parsing, FileEvent::RecordMalformed) => FileAction::SkipRecord,
        (FileState::Parsing, FileEvent::RecordsRead) => FileAction::BuildDocuments,
        (FileState::Building, FileEvent::DocumentsBuilt) => FileAction::SubmitBatches,
        (FileState::Batched, FileEvent::BatchesWritten) => FileAction::Finish,
        (FileState::Batched, FileEvent::WriteFailed) => FileAction::Abort,
        _ => FileAction::Ignore,
    }
}

/// Takes one event for a file: where the file stands afterwards, and
/// what the worker does next.
pub fn step(state: FileState, event: FileEvent) -> (r: (FileState, FileAction))
    ensures
        r.0 == next_state(state, event),
        r.1 == action_for(state, event),
{
    match state {
        FileState::Discovered => match event {
            FileEvent::Started => (FileState::Parsing, FileAction::ReadRecords),
            _ => (state, FileAction::Ignore),
        },
        FileState::Parsing => match event {
            FileEvent::OpenFailed => (FileState::Failed, FileAction::Abort),
            FileEvent::RecordMalformed => (FileState::Parsing, FileAction::SkipRecord),
            FileEvent::RecordsRead => (FileState::Building, FileAction::BuildDocuments),
            _ => (state, FileAction::Ignore),
        },
        FileState::Building => match event {
            FileEvent::DocumentsBuilt => (FileState::Batched, FileAction::SubmitBatches),
            _ => (state, FileAction::Ignore),
        },
        FileState::Batched => match event {
            FileEvent::BatchesWritten => (FileState::Submitted, FileAction::Finish),
            FileEvent::WriteFailed => (FileState::Failed, FileAction::Abort),
            _ => (state, FileAction::Ignore),
        },
        FileState::Submitted => (state, FileAction::Ignore),
        FileState::Failed => (state, FileAction::Ignore),
    }
}

/// Where a file stands after a run of events, taken in order.
pub open spec fn state_after(start: FileState, events: Seq<FileEvent>) -> FileState
    decreases events.len(),
{
    if events.len() == 0 {
        start
    } else {
        next_state(state_after(start, events.drop_last()), events.last())
    }
}

/// Takes a run of events for a file that was just discovered.
pub fn replay(events: &Vec<FileEvent>) -> (state: FileState)
    ensures
        state == state_after(FileState::Discovered, events@),
{
    let mut state = FileState::Discovered;
    let mut i: usize = 0;
    while i < events.len()
        invariant
            i <= events.len(),
            state == state_after(FileState::Discovered, events@.subrange(0, i as int)),
        decreases events.len() - i,
    {
        assert(events@.subrange(0, i + 1).drop_last() =~= events@.subrange(0, i as int));
        state = step(state, events[i]).0;
        i = i + 1;
    }
    assert(events@.subrange(0, i as int) =~= events@);
    state
}

/// A malformed line changes nothing for its file: the file stands after
/// the events where it would stand had the line at `at` never been
/// there.
pub proof fn lemma_malformed_line_is_skipped(start: FileState, events: Seq<FileEvent>, at: int)
    requires
        0 <= at < events.len(),
        events[at] == FileEvent::RecordMalformed,
    ensures
        state_after(start, events) == state_after(start, events.remove(at)),
    decreases events.len(),
{
    if at == events.len() - 1 {
        assert(events.remove(at) =~= events.drop_last());
    } else {
        let shorter = events.remove(at);
        assert(shorter.drop_last() =~= events.drop_last().remove(at));
        assert(shorter.last() == events.last());
        lemma_malformed_line_is_skipped(start, events.drop_last(), at);
    }
}

/// A file that failed or was submitted stays so, whatever follows.
pub proof fn lemma_end_states_are_kept(start: FileState, events: Seq<FileEvent>)
    requires
        start == FileState::Submitted || start == FileState::Failed,
    ensures
        state_after(start, events) == start,
    decreases events.len(),
{
    if events.len() > 0 {
        lemma_end_states_are_kept(start, events.drop_last());
    }
}

/// A file fails only by an event that says so: without a failed open
/// and without a refused batch among the events, malformed lines or
/// not, it has not failed.
pub proof fn lemma_no_failure_without_cause(events: Seq<FileEvent>)
    requires
        forall|i: int|
            0 <= i < events.len() ==> events[i] != FileEvent::OpenFailed && events[i]
                != FileEvent::WriteFailed,
    ensures
        state_after(FileState::Discovered, events) != FileState::Failed,
    decreases events.len(),
{
    if events.len() > 0 {
        lemma_no_failure_without_cause(events.drop_last());
    }
}


/// One line of an input file after decoding: a record with the regions
/// that enclose its coordinate, smallest first, or a line that did not
/// decode.
#[derive(Debug, PartialEq, Eq)]
pub enum Line {
    Malformed,
    Record(OpenAddresse, Vec<Region>),
}

/// What the documents of a list hold.
pub open spec fn addr_views(docs: Seq<Addr>) -> Seq<AddrView> {
    Seq::new(docs.len(), |i: int| docs[i]@)
}

/// The address documents of a file: one for each line that decoded, in
/// the lines' order, none for a malformed line.
pub open spec fn documents_of(lines: Seq<Line>, legacy: bool) -> Seq<AddrView>
    decreases lines.len(),
{
    if lines.len() == 0 {
        Seq::empty()
    } else {
        let before = documents_of(lines.drop_last(), legacy);
        match lines.last() {
            Line::Malformed => before,
            Line::Record(record, regions) => before.push(
                addr_of(record@, region_views(regions@), legacy),
            ),
        }
    }
}

/// The documents of a list of batches, one batch after the other.
pub open spec fn flattened(batches: Seq<Vec<Addr>>) -> Seq<AddrView>
    decreases batches.len(),
{
    if batches.len() == 0 {
        Seq::empty()
    } else {
        flattened(batches.drop_last()) + addr_views(batches.last()@)
    }
}

/// Builds the address documents of a file and fills them into batches
/// of `batch_size`. Every line that decoded gives its document, in
/// order; a malformed line gives none and stops nothing. Every batch is
/// full but the last, which holds what is left.
pub fn build_batches(lines: &Vec<Line>, use_old_index_format: bool, batch_size: usize) -> (batches:
    Vec<Vec<Addr>>)
    requires
        batch_size > 0,
    ensures
        flattened(batches@) == documents_of(lines@, use_old_index_format),
        forall|j: int| 0 <= j < batches@.len() ==> 1 <= #[trigger] batches@[j]@.len() <= batch_size,
        forall|j: int| 0 <= j < batches@.len() - 1 ==> #[trigger] batches@[j]@.len() == batch_size,
{
    let mut batches: Vec<Vec<Addr>> = Vec::new();
    let mut current: Vec<Addr> = Vec::new();
    let mut i: usize = 0;
    assert(flattened(batches@) + addr_views(current@) =~= Seq::<AddrView>::empty());
    while i < lines.len()
        invariant
            i <= lines.len(),
            batch_size > 0,
            current@.len() < batch_size,
            flattened(batches@) + addr_views(current@) == documents_of(
                lines@.subrange(0, i as int),
                use_old_index_format,
            ),
            forall|j: int| 0 <= j < batches@.len() ==> #[trigger] batches@[j]@.len() == batch_size,
        decreases lines.len() - i,
    {
        let ghost done = flattened(batches@) + addr_views(current@);
        assert(lines@.subrange(0, i + 1).drop_last() =~= lines@.subrange(0, i as int));
        assert(lines@.subrange(0, i + 1).last() == lines@[i as int]);
        match &lines[i] {
            Line::Malformed => {},
            Line::Record(record, regions) => {
                let doc = record.clone().into_addr(copy_regions(regions), use_old_index_format);
                let ghost filled = addr_views(current@);
                current.push(doc);
                assert(addr_views(current@) =~= filled.push(doc@));
                assert(flattened(batches@) + addr_views(current@) =~= done.push(doc@));
                if current.len() == batch_size {
                    let ghost written = flattened(batches@);
                    let ghost full = addr_views(current@);
                    let mut taken: Vec<Addr> = Vec::new();
                    std::mem::swap(&mut current, &mut taken);
                    let ghost earlier = batches@;
                    batches.push(taken);
                    assert(batches@.drop_last() =~= earlier);
                    assert(addr_views(batches@.last()@) == full);
                    assert(flattened(batches@) == written + full);
                    assert(flattened(batches@) + addr_views(current@) =~= written + full);
                }
            },
        }
        i = i + 1;
    }
    assert(lines@.subrange(0, i as int) =~= lines@);
    if current.len() > 0 {
        let ghost written = flattened(batches@);
        let ghost left = addr_views(current@);
        let ghost earlier = batches@;
        batches.push(current);
        assert(batches@.drop_last() =~= earlier);
        assert(addr_views(batches@.last()@) == left);
        assert(flattened(batches@) == written + left);
    } else {
        assert(flattened(batches@) + Seq::<AddrView>::empty() =~= flattened(batches@));
    }
    batches
}

/// A malformed line takes nothing away from a file and adds nothing to
/// it: the documents are those of the file without the line at `at`.
pub proof fn lemma_malformed_line_gives_no_document(lines: Seq<Line>, legacy: bool, at: int)
    requires
        0 <= at < lines.len(),
        lines[at] is Malformed,
    ensures
        documents_of(lines, legacy) == documents_of(lines.remove(at), legacy),
    decreases lines.len(),
{
    if at == lines.len() - 1 {
        assert(lines.remove(at) =~= lines.drop_last());
    } else {
        let shorter = lines.remove(at);
        assert(shorter.drop_last() =~= lines.drop_last().remove(at));
        assert(shorter.last() == lines.last());
        lemma_malformed_line_gives_no_document(lines.drop_last(), legacy, at);
    }
}

/// The number of lines of a file that decoded.
pub open spec fn records_in(lines: Seq<Line>) -> nat
    decreases lines.len(),
{
    if lines.len() == 0 {
        0
    } else if lines.last() is Malformed {
        records_in(lines.drop_last())
    } else {
        records_in(lines.drop_last()) + 1
    }
}

/// A file gives as many documents as it has lines that decoded.
pub proof fn lemma_every_record_gives_a_document(lines: Seq<Line>, legacy: bool)
    ensures
        documents_of(lines, legacy).len() == records_in(lines),
    decreases lines.len(),
{
    if lines.len() > 0 {
        lemma_every_record_gives_a_document(lines.drop_last(), legacy);
    }
}


/// The files of a run. `entries` are the entries of the input path
/// where it names a directory, and `None` where it names a file.
pub open spec fn files_of(input: String, entries: Option<Vec<String>>) -> Seq<String> {
    match entries {
        Some(list) => list@,
        None => seq![input],
    }
}

/// Resolves the input path to the files of the run: every entry of a
/// directory, none left out and none twice, without going deeper; or
/// the one file that the path names.
pub fn input_files(input: String, entries: Option<Vec<String>>) -> (files: Vec<String>)
    ensures
        files@ == files_of(input, entries),
        entries is Some ==> files@.len() == entries->0@.len(),
        entries is None ==> files@.len() == 1,
{
    match entries {
        Some(list) => list,
        None => {
            let files = vec![input];
            assert(files@ =~= seq![input]);
            files
        },
    }
}

/// The regions that a run works with: those that the index holds for
/// the dataset, or none where it holds none. A dataset without regions
/// stops nothing: its addresses get the weight zero.
pub fn regions_or_empty<T>(found: Option<Vec<T>>) -> (regions: Vec<T>)
    ensures
        match found {
            Some(list) => regions == list,
            None => regions@.len() == 0,
        },
{
    match found {
        Some(list) => list,
        None => Vec::new(),
    }
}

/// Whether every file of a run was submitted.
pub open spec fn all_submitted(states: Seq<FileState>) -> bool {
    forall|i: int| 0 <= i < states.len() ==> states[i] == FileState::Submitted
}

/// Decides whether a run has succeeded: it has where every file was
/// read to its end and every batch of it was written.
pub fn run_succeeded(states: &Vec<FileState>) -> (ok: bool)
    ensures
        ok == all_submitted(states@),
{
    let mut i: usize = 0;
    while i < states.len()
        invariant
            i <= states.len(),
            forall|j: int| 0 <= j < i ==> states@[j] == FileState::Submitted,
        decreases states.len() - i,
    {
        if states[i] != FileState::Submitted {
            return false;
        }
        i = i + 1;
    }
    true
}

/// How the index is laid out. The run hands both numbers on unread.
#[derive(Clone, Copy, Debug, PartialEq, Eq, Structural)]
pub struct IndexSettings {
    pub nb_shards: usize,
    pub nb_replicas: usize,
}

/// What a run is told.
#[derive(Debug, PartialEq, Eq)]
pub struct ImportConfig {
    /// A file of records, or a directory of such files.
    pub input: String,
    /// Where the search backend listens.
    pub connection_string: String,
    /// The dataset that the addresses belong to.
    pub dataset: String,
    /// How many workers read files at a time.
    pub nb_threads: usize,
    pub index_settings: IndexSettings,
    /// Whether identities leave the house number out.
    pub use_old_index_format: bool,
}

/// The number of workers: the number asked for, or one for each
/// logical processor of the host where none was asked for.
pub fn thread_count(requested: Option<usize>, logical_cpus: usize) -> (n: usize)
    ensures
        n == match requested {
            Some(asked) => asked,
            None => logical_cpus,
        },
{
    match requested {
        Some(asked) => asked,
        None => logical_cpus,
    }
}

impl ImportConfig {
    /// The configuration of a run of which only the input is given:
    /// a backend on this host, the dataset `fr`, one worker for each
    /// logical processor, five shards, one replica, and identities that
    /// carry the house number.
    pub fn new(input: String, logical_cpus: usize) -> (config: ImportConfig)
        ensures
            config.input == input,
            config.connection_string@ == "http://localhost:9200/munin"@,
            config.dataset@ == "fr"@,
            config.nb_threads == logical_cpus,
            config.index_settings == (IndexSettings { nb_shards: 5, nb_replicas: 1 }),
            !config.use_old_index_format,
    {
        ImportConfig {
            input: input,
            connection_string: String::from_str("http://localhost:9200/munin"),
            dataset: String::from_str("fr"),
            nb_threads: thread_count(None, logical_cpus),
            index_settings: IndexSettings { nb_shards: 5, nb_replicas: 1 },
            use_old_index_format: false,
        }
    }
}

} // verus!
