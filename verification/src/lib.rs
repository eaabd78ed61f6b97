//! A personal collection of plain-text notes: notes are written in an
//! editor, committed to the collection without ever replacing a file, and
//! listed in an index that can always be made again from the notes.
//!
//! The library decides; its caller touches the file system. Where a step
//! needs a file to be read, written or looked up, the caller does so and
//! hands over what came of it.

use vstd::prelude::*;
use vstd::utf8::{decode_utf8, valid_utf8};

pub mod config;
pub mod edit;
pub mod failure;
pub mod fence;
pub mod index;
pub mod note;
pub mod storage;
pub mod text;
pub mod timestamp;

pub use crate::config::NoteConfig;
pub use crate::edit::{CommandEditor, Editor};
pub use crate::index::{IndexedNote, NoteKind};
pub use crate::note::Preamble as NotePreamble;

use crate::config::{join_path, joined_path};
use crate::edit::{hands_on, open_in_editor, OpenInEditorError};
use crate::failure::{IoFailure, IoFailureKind};
use crate::index::{
    add_note, all_notes, all_notes_with_kind, answers_select, answers_upsert, delete_note, flawed,
    flaws_of_rows, listed, no_path_twice, notes_of_rows, of_kind, opened_as, row_of,
    takes_row_out, DeleteError, IndexListing, InsertError, LookupError, OpenError, ResetError,
    StoredRow,
};
use crate::note::{
    extract_preamble, extraction_of_bytes, filename_stem_for_date, filename_stem_for_title,
    framed, lowercased, parts_of_moment, rendered_document, stem_of_lowered, DatetimeParts,
    Extraction, InvalidPreambleError, Preamble, PreambleView, SerializeError, CREATED_AT_KEY,
    TITLE_KEY,
};
use crate::storage::{
    store_if_different, Commit, Phase, StoreIfDifferentError, StoreNote, StoreNoteAt, StoreNoteIn,
};
use crate::timestamp::{date_text, CalendarDate, DateView, Timestamp};

verus! {

/// Why the first lines of a note could not be put into its file.
#[derive(Debug)]
pub enum WritePreambleError {
    OpenError(IoFailure),
    EncodeError(SerializeError),
    WriteError(IoFailure),
}

/// Why a note could not be put into the index.
#[derive(Debug)]
pub enum IndexNoteError {
    /// The note could not be read.
    OpenError(IoFailure),
    /// The note does not start with a preamble.
    PreambleError(InvalidPreambleError),
    /// The index refused the note.
    IndexError(InsertError),
}

/// Why a new note could not be made.
#[derive(Debug)]
pub enum MakeNoteAtError {
    CreateTempfileError(IoFailure),
    WritePreambleError(WritePreambleError),
    StoreNoteError(StoreIfDifferentError),
    EditorSpawnError(OpenInEditorError),
    IndexNoteError(IndexNoteError),
    IndexOpenError(OpenError),
}

/// Making a note failed.
#[derive(Debug)]
pub struct MakeNoteError {
    pub inner: MakeNoteAtError,
}

/// Why a note that is there could not be edited and indexed again.
#[derive(Debug)]
pub enum OpenExistingNoteInEditorError {
    EditorSpawnError(OpenInEditorError),
    IndexOpenError(OpenError),
    IndexNoteError(IndexNoteError),
}

/// Why a note could not be opened.
#[derive(Debug)]
pub enum OpenExistingNoteError {
    /// The note is not there, or is no file.
    LookupError(IoFailure),
    OpenNoteInEditorError(OpenExistingNoteInEditorError),
}

/// Opening a note failed.
#[derive(Debug)]
pub struct OpenNoteError {
    pub inner: OpenExistingNoteError,
}

/// Why the daily note could be neither opened nor made.
#[derive(Debug)]
pub enum InnerMakeOrOpenDailyNoteError {
    /// It could not be found out whether the daily note is there.
    NoteLookupError { destination: String, err: IoFailure },
    OpenNoteError(OpenExistingNoteInEditorError),
    MakeNoteAtError(MakeNoteAtError),
}

/// Opening or making the daily note failed.
#[derive(Debug)]
pub struct MakeOrOpenDailyNoteError {
    pub inner: InnerMakeOrOpenDailyNoteError,
}

/// Why the collection could not be indexed.
#[derive(Debug)]
pub enum IndexAllNotesError {
    IndexResetError(ResetError),
    IndexOpenError(OpenError),
}

/// Indexing the collection failed.
#[derive(Debug)]
pub struct IndexNotesError {
    pub inner: IndexAllNotesError,
}

/// Why the index could not be listed.
#[derive(Debug)]
pub enum AllIndexedNotesError {
    IndexOpenError(OpenError),
    QueryError(LookupError),
}

/// Listing the index failed.
#[derive(Debug)]
pub struct IndexedNotesError {
    pub inner: AllIndexedNotesError,
}

/// The two line breaks that stand between a new note's preamble and the
/// place where the user starts to write.
pub open spec fn blank_line() -> Seq<char> {
    seq!['\n', '\n']
}

/// The text that a new note starts with: its preamble and a blank line.
pub fn write_preamble(preamble: &Preamble) -> (text: Result<String, WritePreambleError>)
    ensures
        match text {
            Ok(text) => {
                &&& parts_of_moment(preamble@.created_at) matches Ok(parts)
                &&& rendered_document(
                    TITLE_KEY@,
                    preamble@.title,
                    CREATED_AT_KEY@,
                    parts,
                ) matches Some(document)
                &&& text@ == framed(document) + blank_line()
            },
            Err(WritePreambleError::EncodeError(SerializeError::Document(_))) => {
                &&& parts_of_moment(preamble@.created_at) matches Ok(parts)
                &&& rendered_document(
                    TITLE_KEY@,
                    preamble@.title,
                    CREATED_AT_KEY@,
                    parts,
                ) is None
            },
            Err(WritePreambleError::EncodeError(flaw)) => parts_of_moment(preamble@.created_at)
                == Err::<DatetimeParts, SerializeError>(flaw),
            Err(_) => false,
        },
{
    match preamble.serialize() {
        Ok(serialized) => {
            let mut text = serialized;
            text.append("\n\n");
            proof {
                reveal_strlit("\n\n");
                assert("\n\n"@ =~= blank_line());
            }
            Ok(text)
        },
        Err(flaw) => Err(WritePreambleError::EncodeError(flaw)),
    }
}

/// A note that is ready to be staged: what its file starts with, and the
/// strategy that will commit it.
#[derive(Clone, Debug, PartialEq, Eq)]
pub struct Draft<S> {
    pub kind: NoteKind,
    /// The text to stage, and to hold the edited note against: a note that
    /// comes back from the editor with this text is not committed.
    pub text: String,
    pub store: S,
}

impl<S: StoreNote> Draft<S> {
    /// Starts the commit of the draft, once it was staged at `staged_path`
    /// and has come back from the editor: the note is committed with the
    /// draft's strategy, and only if it no longer holds the draft's text.
    pub fn commit(self, staged_path: String) -> (commit: Commit)
        ensures
            commit.strategy() == self.store.plan(),
            commit.staged_path() == staged_path,
            commit.against()@ == self.text@,
            commit.phase() == Phase::Checking,
    {
        let Draft { kind: _, text, store } = self;
        store_if_different(store, staged_path, text.as_str())
    }
}

/// Prepares a new note with the given title. Its file will stand in the
/// directory of notes, under a name as close to the title as can be.
pub fn make_note(config: &NoteConfig, title: String, creation_time: &Timestamp) -> (draft: Result<
    Draft<StoreNoteIn>,
    MakeNoteError,
>)
    ensures
        match draft {
            Ok(draft) => {
                &&& draft.kind == NoteKind::Note
                &&& draft.store.storage_directory@ == joined_path(config.root_dir@, "notes"@)
                &&& draft.store.preferred_file_stem@ == stem_of_lowered(lowercased(title@))
                &&& draft.store.file_extension == config.file_extension
                &&& parts_of_moment(creation_time@) matches Ok(parts)
                &&& rendered_document(TITLE_KEY@, title@, CREATED_AT_KEY@, parts) matches Some(
                    document,
                )
                &&& draft.text@ == framed(document) + blank_line()
            },
            Err(error) => {
                &&& error.inner matches MakeNoteAtError::WritePreambleError(
                    WritePreambleError::EncodeError(_),
                )
                &&& parts_of_moment(creation_time@) matches Ok(parts) ==> rendered_document(
                    TITLE_KEY@,
                    title@,
                    CREATED_AT_KEY@,
                    parts,
                ) is None
            },
        },
{
    let store = StoreNoteIn {
        storage_directory: config.notes_directory_path(),
        preferred_file_stem: filename_stem_for_title(title.as_str()),
        file_extension: config.file_extension.clone(),
    };
    let preamble = Preamble::new(title, *creation_time);
    match write_preamble(&preamble) {
        Ok(text) => Ok(Draft { kind: NoteKind::Note, text, store }),
        Err(error) => Err(MakeNoteError { inner: MakeNoteAtError::WritePreambleError(error) }),
    }
}

/// Tells whether a note is there, from what looking up its path gave:
/// whether the path is a directory, or why that could not be told. A
/// directory is no note.
pub fn ensure_note_exists(metadata: Result<bool, IoFailure>) -> (found: Result<(), IoFailure>)
    ensures
        match metadata {
            Ok(is_directory) => if is_directory {
                found matches Err(failure) && failure.kind == IoFailureKind::IsADirectory
                    && failure.message@ == "file is a directory"@
            } else {
                found is Ok
            },
            Err(failure) => found == Err::<(), IoFailure>(failure),
        },
{
    match metadata {
        Ok(is_directory) => {
            if is_directory {
                Err(
                    IoFailure {
                        kind: IoFailureKind::IsADirectory,
                        message: String::from_str("file is a directory"),
                    },
                )
            } else {
                Ok(())
            }
        },
        Err(failure) => Err(failure),
    }
}

/// An offset for the daily note moved the time of day, not only the date.
#[derive(Clone, Copy, Debug, PartialEq, Eq)]
pub struct InvalidOffsetError;

/// The date that an offset from today stands for, given the moment that the
/// offset led to when counted from midnight: its date and how many seconds
/// into the day it lies. Only an offset of whole days names a daily note.
pub fn fuzzy_offset_from_date(changed: CalendarDate, seconds_from_midnight: u32) -> (date: Result<
    CalendarDate,
    InvalidOffsetError,
>)
    ensures
        date == if seconds_from_midnight > 0 {
            Err::<CalendarDate, InvalidOffsetError>(InvalidOffsetError)
        } else {
            Ok::<CalendarDate, InvalidOffsetError>(changed)
        },
{
    if seconds_from_midnight > 0 {
        Err(InvalidOffsetError)
    } else {
        Ok(changed)
    }
}

/// The path of the daily note of a date.
pub open spec fn daily_destination_text(config: NoteConfig, date: DateView) -> Seq<char> {
    joined_path(
        joined_path(config.root_dir@, "daily"@),
        date_text(date.year, date.month, date.day) + seq!['.'] + config.file_extension@,
    )
}

/// The path of the daily note of `date`.
pub fn daily_destination(config: &NoteConfig, date: CalendarDate) -> (destination: String)
    ensures
        destination@ == daily_destination_text(*config, date@),
{
    let mut file_name = filename_stem_for_date(date);
    file_name.push('.');
    file_name.append(config.file_extension.as_str());
    assert(file_name@ =~= date_text(date@.year, date@.month, date@.day) + seq!['.']
        + config.file_extension@);
    join_path(config.daily_directory_path().as_str(), file_name.as_str())
}

/// What to do for the daily note of a date.
#[derive(Clone, Debug, PartialEq, Eq)]
pub enum DailyPlan {
    /// It is there: edit it where it is.
    Open { destination: String },
    /// It is not there: stage this draft and commit it at the exact path.
    Create(Draft<StoreNoteAt>),
}

/// Decides whether the daily note of `date` is opened or made, from what
/// looking up `daily_destination` gave. A new daily note has the date as its
/// title and is committed at that exact path.
pub fn make_or_open_daily(
    config: &NoteConfig,
    date: CalendarDate,
    creation_time: &Timestamp,
    metadata: Result<bool, IoFailure>,
) -> (plan: Result<DailyPlan, MakeOrOpenDailyNoteError>)
    ensures
        match plan {
            Ok(DailyPlan::Open { destination }) => {
                &&& metadata == Ok::<bool, IoFailure>(false)
                &&& destination@ == daily_destination_text(*config, date@)
            },
            Ok(DailyPlan::Create(draft)) => {
                &&& metadata matches Err(failure)
                &&& failure.kind == IoFailureKind::NotFound
                &&& draft.kind == NoteKind::Daily
                &&& draft.store.destination@ == daily_destination_text(*config, date@)
                &&& parts_of_moment(creation_time@) matches Ok(parts)
                &&& rendered_document(
                    TITLE_KEY@,
                    date_text(date@.year, date@.month, date@.day),
                    CREATED_AT_KEY@,
                    parts,
                ) matches Some(document)
                &&& draft.text@ == framed(document) + blank_line()
            },
            Err(error) => match error.inner {
                InnerMakeOrOpenDailyNoteError::NoteLookupError { destination, err } => {
                    &&& destination@ == daily_destination_text(*config, date@)
                    &&& err.kind != IoFailureKind::NotFound
                    &&& metadata matches Ok(is_directory) ==> is_directory && err.kind
                        == IoFailureKind::IsADirectory
                    &&& metadata matches Err(failure) ==> err == failure
                },
                InnerMakeOrOpenDailyNoteError::MakeNoteAtError(
                    MakeNoteAtError::WritePreambleError(WritePreambleError::EncodeError(_)),
                ) => {
                    &&& metadata matches Err(failure)
                    &&& failure.kind == IoFailureKind::NotFound
                    &&& parts_of_moment(creation_time@) matches Ok(parts) ==> rendered_document(
                        TITLE_KEY@,
                        date_text(date@.year, date@.month, date@.day),
                        CREATED_AT_KEY@,
                        parts,
                    ) is None
                },
                _ => false,
            },
        },
{
    let destination = daily_destination(config, date);
    match ensure_note_exists(metadata) {
        Ok(()) => Ok(DailyPlan::Open { destination }),
        Err(err) => {
            match err.kind {
                IoFailureKind::NotFound => {
                    let preamble = Preamble::new(filename_stem_for_date(date), *creation_time);
                    match write_preamble(&preamble) {
                        Ok(text) => Ok(
                            DailyPlan::Create(
                                Draft {
                                    kind: NoteKind::Daily,
                                    text,
                                    store: StoreNoteAt { destination },
                                },
                            ),
                        ),
                        Err(error) => Err(
                            MakeOrOpenDailyNoteError {
                                inner: InnerMakeOrOpenDailyNoteError::MakeNoteAtError(
                                    MakeNoteAtError::WritePreambleError(error),
                                ),
                            },
                        ),
                    }
                },
                _ => Err(
                    MakeOrOpenDailyNoteError {
                        inner: InnerMakeOrOpenDailyNoteError::NoteLookupError { destination, err },
                    },
                ),
            }
        },
    }
}

/// Lets the user edit a note that is there. `metadata` is what looking up
/// `path` gave: whether it is a directory, or why that could not be told. A
/// note that is there is handed to the editor, and the editor's answer is the
/// result: where the editor fails, opening the note fails. Once the editor is
/// done, the note has to be indexed again with `reindex_note`.
pub fn open_note<E: Editor>(editor: &E, path: &str, metadata: Result<bool, IoFailure>) -> (opened:
    Result<(), OpenNoteError>)
    ensures
        match opened {
            Ok(_) => metadata == Ok::<bool, IoFailure>(false),
            Err(error) => match error.inner {
                OpenExistingNoteError::LookupError(err) => {
                    &&& metadata matches Ok(is_directory) ==> is_directory && err.kind
                        == IoFailureKind::IsADirectory
                    &&& metadata matches Err(failure) ==> err == failure
                },
                OpenExistingNoteError::OpenNoteInEditorError(
                    OpenExistingNoteInEditorError::EditorSpawnError(_),
                ) => metadata == Ok::<bool, IoFailure>(false),
                _ => false,
            },
        },
        metadata == Ok::<bool, IoFailure>(false) ==> hands_on(
            editor,
            path,
            match opened {
                Err(
                    OpenNoteError {
                        inner: OpenExistingNoteError::OpenNoteInEditorError(
                            OpenExistingNoteInEditorError::EditorSpawnError(spawn),
                        ),
                    },
                ) => Err::<(), OpenInEditorError>(spawn),
                _ => Ok::<(), OpenInEditorError>(()),
            },
        ),
{
    match ensure_note_exists(metadata) {
        Ok(()) => {},
        Err(err) => {
            return Err(OpenNoteError { inner: OpenExistingNoteError::LookupError(err) });
        },
    }
    match open_in_editor(editor, path) {
        Ok(()) => Ok(()),
        Err(error) => Err(
            OpenNoteError {
                inner: OpenExistingNoteError::OpenNoteInEditorError(
                    OpenExistingNoteInEditorError::EditorSpawnError(error),
                ),
            },
        ),
    }
}

/// The preamble at the top of a note's file, given what reading the file
/// gave; `None` where the file could not be read or starts with no preamble.
pub open spec fn preamble_of_file(opened: Result<Vec<u8>, IoFailure>) -> Option<PreambleView> {
    match opened {
        Ok(contents) => match extraction_of_bytes(contents@) {
            Extraction::Found(preamble) => Some(preamble),
            _ => None,
        },
        Err(_) => None,
    }
}

/// Whether `error` is why the note read as `opened`, at `path`, has no place
/// in the index, as far as that is decided before the database is asked.
pub open spec fn refuses(error: IndexNoteError, path: Seq<u8>, opened: Result<
    Vec<u8>,
    IoFailure,
>) -> bool {
    match error {
        IndexNoteError::OpenError(failure) => opened == Err::<Vec<u8>, IoFailure>(failure),
        IndexNoteError::PreambleError(error) => opened matches Ok(contents) && error.explains(
            extraction_of_bytes(contents@),
        ),
        IndexNoteError::IndexError(InsertError::BadPath(bytes)) => preamble_of_file(opened)
            is Some && !valid_utf8(path) && bytes@ == path,
        IndexNoteError::IndexError(InsertError::DatabaseError(_)) => preamble_of_file(opened)
            is Some && valid_utf8(path),
    }
}

/// Whether `row` is the row that stands for the note read as `opened`, of
/// the given kind and at `path`.
pub open spec fn stands_for(row: StoredRow, kind: NoteKind, path: Seq<u8>, opened: Result<
    Vec<u8>,
    IoFailure,
>) -> bool {
    &&& preamble_of_file(opened) matches Some(preamble)
    &&& valid_utf8(path)
    &&& row@ == row_of(preamble, kind, decode_utf8(path))
}

/// Whether `indexed` is what comes of handing the note read as `opened` to
/// the index: a note that starts with a preamble and has a path that is text
/// has its row handed to the database, and the database's answer decides;
/// every other note is refused before the database is asked.
pub open spec fn indexes(
    connection: &rusqlite::Connection,
    kind: NoteKind,
    path: Seq<u8>,
    opened: Result<Vec<u8>, IoFailure>,
    indexed: Result<StoredRow, IndexNoteError>,
) -> bool {
    if preamble_of_file(opened) is Some && valid_utf8(path) {
        exists|row: StoredRow, executed: Result<usize, rusqlite::Error>|
            {
                &&& row@ == row_of(preamble_of_file(opened)->Some_0, kind, decode_utf8(path))
                &&& #[trigger] answers_upsert(connection, row, executed)
                &&& indexed == match executed {
                    Ok(_) => Ok::<StoredRow, IndexNoteError>(row),
                    Err(refusal) => Err::<StoredRow, IndexNoteError>(
                        IndexNoteError::IndexError(InsertError::DatabaseError(refusal)),
                    ),
                }
            }
    } else {
        indexed matches Err(error) && refuses(error, path, opened)
    }
}

/// Puts the note at `path` into the index, and gives back the row that now
/// stands for it. `opened` is what reading the note's file gave. Only a note
/// that could be read, starts with a preamble and has a path that is text is
/// handed to the database, and then the database's answer is passed on.
pub fn index_note(
    connection: &rusqlite::Connection,
    kind: NoteKind,
    path: &[u8],
    opened: Result<Vec<u8>, IoFailure>,
) -> (indexed: Result<StoredRow, IndexNoteError>)
    ensures
        match indexed {
            Ok(row) => stands_for(row, kind, path@, opened),
            Err(error) => refuses(error, path@, opened),
        },
        indexes(connection, kind, path@, opened, indexed),
{
    let contents = match opened {
        Ok(contents) => contents,
        Err(failure) => return Err(IndexNoteError::OpenError(failure)),
    };
    let preamble = match extract_preamble(contents.as_slice()) {
        Ok(preamble) => preamble,
        Err(error) => return Err(IndexNoteError::PreambleError(error)),
    };
    match add_note(connection, &preamble, kind, path) {
        Ok(row) => Ok(row),
        Err(error) => Err(IndexNoteError::IndexError(error)),
    }
}

/// How a note fared in the index after it was edited.
#[derive(Debug)]
pub enum Reindexed {
    /// This row now stands for it.
    Indexed(StoredRow),
    /// It starts with no preamble any more, and its row was taken out.
    Removed { error: InvalidPreambleError },
    /// It starts with no preamble any more, and its row could not be taken
    /// out: the index holds a stale row until the collection is indexed anew.
    Stale { error: InvalidPreambleError, delete_error: DeleteError },
}

/// Brings the index up to date with a note that was just edited. A note
/// that starts with no preamble any more is taken out of the index, so that
/// no row describes what the note no longer says; that is no failure. The
/// database is asked to take the row out, and its answer tells `Removed`
/// from `Stale`.
pub fn reindex_note(
    connection: &rusqlite::Connection,
    kind: NoteKind,
    path: &[u8],
    opened: Result<Vec<u8>, IoFailure>,
) -> (reindexed: Result<Reindexed, OpenExistingNoteInEditorError>)
    ensures
        match reindexed {
            Ok(Reindexed::Indexed(row)) => stands_for(row, kind, path@, opened),
            Ok(Reindexed::Removed { error }) => {
                &&& opened matches Ok(contents)
                &&& error.explains(extraction_of_bytes(contents@))
                &&& valid_utf8(path@)
            },
            Ok(Reindexed::Stale { error, delete_error }) => {
                &&& opened matches Ok(contents)
                &&& error.explains(extraction_of_bytes(contents@))
                &&& delete_error is BadPath <==> !valid_utf8(path@)
            },
            Err(OpenExistingNoteInEditorError::IndexNoteError(error)) => refuses(
                error,
                path@,
                opened,
            ) && !(error is PreambleError),
            Err(_) => false,
        },
        match reindexed {
            Ok(Reindexed::Indexed(row)) => indexes(
                connection,
                kind,
                path@,
                opened,
                Ok::<StoredRow, IndexNoteError>(row),
            ),
            Ok(Reindexed::Removed { error }) => takes_row_out(
                connection,
                decode_utf8(path@),
                Ok::<(), DeleteError>(()),
            ),
            Ok(Reindexed::Stale { error, delete_error }) => if valid_utf8(path@) {
                takes_row_out(
                    connection,
                    decode_utf8(path@),
                    Err::<(), DeleteError>(delete_error),
                )
            } else {
                delete_error matches DeleteError::BadPath(bytes) && bytes@ == path@
            },
            Err(OpenExistingNoteInEditorError::IndexNoteError(error)) => indexes(
                connection,
                kind,
                path@,
                opened,
                Err::<StoredRow, IndexNoteError>(error),
            ),
            Err(_) => false,
        },
{
    match index_note(connection, kind, path, opened) {
        Ok(row) => Ok(Reindexed::Indexed(row)),
        Err(IndexNoteError::PreambleError(error)) => match delete_note(connection, path) {
            Ok(()) => Ok(Reindexed::Removed { error }),
            Err(delete_error) => Ok(Reindexed::Stale { error, delete_error }),
        },
        Err(error) => Err(OpenExistingNoteInEditorError::IndexNoteError(error)),
    }
}

/// A file that a walk of the collection came upon: its kind by the directory
/// it lies in, its path as the system holds it, and what reading it gave.
#[derive(Debug, PartialEq, Eq)]
pub struct ScannedNote {
    pub kind: NoteKind,
    pub path: Vec<u8>,
    pub opened: Result<Vec<u8>, IoFailure>,
}

impl ScannedNote {
    /// Whether `outcome` is what became of the file: the row that stands for
    /// it, or why it has no place in the index.
    pub open spec fn fared(self, outcome: Result<StoredRow, IndexNoteError>) -> bool {
        match outcome {
            Ok(row) => stands_for(row, self.kind, self.path@, self.opened),
            Err(error) => refuses(error, self.path@, self.opened),
        }
    }

    /// Whether `outcome` is what became of the file when it was handed to
    /// the index behind `connection`.
    pub open spec fn indexed_as(
        self,
        connection: &rusqlite::Connection,
        outcome: Result<StoredRow, IndexNoteError>,
    ) -> bool {
        self.fared(outcome) && indexes(connection, self.kind, self.path@, self.opened, outcome)
    }
}

/// Puts every scanned file into the index, one after the other. A file that
/// fails does not keep the others from being indexed: what became of each
/// comes back in the order of the files.
pub fn index_all_notes(connection: &rusqlite::Connection, files: Vec<ScannedNote>) -> (outcomes:
    Vec<Result<StoredRow, IndexNoteError>>)
    ensures
        outcomes.len() == files.len(),
        forall|i: int|
            0 <= i < files.len() ==> files[i].indexed_as(connection, #[trigger] outcomes[i]),
{
    let mut outcomes: Vec<Result<StoredRow, IndexNoteError>> = Vec::new();
    let ghost all = files@;
    let mut remaining = files;
    let mut index: usize = 0;
    let total = remaining.len();
    while index < total
        invariant
            total == all.len(),
            remaining.len() == total,
            index <= total,
            outcomes.len() == index,
            forall|i: int| index <= i < total ==> remaining[i] == all[i],
            forall|i: int|
                0 <= i < index ==> all[i].indexed_as(connection, #[trigger] outcomes[i]),
        decreases total - index,
    {
        let mut file = ScannedNote {
            kind: remaining[index].kind,
            path: Vec::new(),
            opened: Ok(Vec::new()),
        };
        remaining.set_and_swap(index, &mut file);
        let outcome = index_note(connection, file.kind, file.path.as_slice(), file.opened);
        outcomes.push(outcome);
        index = index + 1;
    }
    outcomes
}

/// Whether `outcomes` is what comes of what opening the index gave: the
/// refusal to open it, or what became of each file when it was handed to the
/// index, in the order of the files.
pub open spec fn reports_indexing(
    opened: Result<rusqlite::Connection, OpenError>,
    files: Seq<ScannedNote>,
    outcomes: Result<Vec<Result<StoredRow, IndexNoteError>>, IndexNotesError>,
) -> bool {
    match opened {
        Ok(connection) => {
            &&& outcomes matches Ok(fared)
            &&& fared.len() == files.len()
            &&& forall|i: int|
                0 <= i < files.len() ==> files[i].indexed_as(&connection, #[trigger] fared[i])
        },
        Err(refusal) => outcomes matches Err(error) && error.inner
            == IndexAllNotesError::IndexOpenError(refusal),
    }
}

/// Whether `outcomes` is what comes of filling the index of the collection
/// with `files`: the index is opened in its file under the root, and every
/// file is handed to it.
pub open spec fn fills_index(
    config: NoteConfig,
    files: Seq<ScannedNote>,
    outcomes: Result<Vec<Result<StoredRow, IndexNoteError>>, IndexNotesError>,
) -> bool {
    exists|path: &str, opened: Result<rusqlite::Connection, OpenError>|
        {
            &&& path@ == joined_path(config.root_dir@, ".index.sqlite3"@)
            &&& #[trigger] opened_as(path, opened)
            &&& reports_indexing(opened, files, outcomes)
        }
}

/// Indexes the collection anew from the files that a walk of its two
/// directories came upon: opens the index in its file under the root and
/// hands it every file. The index file has to have been emptied before, so
/// that rows of notes that are gone do not stay. Only the refusal to open the
/// index is a failure of the whole.
pub fn index_notes(config: &NoteConfig, files: Vec<ScannedNote>) -> (outcomes: Result<
    Vec<Result<StoredRow, IndexNoteError>>,
    IndexNotesError,
>)
    ensures
        match outcomes {
            Ok(outcomes) => {
                &&& outcomes.len() == files.len()
                &&& forall|i: int| 0 <= i < files.len() ==> files[i].fared(#[trigger] outcomes[i])
            },
            Err(error) => error.inner is IndexOpenError,
        },
        fills_index(*config, files@, outcomes),
{
    let path = config.index_db_path();
    let file = path.as_str();
    let opened = index::open(file);
    proof {
        assert(opened_as(file, opened));
    }
    let outcomes = match opened {
        Ok(connection) => Ok(index_all_notes(&connection, files)),
        Err(error) => Err(IndexNotesError { inner: IndexAllNotesError::IndexOpenError(error) }),
    };
    proof {
        assert(reports_indexing(opened, files@, outcomes));
    }
    outcomes
}

/// Indexes the collection anew, from the attempt to empty the index file on.
/// `truncated` is what emptying the file gave, and `files` what a walk of the
/// two directories came upon. Where the file could not be emptied, nothing is
/// indexed, so that no row of a note that is gone stays beside the new ones;
/// a file that is not there yet is as good as an empty one.
pub fn index_notes_anew(
    config: &NoteConfig,
    truncated: Result<(), IoFailure>,
    files: Vec<ScannedNote>,
) -> (outcomes: Result<Vec<Result<StoredRow, IndexNoteError>>, IndexNotesError>)
    ensures
        match truncated {
            Err(failure) if failure.kind != IoFailureKind::NotFound => {
                &&& outcomes matches Err(error)
                &&& error.inner == IndexAllNotesError::IndexResetError(ResetError(failure))
            },
            _ => fills_index(*config, files@, outcomes),
        },
{
    match index::reset(truncated) {
        Ok(()) => index_notes(config, files),
        Err(error) => Err(IndexNotesError { inner: IndexAllNotesError::IndexResetError(error) }),
    }
}

/// Whether `listing` is what comes of the database's answer `queried` to the
/// request for every row: the notes that the rows stand for, those of `kind`
/// only where a kind is asked for, with the rows that stand for no note
/// beside them; or the database's refusal.
pub open spec fn reports_rows(
    queried: Result<Vec<StoredRow>, rusqlite::Error>,
    kind: Option<NoteKind>,
    listing: Result<IndexListing, IndexedNotesError>,
) -> bool {
    match queried {
        Ok(rows) => {
            &&& listing matches Ok(found)
            &&& listed(found.notes@) == match kind {
                Some(kind) => of_kind(notes_of_rows(rows@), kind),
                None => notes_of_rows(rows@),
            }
            &&& flawed(found.skipped@) == flaws_of_rows(rows@)
        },
        Err(refusal) => listing matches Err(error) && error.inner
            == AllIndexedNotesError::QueryError(LookupError(refusal)),
    }
}

/// Whether `listing` is what comes of what opening the index gave: the
/// refusal to open it, or what comes of the database's answer to the request
/// for every row.
pub open spec fn reports_index(
    opened: Result<rusqlite::Connection, OpenError>,
    kind: Option<NoteKind>,
    listing: Result<IndexListing, IndexedNotesError>,
) -> bool {
    match opened {
        Ok(connection) => exists|queried: Result<Vec<StoredRow>, rusqlite::Error>| #[trigger]
            answers_select(&connection, queried) && reports_rows(queried, kind, listing),
        Err(refusal) => listing matches Err(error) && error.inner
            == AllIndexedNotesError::IndexOpenError(refusal),
    }
}

/// Whether `listing` is what listing the index of the collection gives: the
/// index is opened in its file under the root, every row is asked for, and
/// the notes are read out of the answer.
pub open spec fn lists_index(
    config: NoteConfig,
    kind: Option<NoteKind>,
    listing: Result<IndexListing, IndexedNotesError>,
) -> bool {
    exists|path: &str, opened: Result<rusqlite::Connection, OpenError>|
        {
            &&& path@ == joined_path(config.root_dir@, ".index.sqlite3"@)
            &&& #[trigger] opened_as(path, opened)
            &&& reports_index(opened, kind, listing)
        }
}

/// Opens the index of the collection and lists it, every note or those of
/// one kind.
fn list_index(config: &NoteConfig, kind: Option<NoteKind>) -> (listing: Result<
    IndexListing,
    IndexedNotesError,
>)
    ensures
        lists_index(*config, kind, listing),
        listing matches Ok(found) ==> no_path_twice(listed(found.notes@)),
{
    let path = config.index_db_path();
    let file = path.as_str();
    let opened = index::open(file);
    proof {
        assert(opened_as(file, opened));
    }
    let listing = match opened {
        Ok(connection) => {
            let looked_up = match kind {
                Some(kind) => all_notes_with_kind(&connection, kind),
                None => all_notes(&connection),
            };
            match looked_up {
                Ok(listing) => Ok(listing),
                Err(error) => Err(
                    IndexedNotesError { inner: AllIndexedNotesError::QueryError(error) },
                ),
            }
        },
        Err(error) => Err(
            IndexedNotesError { inner: AllIndexedNotesError::IndexOpenError(error) },
        ),
    };
    proof {
        assert(reports_index(opened, kind, listing));
    }
    listing
}

/// Lists the notes of the index, each with its path: opens the index, asks
/// for every row and reads the notes out of the answer. Whether the index
/// opens and what it answers is up to the database.
pub fn indexed_notes(config: &NoteConfig) -> (listing: Result<IndexListing, IndexedNotesError>)
    ensures
        lists_index(*config, None, listing),
        listing matches Ok(found) ==> no_path_twice(listed(found.notes@)),
{
    list_index(config, None)
}

/// Lists the notes of one kind, each with its path: opens the index, asks
/// for every row, reads the notes out of the answer and keeps those of the
/// kind. Whether the index opens and what it answers is up to the database.
pub fn indexed_notes_with_kind(config: &NoteConfig, kind: NoteKind) -> (listing: Result<
    IndexListing,
    IndexedNotesError,
>)
    ensures
        lists_index(*config, Some(kind), listing),
        listing matches Ok(found) ==> no_path_twice(listed(found.notes@)),
{
    list_index(config, Some(kind))
}

/// What a walk of a directory came upon.
#[derive(Debug, PartialEq, Eq)]
pub enum WalkedEntry {
    /// An entry, with its path as the system holds it.
    Found { path: Vec<u8>, is_directory: bool },
    /// A place that could not be read, with its path where that is known.
    Failed { path: Option<String>, err: IoFailure },
}

/// A place of the collection that the walk could not read.
#[derive(Debug, PartialEq, Eq)]
pub struct TraverseFailure {
    pub path: Option<String>,
    pub err: IoFailure,
}

/// The files of the collection, and the places that could not be read.
#[derive(Debug, PartialEq, Eq)]
pub struct NoteFiles {
    pub files: Vec<(NoteKind, Vec<u8>)>,
    pub unreadable: Vec<TraverseFailure>,
}

/// The entries that are files, each with `kind`, in the order of the walk.
pub open spec fn files_among(kind: NoteKind, entries: Seq<WalkedEntry>) -> Seq<
    (NoteKind, Seq<u8>),
>
    decreases entries.len(),
{
    if entries.len() == 0 {
        Seq::empty()
    } else {
        match entries.last() {
            WalkedEntry::Found { path, is_directory } if !is_directory => files_among(
                kind,
                entries.drop_last(),
            ).push((kind, path@)),
            _ => files_among(kind, entries.drop_last()),
        }
    }
}

/// The places that could not be read, in the order of the walk.
pub open spec fn failures_among(entries: Seq<WalkedEntry>) -> Seq<TraverseFailure>
    decreases entries.len(),
{
    if entries.len() == 0 {
        Seq::empty()
    } else {
        match entries.last() {
            WalkedEntry::Failed { path, err } => failures_among(entries.drop_last()).push(
                TraverseFailure { path, err },
            ),
            _ => failures_among(entries.drop_last()),
        }
    }
}

/// Files with their kinds, as values of specifications.
pub open spec fn walked(files: Seq<(NoteKind, Vec<u8>)>) -> Seq<(NoteKind, Seq<u8>)> {
    files.map_values(|file: (NoteKind, Vec<u8>)| (file.0, file.1@))
}

/// What to make of one entry of a walk: a place that could not be read is
/// handed back to be warned of.
pub fn unpack_walkdir_entry_result(entry: WalkedEntry) -> (unpacked: Result<
    (Vec<u8>, bool),
    TraverseFailure,
>)
    ensures
        match entry {
            WalkedEntry::Found { path, is_directory } => unpacked == Ok::<
                (Vec<u8>, bool),
                TraverseFailure,
            >((path, is_directory)),
            WalkedEntry::Failed { path, err } => unpacked == Err::<
                (Vec<u8>, bool),
                TraverseFailure,
            >(TraverseFailure { path, err }),
        },
{
    match entry {
        WalkedEntry::Found { path, is_directory } => Ok((path, is_directory)),
        WalkedEntry::Failed { path, err } => Err(TraverseFailure { path, err }),
    }
}

/// Sorts the entries of one walk into files and failures.
fn gather_files(
    kind: NoteKind,
    entries: Vec<WalkedEntry>,
    files: &mut Vec<(NoteKind, Vec<u8>)>,
    unreadable: &mut Vec<TraverseFailure>,
)
    ensures
        walked(final(files)@) == walked(old(files)@) + files_among(kind, entries@),
        final(unreadable)@ == old(unreadable)@ + failures_among(entries@),
{
    let ghost all = entries@;
    let ghost files_before = files@;
    let ghost unreadable_before = unreadable@;
    let mut remaining = entries;
    let total = remaining.len();
    let mut index: usize = 0;
    proof {
        assert(all.take(0) =~= Seq::<WalkedEntry>::empty());
        assert(walked(files@) =~= walked(files_before) + files_among(kind, all.take(0)));
        assert(unreadable@ =~= unreadable_before + failures_among(all.take(0)));
    }
    while index < total
        invariant
            total == all.len(),
            remaining.len() == total,
            index <= total,
            forall|i: int| index <= i < total ==> remaining[i] == all[i],
            walked(files@) == walked(files_before) + files_among(kind, all.take(index as int)),
            unreadable@ == unreadable_before + failures_among(all.take(index as int)),
        decreases total - index,
    {
        proof {
            let seen = all.take(index as int + 1);
            assert(seen.drop_last() =~= all.take(index as int));
            assert(seen.last() == all[index as int]);
        }
        let ghost files_so_far = files@;
        let ghost unreadable_so_far = unreadable@;
        let mut entry = WalkedEntry::Found { path: Vec::new(), is_directory: true };
        remaining.set_and_swap(index, &mut entry);
        match unpack_walkdir_entry_result(entry) {
            Ok((path, is_directory)) => {
                if !is_directory {
                    files.push((kind, path));
                    assert(walked(files@) =~= walked(files_so_far).push((kind, path@)));
                    assert(walked(files@) =~= walked(files_before) + files_among(
                        kind,
                        all.take(index as int + 1),
                    ));
                }
            },
            Err(failure) => {
                unreadable.push(failure);
                assert(unreadable@ =~= unreadable_before + failures_among(
                    all.take(index as int + 1),
                ));
            },
        }
        index = index + 1;
    }
    proof {
        assert(all.take(total as int) =~= all);
    }
}

/// The files of the collection, as far as they can be had: every entry of
/// the walk of the notes and then of the walk of the dailies that is no
/// directory. A place that could not be read is handed back to be warned of
/// and does not keep the rest from being found.
pub fn note_file_paths(notes: Vec<WalkedEntry>, dailies: Vec<WalkedEntry>) -> (found: NoteFiles)
    ensures
        walked(found.files@) == files_among(NoteKind::Note, notes@) + files_among(
            NoteKind::Daily,
            dailies@,
        ),
        found.unreadable@ == failures_among(notes@) + failures_among(dailies@),
{
    let mut files: Vec<(NoteKind, Vec<u8>)> = Vec::new();
    let mut unreadable: Vec<TraverseFailure> = Vec::new();
    gather_files(NoteKind::Note, notes, &mut files, &mut unreadable);
    gather_files(NoteKind::Daily, dailies, &mut files, &mut unreadable);
    proof {
        assert(walked(Seq::<(NoteKind, Vec<u8>)>::empty()) =~= Seq::<(NoteKind, Seq<u8>)>::empty());
        assert(walked(files@) =~= files_among(NoteKind::Note, notes@) + files_among(
            NoteKind::Daily,
            dailies@,
        ));
        assert(unreadable@ =~= failures_among(notes@) + failures_among(dailies@));
    }
    NoteFiles { files, unreadable }
}

/// A note whose file cannot be read or starts with no preamble gets no row
/// when the collection is indexed, and every other note gets the row that
/// stands for it or is refused by the database alone. A note that is gone
/// from the walk is gone from the outcomes: they speak of the scanned files
/// and of nothing else.
pub proof fn lemma_rows_follow_files(file: ScannedNote, outcome: Result<StoredRow, IndexNoteError>)
    requires
        file.fared(outcome),
    ensures
        preamble_of_file(file.opened) is None ==> outcome is Err,
        !valid_utf8(file.path@) ==> outcome is Err,
        outcome matches Ok(row) ==> row@.filepath == decode_utf8(file.path@) && row@.kind
            == file.kind.sql_text() && row@.title == preamble_of_file(file.opened)->Some_0.title,
        outcome matches Err(error) ==> (preamble_of_file(file.opened) is Some && valid_utf8(
            file.path@,
        ) <==> error matches IndexNoteError::IndexError(InsertError::DatabaseError(_))),
{
}

} // verus!
