//! The index of the collection: one row for each note, keyed by the note's
//! path, in a SQLite database. The index is a cache. Every row can be made
//! again from the note it stands for.

use vstd::prelude::*;
use vstd::slice::slice_to_vec;
use vstd::utf8::{decode_utf8, valid_utf8};

use crate::failure::{IoFailure, IoFailureKind};
use crate::text::text_of_bytes;

use crate::note::{Preamble, PreambleView};
use crate::timestamp::{
    is_utc_offset, moment_text, parsed_moment, Timestamp, TimestampView, MOMENT_PATTERN,
};

verus! {

/// The kind of a note: one the user titled, or one keyed by its calendar date.
#[derive(Clone, Copy, Debug, PartialEq, Eq, Structural)]
pub enum NoteKind {
    Note,
    Daily,
}

/// What the index knows of a note.
#[derive(Clone, Debug, PartialEq, Eq)]
pub struct IndexedNote {
    pub preamble: Preamble,
    pub kind: NoteKind,
}

/// An indexed note as a value of specifications.
pub struct IndexedNoteView {
    pub preamble: PreambleView,
    pub kind: NoteKind,
}

impl View for IndexedNote {
    type V = IndexedNoteView;

    open spec fn view(&self) -> IndexedNoteView {
        IndexedNoteView { preamble: self.preamble@, kind: self.kind }
    }
}

/// A row of the table `notes`, as the database holds it.
#[derive(Clone, Debug, PartialEq, Eq)]
pub struct StoredRow {
    pub filepath: String,
    pub title: String,
    pub created_at: String,
    pub utc_offset_seconds: i32,
    pub kind: String,
}

/// A row as a value of specifications.
pub struct RowView {
    pub filepath: Seq<char>,
    pub title: Seq<char>,
    pub created_at: Seq<char>,
    pub utc_offset_seconds: int,
    pub kind: Seq<char>,
}

impl View for StoredRow {
    type V = RowView;

    open spec fn view(&self) -> RowView {
        RowView {
            filepath: self.filepath@,
            title: self.title@,
            created_at: self.created_at@,
            utc_offset_seconds: self.utc_offset_seconds as int,
            kind: self.kind@,
        }
    }
}

/// The statement that makes the table as it first was.
pub const CREATE_NOTES: &'static str =
    "CREATE TABLE notes (
                filepath TEXT PRIMARY KEY,
                title TEXT NOT NULL,
                created_at DATETIME NOT NULL,
                utc_offset_seconds INTEGER NOT NULL
            );";

/// The statements that add the column `kind`. Every row that is there
/// already becomes a `note`: the index can be made again, so nothing is lost.
pub const ADD_KIND: &'static str =
    "
            CREATE TEMPORARY TABLE intermediate_notes AS
                SELECT
                    filepath, title, created_at, utc_offset_seconds, 'note'
                FROM notes;
            DROP TABLE notes;
            CREATE TABLE notes (
                filepath TEXT PRIMARY KEY,
                title TEXT NOT NULL,
                created_at DATETIME NOT NULL,
                utc_offset_seconds INTEGER NOT NULL,
                kind CHECK (kind IN ('note', 'daily')) NOT NULL
            );
            INSERT INTO notes SELECT * FROM intermediate_notes;
            DROP TABLE intermediate_notes;
        ";

/// The statement that puts a row in, or in the place of the row with the same
/// path.
pub const UPSERT_NOTE: &'static str =
    "INSERT INTO notes VALUES (?1, ?2, ?3, ?4, ?5)
                ON CONFLICT(filepath) DO UPDATE SET
                    title=?2,
                    created_at=?3,
                    utc_offset_seconds=?4,
                    kind=?5
            ;";

/// The statement that reads every row.
pub const SELECT_NOTES: &'static str =
    "SELECT filepath, title, created_at, utc_offset_seconds, kind FROM notes;";

/// The statement that takes the row with a given path out.
pub const DELETE_NOTE: &'static str = "DELETE FROM notes WHERE filepath = ?;";

/// A value handed to a statement of the database.
#[derive(Clone, Debug, PartialEq, Eq)]
pub enum SqlParam {
    Text(String),
    Integer(i32),
}

/// `rusqlite::Connection`: an open database. Nothing is said of what it
/// holds: that lies on disk, where others can change it.
#[verifier::external_type_specification]
#[verifier::external_body]
pub struct ExConnection(rusqlite::Connection);

/// `rusqlite::Error`: why the database refused a call. Carried through to
/// the caller, never looked into.
#[verifier::external_type_specification]
#[verifier::external_body]
pub struct ExSqliteError(rusqlite::Error);

/// `rusqlite_migration::Error`: why the schema could not be brought up to
/// date. Carried through to the caller, never looked into.
#[verifier::external_type_specification]
#[verifier::external_body]
pub struct ExMigrationError(rusqlite_migration::Error);

/// Calls `rusqlite::Connection::open`. What comes back depends on the file
/// system, so nothing is claimed of it.
#[verifier::external_body]
fn open_connection(path: &str) -> Result<rusqlite::Connection, rusqlite::Error> {
    rusqlite::Connection::open(path)
}

/// Puts the statements into a `rusqlite_migration::Migrations`, one
/// `M::up` each, and calls `Migrations::to_latest`. What comes back depends on
/// the database, so nothing is claimed of it.
#[verifier::external_body]
fn migrate_to_latest(connection: &mut rusqlite::Connection, steps: &Vec<&'static str>) -> Result<
    (),
    rusqlite_migration::Error,
> {
    rusqlite_migration::Migrations::new(
        steps.iter().map(|step| rusqlite_migration::M::up(step)).collect(),
    ).to_latest(connection)
}

/// Calls `rusqlite::Connection::execute` with the values bound in order. What
/// comes back depends on the database, so nothing is claimed of it.
#[verifier::external_body]
fn execute(connection: &rusqlite::Connection, statement: &str, values: &Vec<SqlParam>) -> Result<
    usize,
    rusqlite::Error,
> {
    connection.execute(
        statement,
        rusqlite::params_from_iter(
            values.iter().map(
                |value|
                    match value {
                        SqlParam::Text(text) => rusqlite::types::Value::Text(text.clone()),
                        SqlParam::Integer(number) => rusqlite::types::Value::Integer(
                            i64::from(*number),
                        ),
                    },
            ),
        ),
    )
}

/// Calls `rusqlite::Connection::prepare` and `Statement::query_map`, and reads
/// the five columns of each row with `Row::get`. What comes back depends on
/// the database, so nothing is claimed of it.
#[verifier::external_body]
fn query_rows(connection: &rusqlite::Connection, statement: &str) -> Result<
    Vec<StoredRow>,
    rusqlite::Error,
> {
    connection.prepare(statement)?.query_map(
        [],
        |row|
            Ok(
                StoredRow {
                    filepath: row.get(0)?,
                    title: row.get(1)?,
                    created_at: row.get(2)?,
                    utc_offset_seconds: row.get(3)?,
                    kind: row.get(4)?,
                },
            ),
    )?.collect()
}

impl NoteKind {
    /// The word that stands for the kind in the database.
    pub open spec fn sql_text(self) -> Seq<char> {
        match self {
            NoteKind::Note => "note"@,
            NoteKind::Daily => "daily"@,
        }
    }

    /// The kind that a word of the database stands for.
    pub open spec fn of_sql_text(text: Seq<char>) -> Option<NoteKind> {
        if text == "note"@ {
            Some(NoteKind::Note)
        } else if text == "daily"@ {
            Some(NoteKind::Daily)
        } else {
            None
        }
    }

    /// The word that stands for the kind in the database.
    pub fn to_sql_enum(self) -> (word: String)
        ensures
            word@ == self.sql_text(),
    {
        match self {
            NoteKind::Note => String::from_str("note"),
            NoteKind::Daily => String::from_str("daily"),
        }
    }

    /// The kind that a word of the database stands for; the word itself comes
    /// back where it stands for none.
    pub fn try_from_sql_enum(sql_enum: &str) -> (kind: Result<NoteKind, InvalidNoteKindString>)
        ensures
            match kind {
                Ok(kind) => NoteKind::of_sql_text(sql_enum@) == Some(kind),
                Err(word) => NoteKind::of_sql_text(sql_enum@) is None && word.0@ == sql_enum@,
            },
    {
        let word = String::from_str(sql_enum);
        if word == String::from_str("note") {
            Ok(NoteKind::Note)
        } else if word == String::from_str("daily") {
            Ok(NoteKind::Daily)
        } else {
            Err(InvalidNoteKindString(word))
        }
    }
}

/// A word of the database that stands for no kind of note.
#[derive(Clone, Debug, PartialEq, Eq)]
pub struct InvalidNoteKindString(pub String);

/// Each kind comes back from the word that stands for it.
pub proof fn lemma_kind_survives_sql(kind: NoteKind)
    ensures
        NoteKind::of_sql_text(kind.sql_text()) == Some(kind),
{
    reveal_strlit("note");
    reveal_strlit("daily");
    assert("note"@.len() != "daily"@.len());
}

/// The row that stands for a note in the index: the date and time as they
/// are written, the offset in seconds beside them, the kind as its word.
pub open spec fn row_of(preamble: PreambleView, kind: NoteKind, path: Seq<char>) -> RowView {
    RowView {
        filepath: path,
        title: preamble.title,
        created_at: moment_text(preamble.created_at),
        utc_offset_seconds: preamble.created_at.offset_seconds,
        kind: kind.sql_text(),
    }
}

/// Makes the row that stands for a note in the index.
pub fn encode_row(preamble: &Preamble, kind: NoteKind, path: &str) -> (row: StoredRow)
    ensures
        row@ == row_of(preamble@, kind, path@),
{
    StoredRow {
        filepath: String::from_str(path),
        title: preamble.title.clone(),
        created_at: preamble.created_at.to_moment_text(),
        utc_offset_seconds: preamble.created_at.offset_seconds(),
        kind: kind.to_sql_enum(),
    }
}

/// What is wrong with a row that stands for no note.
#[derive(Clone, Copy, Debug, PartialEq, Eq)]
pub enum RowFlaw {
    /// The offset is a day or more.
    UtcOffset,
    /// The text under `created_at` is no date and time.
    CreatedAt,
    /// The word under `kind` names no kind.
    Kind,
}

/// The moment that a row holds: its text read as date and time, at the
/// offset beside it.
pub open spec fn moment_of_row(created_at: Seq<char>, utc_offset_seconds: int) -> Result<
    TimestampView,
    RowFlaw,
> {
    if !is_utc_offset(utc_offset_seconds) {
        Err(RowFlaw::UtcOffset)
    } else {
        match parsed_moment(created_at, MOMENT_PATTERN@) {
            None => Err(RowFlaw::CreatedAt),
            Some(found) => Ok(
                TimestampView {
                    year: found.0,
                    month: found.1,
                    day: found.2,
                    hour: found.3,
                    minute: found.4,
                    second: found.5,
                    nanosecond: found.6,
                    offset_seconds: utc_offset_seconds,
                },
            ),
        }
    }
}

/// Reads the moment that a row holds.
pub fn datetime_from_database(timestamp: &str, utc_offset_seconds: i32) -> (moment: Result<
    Timestamp,
    RowFlaw,
>)
    ensures
        match moment {
            Ok(moment) => moment_of_row(timestamp@, utc_offset_seconds as int) == Ok::<
                TimestampView,
                RowFlaw,
            >(moment@),
            Err(flaw) => moment_of_row(timestamp@, utc_offset_seconds as int) == Err::<
                TimestampView,
                RowFlaw,
            >(flaw),
        },
{
    if utc_offset_seconds <= -86_400 || utc_offset_seconds >= 86_400 {
        return Err(RowFlaw::UtcOffset);
    }
    match Timestamp::from_moment_text(timestamp, utc_offset_seconds) {
        Some(moment) => Ok(moment),
        None => Err(RowFlaw::CreatedAt),
    }
}

/// The note that a row stands for, with its path; or what is wrong with the
/// row, the moment looked at before the kind.
pub open spec fn note_of_row(row: RowView) -> Result<(Seq<char>, IndexedNoteView), RowFlaw> {
    match moment_of_row(row.created_at, row.utc_offset_seconds) {
        Err(flaw) => Err(flaw),
        Ok(created_at) => match NoteKind::of_sql_text(row.kind) {
            None => Err(RowFlaw::Kind),
            Some(kind) => Ok(
                (
                    row.filepath,
                    IndexedNoteView {
                        preamble: PreambleView { title: row.title, created_at },
                        kind,
                    },
                ),
            ),
        },
    }
}

/// Reads the note that a row stands for.
pub fn unpack_row(row: &StoredRow) -> (note: Result<(String, IndexedNote), RowFlaw>)
    ensures
        match note {
            Ok(note) => note_of_row(row@) == Ok::<(Seq<char>, IndexedNoteView), RowFlaw>(
                (note.0@, note.1@),
            ),
            Err(flaw) => note_of_row(row@) == Err::<(Seq<char>, IndexedNoteView), RowFlaw>(flaw),
        },
{
    let created_at = match datetime_from_database(row.created_at.as_str(), row.utc_offset_seconds) {
        Ok(created_at) => created_at,
        Err(flaw) => return Err(flaw),
    };
    let kind = match NoteKind::try_from_sql_enum(row.kind.as_str()) {
        Ok(kind) => kind,
        Err(_) => return Err(RowFlaw::Kind),
    };
    Ok(
        (
            row.filepath.clone(),
            IndexedNote { kind, preamble: Preamble { title: row.title.clone(), created_at } },
        ),
    )
}

/// The notes of an index, each with its path, and the rows that were passed
/// over. No path stands twice among the notes.
#[derive(Clone, Debug, PartialEq, Eq)]
pub struct IndexListing {
    pub notes: Vec<(String, IndexedNote)>,
    /// The rows that stand for no note, each with what is wrong with it.
    pub skipped: Vec<(StoredRow, RowFlaw)>,
}

/// Where the note with this path stands among `notes`: the last such place,
/// if there is one.
pub open spec fn place_of(notes: Seq<(Seq<char>, IndexedNoteView)>, path: Seq<char>) -> Option<int>
    decreases notes.len(),
{
    if notes.len() == 0 {
        None
    } else if notes.last().0 == path {
        Some(notes.len() - 1)
    } else {
        place_of(notes.drop_last(), path)
    }
}

/// The notes with one more: it takes the place of the note that has its
/// path, and comes last where none has.
pub open spec fn with_note(
    notes: Seq<(Seq<char>, IndexedNoteView)>,
    note: (Seq<char>, IndexedNoteView),
) -> Seq<(Seq<char>, IndexedNoteView)> {
    match place_of(notes, note.0) {
        Some(place) => notes.update(place, note),
        None => notes.push(note),
    }
}

/// Whether every note has a path of its own.
pub open spec fn no_path_twice(notes: Seq<(Seq<char>, IndexedNoteView)>) -> bool {
    forall|first: int, second: int|
        0 <= first < second < notes.len() ==> (#[trigger] notes[first]).0 != (#[trigger] notes[
            second
        ]).0
}

/// The notes that rows stand for, each path once. A path comes where its
/// first row comes, with the note of its last row. A row that stands for no
/// note is passed over.
pub open spec fn notes_of_rows(rows: Seq<StoredRow>) -> Seq<(Seq<char>, IndexedNoteView)>
    decreases rows.len(),
{
    if rows.len() == 0 {
        Seq::empty()
    } else {
        match note_of_row(rows.last()@) {
            Ok(note) => with_note(notes_of_rows(rows.drop_last()), note),
            Err(_) => notes_of_rows(rows.drop_last()),
        }
    }
}

/// The rows that stand for no note, in the order of the rows, each with what
/// is wrong with it.
pub open spec fn flaws_of_rows(rows: Seq<StoredRow>) -> Seq<(RowView, RowFlaw)>
    decreases rows.len(),
{
    if rows.len() == 0 {
        Seq::empty()
    } else {
        match note_of_row(rows.last()@) {
            Ok(_) => flaws_of_rows(rows.drop_last()),
            Err(flaw) => flaws_of_rows(rows.drop_last()).push((rows.last()@, flaw)),
        }
    }
}

/// Notes with their paths, as values of specifications.
pub open spec fn listed(notes: Seq<(String, IndexedNote)>) -> Seq<(Seq<char>, IndexedNoteView)> {
    notes.map_values(|note: (String, IndexedNote)| (note.0@, note.1@))
}

/// Rows with their flaws, as values of specifications.
pub open spec fn flawed(skipped: Seq<(StoredRow, RowFlaw)>) -> Seq<(RowView, RowFlaw)> {
    skipped.map_values(|row: (StoredRow, RowFlaw)| (row.0@, row.1))
}

/// A place of `path` among `notes` is a place where a note with that path
/// stands, and where there is none, no note has the path.
pub proof fn lemma_place_of(notes: Seq<(Seq<char>, IndexedNoteView)>, path: Seq<char>)
    ensures
        match place_of(notes, path) {
            Some(place) => 0 <= place < notes.len() && notes[place].0 == path,
            None => forall|index: int|
                0 <= index < notes.len() ==> (#[trigger] notes[index]).0 != path,
        },
    decreases notes.len(),
{
    if notes.len() > 0 && notes.last().0 != path {
        let before = notes.drop_last();
        lemma_place_of(before, path);
        if place_of(before, path) is None {
            assert forall|index: int| 0 <= index < notes.len() implies (#[trigger] notes[index]).0
                != path by {
                if index < before.len() {
                    assert(before[index].0 != path);
                }
            }
        }
    }
}

/// Finds the note with this path.
pub fn place_in(notes: &Vec<(String, IndexedNote)>, path: &String) -> (place: Option<usize>)
    ensures
        match place {
            Some(place) => place_of(listed(notes@), path@) == Some(place as int),
            None => place_of(listed(notes@), path@) is None,
        },
{
    let mut index: usize = notes.len();
    proof {
        assert(listed(notes@).take(index as int) =~= listed(notes@));
    }
    while index > 0
        invariant
            index <= notes.len(),
            place_of(listed(notes@), path@) == place_of(listed(notes@).take(index as int), path@),
        decreases index,
    {
        index = index - 1;
        proof {
            let seen = listed(notes@).take(index as int + 1);
            assert(seen.drop_last() =~= listed(notes@).take(index as int));
            assert(seen.last() == (notes@[index as int].0@, notes@[index as int].1@));
        }
        if notes[index].0 == *path {
            return Some(index);
        }
    }
    None
}

/// Reads the notes that the rows of the table stand for, each path once. A
/// row that stands for no note does not keep the others from being read.
pub fn unpack_rows(rows: &Vec<StoredRow>) -> (listing: IndexListing)
    ensures
        listed(listing.notes@) == notes_of_rows(rows@),
        flawed(listing.skipped@) == flaws_of_rows(rows@),
        no_path_twice(listed(listing.notes@)),
{
    let mut notes: Vec<(String, IndexedNote)> = Vec::new();
    let mut skipped: Vec<(StoredRow, RowFlaw)> = Vec::new();
    let mut index: usize = 0;
    while index < rows.len()
        invariant
            index <= rows.len(),
            listed(notes@) == notes_of_rows(rows@.take(index as int)),
            flawed(skipped@) == flaws_of_rows(rows@.take(index as int)),
        decreases rows.len() - index,
    {
        proof {
            let seen = rows@.take(index as int + 1);
            assert(seen.drop_last() =~= rows@.take(index as int));
            assert(seen.last() == rows@[index as int]);
        }
        let ghost notes_before = notes@;
        let ghost skipped_before = skipped@;
        match unpack_row(&rows[index]) {
            Ok(note) => {
                proof {
                    lemma_place_of(listed(notes_before), note.0@);
                }
                match place_in(&notes, &note.0) {
                    Some(place) => {
                        notes.set(place, note);
                        assert(listed(notes@) =~= listed(notes_before).update(
                            place as int,
                            (note.0@, note.1@),
                        ));
                    },
                    None => {
                        notes.push(note);
                        assert(listed(notes@) =~= listed(notes_before).push((note.0@, note.1@)));
                    },
                }
            },
            Err(flaw) => {
                let row = StoredRow {
                    filepath: rows[index].filepath.clone(),
                    title: rows[index].title.clone(),
                    created_at: rows[index].created_at.clone(),
                    utc_offset_seconds: rows[index].utc_offset_seconds,
                    kind: rows[index].kind.clone(),
                };
                skipped.push((row, flaw));
                assert(flawed(skipped@) =~= flawed(skipped_before).push((row@, flaw)));
            },
        }
        index = index + 1;
    }
    proof {
        assert(rows@.take(rows.len() as int) =~= rows@);
        lemma_each_path_is_listed_once(rows@);
    }
    IndexListing { notes, skipped }
}

/// No path stands twice among the notes that rows stand for, whatever the
/// rows hold.
pub proof fn lemma_each_path_is_listed_once(rows: Seq<StoredRow>)
    ensures
        no_path_twice(notes_of_rows(rows)),
    decreases rows.len(),
{
    if rows.len() > 0 {
        let before = notes_of_rows(rows.drop_last());
        lemma_each_path_is_listed_once(rows.drop_last());
        if let Ok(note) = note_of_row(rows.last()@) {
            lemma_place_of(before, note.0);
            let after = with_note(before, note);
            assert forall|first: int, second: int| 0 <= first < second < after.len() implies (
            #[trigger] after[first]).0 != (#[trigger] after[second]).0 by {
                if first < before.len() {
                    assert(before[first].0 == after[first].0);
                }
                if second < before.len() {
                    assert(before[second].0 == after[second].0);
                }
            }
        }
    }
}

/// Every listed note comes from a row that stands for it: a row whose moment
/// or kind cannot be read adds no note, whatever the rows beside it hold.
pub proof fn lemma_listed_notes_come_from_rows(rows: Seq<StoredRow>, position: int)
    requires
        0 <= position < notes_of_rows(rows).len(),
    ensures
        exists|index: int|
            0 <= index < rows.len() && #[trigger] note_of_row(rows[index]@) == Ok::<
                (Seq<char>, IndexedNoteView),
                RowFlaw,
            >(notes_of_rows(rows)[position]),
    decreases rows.len(),
{
    let before = rows.drop_last();
    let earlier = notes_of_rows(before);
    let last_is_listed = match note_of_row(rows.last()@) {
        Ok(note) => notes_of_rows(rows)[position] == note,
        Err(_) => false,
    };
    if last_is_listed {
        assert(note_of_row(rows[rows.len() - 1]@) == Ok::<(Seq<char>, IndexedNoteView), RowFlaw>(
            notes_of_rows(rows)[position],
        ));
    } else {
        if let Ok(note) = note_of_row(rows.last()@) {
            lemma_place_of(earlier, note.0);
        }
        assert(position < earlier.len() && earlier[position] == notes_of_rows(rows)[position]);
        lemma_listed_notes_come_from_rows(before, position);
        let index = choose|index: int|
            0 <= index < before.len() && #[trigger] note_of_row(before[index]@) == Ok::<
                (Seq<char>, IndexedNoteView),
                RowFlaw,
            >(earlier[position]);
        assert(note_of_row(rows[index]@) == Ok::<(Seq<char>, IndexedNoteView), RowFlaw>(
            notes_of_rows(rows)[position],
        ));
    }
}

/// A row that stands for a note is listed, whatever the rows beside it hold,
/// unless a later row stands for a note with the same path.
pub proof fn lemma_readable_rows_are_listed(rows: Seq<StoredRow>, index: int)
    requires
        0 <= index < rows.len(),
        note_of_row(rows[index]@) is Ok,
        forall|later: int|
            index < later < rows.len() && note_of_row(rows[later]@) is Ok ==> (#[trigger] rows[
                later
            ])@.filepath != rows[index]@.filepath,
    ensures
        notes_of_rows(rows).contains(note_of_row(rows[index]@)->Ok_0),
    decreases rows.len(),
{
    let before = rows.drop_last();
    let earlier = notes_of_rows(before);
    let listing = notes_of_rows(rows);
    let wanted = note_of_row(rows[index]@)->Ok_0;
    if index == rows.len() - 1 {
        lemma_place_of(earlier, wanted.0);
        match place_of(earlier, wanted.0) {
            Some(place) => {
                assert(listing[place] == wanted);
            },
            None => {
                assert(listing[listing.len() - 1] == wanted);
            },
        }
    } else {
        assert forall|later: int|
            index < later < before.len() && note_of_row(before[later]@) is Ok implies (
        #[trigger] before[later])@.filepath != before[index]@.filepath by {
            assert(rows[later]@.filepath != rows[index]@.filepath);
        }
        lemma_readable_rows_are_listed(before, index);
        let position = choose|position: int|
            0 <= position < earlier.len() && earlier[position] == wanted;
        if let Ok(note) = note_of_row(rows.last()@) {
            lemma_place_of(earlier, note.0);
            assert(rows[rows.len() - 1]@.filepath != rows[index]@.filepath);
            assert(note.0 == rows.last()@.filepath);
            assert(wanted.0 == rows[index]@.filepath);
        }
        assert(listing[position] == wanted);
    }
}

/// In a table where no two rows have the same path, the path of a row whose
/// moment or kind cannot be read is the path of no listed note.
pub proof fn lemma_unreadable_row_is_absent(rows: Seq<StoredRow>, index: int, position: int)
    requires
        forall|i: int, j: int|
            0 <= i < j < rows.len() ==> (#[trigger] rows[i])@.filepath != (#[trigger] rows[
                j
            ])@.filepath,
        0 <= index < rows.len(),
        note_of_row(rows[index]@) is Err,
        0 <= position < notes_of_rows(rows).len(),
    ensures
        notes_of_rows(rows)[position].0 != rows[index]@.filepath,
{
    lemma_listed_notes_come_from_rows(rows, position);
    let source = choose|source: int|
        0 <= source < rows.len() && #[trigger] note_of_row(rows[source]@) == Ok::<
            (Seq<char>, IndexedNoteView),
            RowFlaw,
        >(notes_of_rows(rows)[position]);
    assert(source != index);
    if source < index {
        assert(rows[source]@.filepath != rows[index]@.filepath);
    } else {
        assert(rows[index]@.filepath != rows[source]@.filepath);
    }
}

/// A row whose text under `created_at` is no date and time adds no note to
/// the listing, and every row beside it that stands for a note is listed.
pub proof fn lemma_unparseable_moment_is_skipped(
    rows: Seq<StoredRow>,
    index: int,
    position: int,
    beside: int,
)
    requires
        forall|i: int, j: int|
            0 <= i < j < rows.len() ==> (#[trigger] rows[i])@.filepath != (#[trigger] rows[
                j
            ])@.filepath,
        0 <= index < rows.len(),
        parsed_moment(rows[index]@.created_at, MOMENT_PATTERN@) is None,
        0 <= position < notes_of_rows(rows).len(),
        0 <= beside < rows.len(),
        note_of_row(rows[beside]@) is Ok,
    ensures
        notes_of_rows(rows)[position].0 != rows[index]@.filepath,
        notes_of_rows(rows).contains(note_of_row(rows[beside]@)->Ok_0),
{
    lemma_unreadable_row_is_absent(rows, index, position);
    lemma_readable_rows_are_listed(rows, beside);
}

/// The schema could not be brought up to date.
#[derive(Debug)]
pub struct MigrationError(pub rusqlite_migration::Error);

/// Why the index could not be opened.
#[derive(Debug)]
pub enum OpenError {
    ConnectionOpenError(rusqlite::Error),
    MigrationError(MigrationError),
}

/// The index file could not be emptied.
#[derive(Clone, Debug, PartialEq, Eq)]
pub struct ResetError(pub IoFailure);

/// Why a note could not be put into the index.
#[derive(Debug)]
pub enum InsertError {
    DatabaseError(rusqlite::Error),
    /// The path, given here, is no text.
    BadPath(Vec<u8>),
}

/// Why the index could not be read.
#[derive(Debug)]
pub struct LookupError(pub rusqlite::Error);

/// Why a note could not be taken out of the index.
#[derive(Debug)]
pub enum DeleteError {
    DatabaseError(rusqlite::Error),
    /// The path, given here, is no text.
    BadPath(Vec<u8>),
}

/// The steps that bring a database to the current schema, oldest first.
pub fn migrations() -> (steps: Vec<&'static str>)
    ensures
        steps@ == seq![CREATE_NOTES, ADD_KIND],
{
    let mut steps: Vec<&'static str> = Vec::new();
    steps.push(CREATE_NOTES);
    steps.push(ADD_KIND);
    proof {
        assert(steps@ =~= seq![CREATE_NOTES, ADD_KIND]);
    }
    steps
}

/// What to make of the attempt to bring a database up to date.
pub fn setup_outcome(migrated: Result<(), rusqlite_migration::Error>) -> (outcome: Result<
    (),
    MigrationError,
>)
    ensures
        outcome == match migrated {
            Ok(_) => Ok::<(), MigrationError>(()),
            Err(refusal) => Err::<(), MigrationError>(MigrationError(refusal)),
        },
{
    match migrated {
        Ok(()) => Ok(()),
        Err(refusal) => Err(MigrationError(refusal)),
    }
}

/// Whether `migrated` is an answer that the database gave when it was asked
/// through `asked` to take the steps of `migrations`.
pub closed spec fn answers_migration(
    asked: &mut rusqlite::Connection,
    migrated: Result<(), rusqlite_migration::Error>,
) -> bool {
    exists|steps: Vec<&'static str>|
        steps@ == seq![CREATE_NOTES, ADD_KIND] && #[trigger] call_ensures(
            migrate_to_latest,
            (asked, &steps),
            migrated,
        )
}

/// Brings the database behind `connection` to the current schema: hands the
/// steps of `migrations` to the database and passes its answer on. Steps that
/// were taken before are not taken again. Whether that works is up to the
/// database.
pub fn setup_database(connection: &mut rusqlite::Connection) -> (outcome: Result<
    (),
    MigrationError,
>)
    ensures
        exists|
            asked: &mut rusqlite::Connection,
            migrated: Result<(), rusqlite_migration::Error>,
        |
            {
                &&& *asked == *old(connection)
                &&& *final(asked) == *final(connection)
                &&& #[trigger] answers_migration(asked, migrated)
                &&& outcome == match migrated {
                    Ok(_) => Ok::<(), MigrationError>(()),
                    Err(refusal) => Err::<(), MigrationError>(MigrationError(refusal)),
                }
            },
{
    let steps = migrations();
    let migrated = migrate_to_latest(connection, &steps);
    proof {
        let asked = choose|asked: &mut rusqlite::Connection| #[trigger]
            call_ensures(migrate_to_latest, (asked, &steps), migrated) && *asked == *old(
                connection,
            ) && *final(asked) == *connection;
        assert(answers_migration(asked, migrated));
    }
    setup_outcome(migrated)
}

/// Whether `opened` is an answer that the database gave when it was asked to
/// open the file at `path`.
pub closed spec fn answers_open(
    path: &str,
    opened: Result<rusqlite::Connection, rusqlite::Error>,
) -> bool {
    call_ensures(open_connection, (path,), opened)
}

/// Whether the database answered `Ok(fresh)` when it was asked to open the
/// file at `path`, and `migrated` when it was then asked, through `asked` to
/// what it had opened, to take the steps of `migrations`.
pub closed spec fn opens_and_migrates(
    path: &str,
    fresh: rusqlite::Connection,
    asked: &mut rusqlite::Connection,
    migrated: Result<(), rusqlite_migration::Error>,
) -> bool {
    &&& answers_open(path, Ok(fresh))
    &&& *asked == fresh
    &&& answers_migration(asked, migrated)
}

/// Opens the index in the file at `path`, making the file and the table
/// where they are missing: asks the database to open the file, and then to
/// bring what it opened to the current schema. A refusal of either is passed
/// on; the connection is handed out, as the second step left it, once both
/// are done. Whether they work is up to the database.
pub fn open(path: &str) -> (opened: Result<rusqlite::Connection, OpenError>)
    ensures
        opened matches Ok(connection) ==> exists|
            fresh: rusqlite::Connection,
            asked: &mut rusqlite::Connection,
            migrated: Result<(), rusqlite_migration::Error>,
        |
            {
                &&& #[trigger] opens_and_migrates(path, fresh, asked, migrated)
                &&& migrated is Ok
                &&& *final(asked) == connection
            },
        opened matches Err(OpenError::ConnectionOpenError(refusal)) ==> answers_open(
            path,
            Err(refusal),
        ),
        opened matches Err(OpenError::MigrationError(refusal)) ==> exists|
            fresh: rusqlite::Connection,
            asked: &mut rusqlite::Connection,
        | #[trigger] opens_and_migrates(path, fresh, asked, Err(refusal.0)),
{
    let mut connection = match open_connection(path) {
        Ok(connection) => connection,
        Err(refusal) => return Err(OpenError::ConnectionOpenError(refusal)),
    };
    let ghost fresh = connection;
    let done = setup_database(&mut connection);
    proof {
        let (asked, migrated) = choose|
            asked: &mut rusqlite::Connection,
            migrated: Result<(), rusqlite_migration::Error>,
        |
            {
                &&& *asked == fresh
                &&& *final(asked) == connection
                &&& #[trigger] answers_migration(asked, migrated)
                &&& done == match migrated {
                    Ok(_) => Ok::<(), MigrationError>(()),
                    Err(refusal) => Err::<(), MigrationError>(MigrationError(refusal)),
                }
            };
        assert(opens_and_migrates(path, fresh, asked, migrated));
        if done is Err {
            assert(migrated == Err::<(), rusqlite_migration::Error>(done->Err_0.0));
        }
    }
    let opened = match done {
        Ok(_) => Ok(connection),
        Err(refusal) => Err(OpenError::MigrationError(refusal)),
    };
    proof {
        if opened is Err {
            let refusal = opened->Err_0->MigrationError_0;
            assert(exists|fresh: rusqlite::Connection, asked: &mut rusqlite::Connection|
                #[trigger] opens_and_migrates(path, fresh, asked, Err(refusal.0)));
        }
    }
    opened
}

/// Whether `opened` is what came of opening the index in the file at
/// `path`.
pub open spec fn opened_as(path: &str, opened: Result<rusqlite::Connection, OpenError>) -> bool {
    call_ensures(open, (path,), opened)
}

/// What to make of the attempt to empty the index file: a file that is not
/// there yet is as good as an empty one.
pub fn reset(truncated: Result<(), IoFailure>) -> (emptied: Result<(), ResetError>)
    ensures
        match truncated {
            Ok(_) => emptied is Ok,
            Err(failure) => if failure.kind == IoFailureKind::NotFound {
                emptied is Ok
            } else {
                emptied == Err::<(), ResetError>(ResetError(failure))
            },
        },
{
    match truncated {
        Ok(()) => Ok(()),
        Err(failure) => match failure.kind {
            IoFailureKind::NotFound => Ok(()),
            _ => Err(ResetError(failure)),
        },
    }
}

/// The values of a row in the order of the table's columns.
pub fn row_params(row: &StoredRow) -> (values: Vec<SqlParam>)
    ensures
        values@ == seq![
            SqlParam::Text(row.filepath),
            SqlParam::Text(row.title),
            SqlParam::Text(row.created_at),
            SqlParam::Integer(row.utc_offset_seconds),
            SqlParam::Text(row.kind),
        ],
{
    let mut values: Vec<SqlParam> = Vec::new();
    values.push(SqlParam::Text(row.filepath.clone()));
    values.push(SqlParam::Text(row.title.clone()));
    values.push(SqlParam::Text(row.created_at.clone()));
    values.push(SqlParam::Integer(row.utc_offset_seconds));
    values.push(SqlParam::Text(row.kind.clone()));
    proof {
        assert(values@ =~= seq![
            SqlParam::Text(row.filepath),
            SqlParam::Text(row.title),
            SqlParam::Text(row.created_at),
            SqlParam::Integer(row.utc_offset_seconds),
            SqlParam::Text(row.kind),
        ]);
    }
    values
}

/// What to make of the database's answer to a row: the row is in the table,
/// or the database refused it.
pub fn insert_outcome(row: StoredRow, executed: Result<usize, rusqlite::Error>) -> (outcome: Result<
    StoredRow,
    InsertError,
>)
    ensures
        outcome == match executed {
            Ok(_) => Ok::<StoredRow, InsertError>(row),
            Err(refusal) => Err::<StoredRow, InsertError>(InsertError::DatabaseError(refusal)),
        },
{
    match executed {
        Ok(_) => Ok(row),
        Err(refusal) => Err(InsertError::DatabaseError(refusal)),
    }
}

/// Whether `executed` is an answer that the database behind `connection`
/// gave to the statement that puts a row in, with the values of `row` bound
/// in the order of the columns.
pub closed spec fn answers_upsert(
    connection: &rusqlite::Connection,
    row: StoredRow,
    executed: Result<usize, rusqlite::Error>,
) -> bool {
    exists|values: Vec<SqlParam>|
        values@ == seq![
            SqlParam::Text(row.filepath),
            SqlParam::Text(row.title),
            SqlParam::Text(row.created_at),
            SqlParam::Integer(row.utc_offset_seconds),
            SqlParam::Text(row.kind),
        ] && #[trigger] call_ensures(execute, (connection, UPSERT_NOTE, &values), executed)
}

/// Whether `added` is what comes of handing the row that stands for a note
/// to the database: the row where the database took it, the database's
/// refusal where it did not.
pub open spec fn puts_row(
    connection: &rusqlite::Connection,
    preamble: PreambleView,
    kind: NoteKind,
    path: Seq<char>,
    added: Result<StoredRow, InsertError>,
) -> bool {
    exists|row: StoredRow, executed: Result<usize, rusqlite::Error>|
        {
            &&& row@ == row_of(preamble, kind, path)
            &&& #[trigger] answers_upsert(connection, row, executed)
            &&& added == match executed {
                Ok(_) => Ok::<StoredRow, InsertError>(row),
                Err(refusal) => Err::<StoredRow, InsertError>(InsertError::DatabaseError(refusal)),
            }
        }
}

/// Puts a note into the index, in the place of the row with the same path
/// where there is one, and gives back the row that now stands for the note.
/// `path` is the note's path as the system holds it: a path that is no text
/// is refused before the database is touched. Every other note's row is
/// handed to the database with the statement `UPSERT_NOTE`, and the
/// database's answer is passed on. Whether the row is taken is up to the
/// database.
pub fn add_note(
    connection: &rusqlite::Connection,
    preamble: &Preamble,
    kind: NoteKind,
    path: &[u8],
) -> (added: Result<StoredRow, InsertError>)
    ensures
        match added {
            Ok(row) => valid_utf8(path@) && row@ == row_of(preamble@, kind, decode_utf8(path@)),
            Err(InsertError::DatabaseError(_)) => valid_utf8(path@),
            Err(InsertError::BadPath(bytes)) => !valid_utf8(path@) && bytes@ == path@,
        },
        valid_utf8(path@) ==> puts_row(connection, preamble@, kind, decode_utf8(path@), added),
{
    let text = match text_of_bytes(path) {
        Some(text) => text,
        None => return Err(InsertError::BadPath(slice_to_vec(path))),
    };
    let row = encode_row(preamble, kind, text);
    let values = row_params(&row);
    let executed = execute(connection, UPSERT_NOTE, &values);
    proof {
        assert(answers_upsert(connection, row, executed));
    }
    insert_outcome(row, executed)
}

/// What to make of the rows that the database gave: the notes that they
/// stand for, or the database's refusal.
pub fn lookup_outcome(queried: Result<Vec<StoredRow>, rusqlite::Error>) -> (listing: Result<
    IndexListing,
    LookupError,
>)
    ensures
        lists(queried, listing),
        listing matches Ok(found) ==> no_path_twice(listed(found.notes@)),
{
    match queried {
        Ok(rows) => Ok(unpack_rows(&rows)),
        Err(refusal) => Err(LookupError(refusal)),
    }
}

/// Whether `queried` is an answer that the database behind `connection` gave
/// to the statement that reads every row.
pub closed spec fn answers_select(
    connection: &rusqlite::Connection,
    queried: Result<Vec<StoredRow>, rusqlite::Error>,
) -> bool {
    call_ensures(query_rows, (connection, SELECT_NOTES), queried)
}

/// Whether `listing` is what comes of the database's answer `queried`: the
/// notes that the rows stand for, with the rows that stand for none beside
/// them, or the database's refusal.
pub open spec fn lists(
    queried: Result<Vec<StoredRow>, rusqlite::Error>,
    listing: Result<IndexListing, LookupError>,
) -> bool {
    match queried {
        Ok(rows) => {
            &&& listing matches Ok(listing)
            &&& listed(listing.notes@) == notes_of_rows(rows@)
            &&& flawed(listing.skipped@) == flaws_of_rows(rows@)
        },
        Err(refusal) => listing matches Err(error) && error == LookupError(refusal),
    }
}

/// Reads every note of the index: asks the database for every row and reads
/// the notes out of its answer. Rows that stand for no note are passed over
/// and handed back beside the notes. What the database answers is up to the
/// database.
pub fn all_notes(connection: &rusqlite::Connection) -> (listing: Result<IndexListing, LookupError>)
    ensures
        exists|queried: Result<Vec<StoredRow>, rusqlite::Error>| #[trigger]
            answers_select(connection, queried) && lists(queried, listing),
        listing matches Ok(found) ==> no_path_twice(listed(found.notes@)),
{
    let queried = query_rows(connection, SELECT_NOTES);
    proof {
        assert(answers_select(connection, queried));
    }
    lookup_outcome(queried)
}

/// The notes of one kind among `notes`, in their order.
pub open spec fn of_kind(notes: Seq<(Seq<char>, IndexedNoteView)>, kind: NoteKind) -> Seq<
    (Seq<char>, IndexedNoteView),
>
    decreases notes.len(),
{
    if notes.len() == 0 {
        Seq::empty()
    } else if notes.last().1.kind == kind {
        of_kind(notes.drop_last(), kind).push(notes.last())
    } else {
        of_kind(notes.drop_last(), kind)
    }
}

/// Every note kept for its kind is one of the notes.
pub proof fn lemma_kept_notes_are_notes(
    notes: Seq<(Seq<char>, IndexedNoteView)>,
    kind: NoteKind,
    position: int,
)
    requires
        0 <= position < of_kind(notes, kind).len(),
    ensures
        exists|index: int|
            0 <= index < notes.len() && #[trigger] notes[index] == of_kind(notes, kind)[position],
    decreases notes.len(),
{
    let before = notes.drop_last();
    if notes.last().1.kind == kind && position == of_kind(before, kind).len() {
        assert(notes[notes.len() - 1] == of_kind(notes, kind)[position]);
    } else {
        lemma_kept_notes_are_notes(before, kind, position);
        let index = choose|index: int|
            0 <= index < before.len() && #[trigger] before[index] == of_kind(
                before,
                kind,
            )[position];
        assert(notes[index] == of_kind(notes, kind)[position]);
    }
}

/// Where every note has a path of its own, so has every note kept for its
/// kind.
pub proof fn lemma_kind_keeps_paths_apart(notes: Seq<(Seq<char>, IndexedNoteView)>, kind: NoteKind)
    requires
        no_path_twice(notes),
    ensures
        no_path_twice(of_kind(notes, kind)),
    decreases notes.len(),
{
    if notes.len() > 0 {
        let before = notes.drop_last();
        let kept = of_kind(notes, kind);
        assert forall|first: int, second: int| 0 <= first < second < before.len() implies (
        #[trigger] before[first]).0 != (#[trigger] before[second]).0 by {
            assert(notes[first].0 != notes[second].0);
        }
        lemma_kind_keeps_paths_apart(before, kind);
        assert forall|first: int, second: int| 0 <= first < second < kept.len() implies (
        #[trigger] kept[first]).0 != (#[trigger] kept[second]).0 by {
            if second < of_kind(before, kind).len() {
                assert(of_kind(before, kind)[first].0 != of_kind(before, kind)[second].0);
            } else {
                lemma_kept_notes_are_notes(before, kind, first);
                let index = choose|index: int|
                    0 <= index < before.len() && #[trigger] before[index] == of_kind(
                        before,
                        kind,
                    )[first];
                assert(notes[index].0 != notes[notes.len() - 1].0);
            }
        }
    }
}

/// Keeps the notes of one kind.
pub fn notes_with_kind(notes: &Vec<(String, IndexedNote)>, kind: NoteKind) -> (kept: Vec<
    (String, IndexedNote),
>)
    ensures
        listed(kept@) == of_kind(listed(notes@), kind),
        no_path_twice(listed(notes@)) ==> no_path_twice(listed(kept@)),
{
    let mut kept: Vec<(String, IndexedNote)> = Vec::new();
    let mut index: usize = 0;
    while index < notes.len()
        invariant
            index <= notes.len(),
            listed(kept@) == of_kind(listed(notes@).take(index as int), kind),
        decreases notes.len() - index,
    {
        proof {
            let seen = listed(notes@).take(index as int + 1);
            assert(seen.drop_last() =~= listed(notes@).take(index as int));
            assert(seen.last() == (notes@[index as int].0@, notes@[index as int].1@));
        }
        if notes[index].1.kind == kind {
            let ghost kept_before = kept@;
            let note = (
                notes[index].0.clone(),
                IndexedNote {
                    preamble: Preamble {
                        title: notes[index].1.preamble.title.clone(),
                        created_at: notes[index].1.preamble.created_at,
                    },
                    kind: notes[index].1.kind,
                },
            );
            kept.push(note);
            assert(listed(kept@) =~= listed(kept_before).push((note.0@, note.1@)));
        }
        index = index + 1;
    }
    proof {
        assert(listed(notes@).take(notes.len() as int) =~= listed(notes@));
        if no_path_twice(listed(notes@)) {
            lemma_kind_keeps_paths_apart(listed(notes@), kind);
        }
    }
    kept
}

/// Whether `listing` is what comes of the database's answer `queried` where
/// only the notes of one kind are asked for: the notes of that kind that the
/// rows stand for, with the rows that stand for no note beside them, or the
/// database's refusal.
pub open spec fn lists_kind(
    queried: Result<Vec<StoredRow>, rusqlite::Error>,
    kind: NoteKind,
    listing: Result<IndexListing, LookupError>,
) -> bool {
    match queried {
        Ok(rows) => {
            &&& listing matches Ok(listing)
            &&& listed(listing.notes@) == of_kind(notes_of_rows(rows@), kind)
            &&& flawed(listing.skipped@) == flaws_of_rows(rows@)
        },
        Err(refusal) => listing matches Err(error) && error == LookupError(refusal),
    }
}

/// Reads the notes of one kind: asks the database for every row, reads the
/// notes out of its answer and keeps those of the kind. Rows that stand for
/// no note are passed over and handed back beside the notes. What the
/// database answers is up to the database.
pub fn all_notes_with_kind(connection: &rusqlite::Connection, kind: NoteKind) -> (listing: Result<
    IndexListing,
    LookupError,
>)
    ensures
        exists|queried: Result<Vec<StoredRow>, rusqlite::Error>| #[trigger]
            answers_select(connection, queried) && lists_kind(queried, kind, listing),
        listing matches Ok(found) ==> no_path_twice(listed(found.notes@)),
{
    match all_notes(connection) {
        Ok(listing) => {
            let IndexListing { notes, skipped } = listing;
            Ok(IndexListing { notes: notes_with_kind(&notes, kind), skipped })
        },
        Err(refusal) => Err(refusal),
    }
}

/// What to make of the database's answer to taking a row out. That no row
/// was there is no failure.
pub fn delete_outcome(executed: Result<usize, rusqlite::Error>) -> (outcome: Result<(), DeleteError>)
    ensures
        outcome == match executed {
            Ok(_) => Ok::<(), DeleteError>(()),
            Err(refusal) => Err::<(), DeleteError>(DeleteError::DatabaseError(refusal)),
        },
{
    match executed {
        Ok(_) => Ok(()),
        Err(refusal) => Err(DeleteError::DatabaseError(refusal)),
    }
}

/// Whether `executed` is an answer that the database behind `connection`
/// gave to the statement that takes a row out, with `path` bound as the one
/// value.
pub closed spec fn answers_delete(
    connection: &rusqlite::Connection,
    path: Seq<char>,
    executed: Result<usize, rusqlite::Error>,
) -> bool {
    exists|values: Vec<SqlParam>|
        {
            &&& values@.len() == 1
            &&& values@[0] matches SqlParam::Text(bound)
            &&& bound@ == path
            &&& #[trigger] call_ensures(execute, (connection, DELETE_NOTE, &values), executed)
        }
}

/// Whether `deleted` is what comes of asking the database to take the row of
/// `path` out: success where the database did so, whether or not there was
/// such a row, and the database's refusal where it did not.
pub open spec fn takes_row_out(
    connection: &rusqlite::Connection,
    path: Seq<char>,
    deleted: Result<(), DeleteError>,
) -> bool {
    exists|executed: Result<usize, rusqlite::Error>| #[trigger]
        answers_delete(connection, path, executed) && deleted == match executed {
            Ok(_) => Ok::<(), DeleteError>(()),
            Err(refusal) => Err::<(), DeleteError>(DeleteError::DatabaseError(refusal)),
        }
}

/// Takes the note at `path` out of the index. A path that the index does not
/// hold is no error. A path that is no text is refused before the database
/// is touched. Every other path is handed to the database with the statement
/// `DELETE_NOTE`, and the database's answer is passed on.
pub fn delete_note(connection: &rusqlite::Connection, path: &[u8]) -> (deleted: Result<
    (),
    DeleteError,
>)
    ensures
        match deleted {
            Ok(_) => valid_utf8(path@),
            Err(DeleteError::DatabaseError(_)) => valid_utf8(path@),
            Err(DeleteError::BadPath(bytes)) => !valid_utf8(path@) && bytes@ == path@,
        },
        valid_utf8(path@) ==> takes_row_out(connection, decode_utf8(path@), deleted),
{
    let text = match text_of_bytes(path) {
        Some(text) => text,
        None => return Err(DeleteError::BadPath(slice_to_vec(path))),
    };
    let mut values: Vec<SqlParam> = Vec::new();
    values.push(SqlParam::Text(String::from_str(text)));
    let executed = execute(connection, DELETE_NOTE, &values);
    proof {
        assert(answers_delete(connection, decode_utf8(path@), executed));
    }
    delete_outcome(executed)
}

/// Whether another note of the listing has the title of the note at `index`.
pub open spec fn shares_title(notes: Seq<(Seq<char>, IndexedNoteView)>, index: int) -> bool {
    exists|other: int|
        0 <= other < notes.len() && other != index && (#[trigger] notes[other]).1.preamble.title
            == notes[index].1.preamble.title
}

/// Tells of each note of a listing whether another note has its title, so
/// that a reader can be shown more than the title to tell them apart.
pub fn shared_titles(notes: &Vec<(String, IndexedNote)>) -> (shared: Vec<bool>)
    ensures
        shared.len() == notes.len(),
        forall|index: int|
            0 <= index < notes.len() ==> #[trigger] shared[index] == shares_title(
                listed(notes@),
                index,
            ),
{
    let mut shared: Vec<bool> = Vec::new();
    let mut index: usize = 0;
    while index < notes.len()
        invariant
            index <= notes.len(),
            shared.len() == index,
            forall|seen: int|
                0 <= seen < index ==> #[trigger] shared[seen] == shares_title(listed(notes@), seen),
        decreases notes.len() - index,
    {
        let mut found = false;
        let mut other: usize = 0;
        while other < notes.len()
            invariant
                index < notes.len(),
                other <= notes.len(),
                found == exists|earlier: int|
                    0 <= earlier < other && earlier != index && (#[trigger] listed(
                        notes@,
                    )[earlier]).1.preamble.title == listed(notes@)[index as int].1.preamble.title,
            decreases notes.len() - other,
        {
            if other != index && notes[other].1.preamble.title == notes[index].1.preamble.title {
                assert(listed(notes@)[other as int].1.preamble.title == listed(
                    notes@,
                )[index as int].1.preamble.title);
                found = true;
            }
            other = other + 1;
        }
        shared.push(found);
        index = index + 1;
    }
    shared
}

} // verus!
