use quicknotes::index::{
    add_note, all_notes, all_notes_with_kind, datetime_from_database, delete_note, encode_row,
    migrations, notes_with_kind, open, place_in, row_params, setup_database, unpack_row, unpack_rows,
    IndexedNote, InsertError, DeleteError, NoteKind, RowFlaw, SqlParam, StoredRow,
};
use quicknotes::note::Preamble;
use quicknotes::timestamp::Timestamp;
use rusqlite::Connection;
use rusqlite_migration::{Migrations, M};

fn test_time() -> Timestamp {
    Timestamp::new(2015, 10, 21, 7, 28, 0, 0, -7 * 60 * 60).unwrap()
}

fn row(filepath: &str, created_at: &str, utc_offset_seconds: i32, kind: &str) -> StoredRow {
    StoredRow {
        filepath: filepath.to_string(),
        title: "a title".to_string(),
        created_at: created_at.to_string(),
        utc_offset_seconds,
        kind: kind.to_string(),
    }
}

#[test]
pub fn migrations_valid() {
    Migrations::new(migrations().into_iter().map(M::up).collect())
        .validate()
        .expect("failed to validate migrations");
}

#[test]
pub fn can_insert_note() {
    let mut connection = Connection::open_in_memory().expect("could not open test database");
    setup_database(&mut connection).expect("could not setup test database");

    let preamble = Preamble { title: "Hello world".to_string(), created_at: test_time() };

    add_note(
        &mut connection,
        &preamble,
        NoteKind::Note,
        "/home/ferris/Documents/quicknotes/notes/hello-world.txt".as_bytes(),
    )
    .unwrap();
}

#[test]
pub fn can_update_note_by_reinserting() {
    let mut connection = Connection::open_in_memory().expect("could not open test database");
    setup_database(&mut connection).expect("could not setup test database");

    let preamble1 = Preamble { title: "Hello world".to_string(), created_at: test_time() };

    let preamble2 = Preamble { title: "Hello world!!".to_string(), ..preamble1.clone() };

    // insert the first note
    add_note(
        &mut connection,
        &preamble1,
        NoteKind::Note,
        "/home/ferris/Documents/quicknotes/notes/hello-world.txt".as_bytes(),
    )
    .unwrap();

    // ... then update
    add_note(
        &mut connection,
        &preamble2,
        NoteKind::Note,
        "/home/ferris/Documents/quicknotes/notes/hello-world.txt".as_bytes(),
    )
    .expect("Failed to update note");

    let notes = all_notes(&mut connection).unwrap().notes;

    // should only have the one note, which is the valid one
    assert_eq!(
        notes,
        [(
            "/home/ferris/Documents/quicknotes/notes/hello-world.txt".to_string(),
            IndexedNote { preamble: preamble2, kind: NoteKind::Note }
        )]
    );
}

#[test]
pub fn cannot_insert_note_with_invalid_utf8_path() {
    let mut connection = Connection::open_in_memory().expect("could not open test database");

    let preamble = Preamble { title: "Hello world".to_string(), created_at: test_time() };

    // construct an invalid path
    let path: [u8; 2] = [0xFF, 0xFF];

    let insert_result = add_note(&mut connection, &preamble, NoteKind::Note, &path);

    assert!(insert_result.is_err());
    assert!(matches!(insert_result, Err(InsertError::BadPath(bytes)) if bytes == vec![0xFF, 0xFF]));
}

#[test]
pub fn can_select_inserted_notes() {
    let mut connection = Connection::open_in_memory().expect("could not open test database");
    setup_database(&mut connection).expect("could not setup test database");

    let preamble1 = Preamble { title: "Hello world".to_string(), created_at: test_time() };

    add_note(
        &mut connection,
        &preamble1,
        NoteKind::Note,
        "/home/ferris/Documents/quicknotes/notes/hello-world.txt".as_bytes(),
    )
    .unwrap();

    let preamble2 = Preamble { title: "notes notes notes".to_string(), created_at: test_time() };

    add_note(
        &mut connection,
        &preamble2,
        NoteKind::Note,
        "/home/ferris/Documents/quicknotes/notes/notes-notes-notes.txt".as_bytes(),
    )
    .unwrap();

    let notes = all_notes(&mut connection).expect("Failed to query notes").notes;
    let find = |path: &str| notes.iter().find(|(found, _)| found == path).map(|(_, note)| note);

    assert_eq!(
        find("/home/ferris/Documents/quicknotes/notes/hello-world.txt"),
        Some(&IndexedNote { preamble: preamble1, kind: NoteKind::Note })
    );

    assert_eq!(
        find("/home/ferris/Documents/quicknotes/notes/notes-notes-notes.txt"),
        Some(&IndexedNote { preamble: preamble2, kind: NoteKind::Note })
    );
}

#[test]
pub fn select_all_skips_notes_with_malformed_timestamps() {
    let mut connection = Connection::open_in_memory().expect("could not open test database");
    setup_database(&mut connection).expect("could not setup test database");

    let valid_note_preamble =
        Preamble { title: "This note is valid".to_string(), created_at: test_time() };

    add_note(
        &mut connection,
        &valid_note_preamble,
        NoteKind::Note,
        "/home/ferris/Documents/quicknotes/notes/this-note-is-valid.txt".as_bytes(),
    )
    .unwrap();

    connection
        .execute(
            r#"INSERT INTO notes VALUES (
                    "/home/ferris/Documents/quicknotes/notes/this-note-is-not-valid.txt",
                    "This note is not valid",
                    "malformed timestamp",
                    0,
                    'note'
                )"#,
            [],
        )
        .unwrap();

    let listing = all_notes(&mut connection).expect("Failed to query notes");

    // should only have the one note, which is the valid one
    assert_eq!(
        listing.notes,
        [(
            "/home/ferris/Documents/quicknotes/notes/this-note-is-valid.txt".to_string(),
            IndexedNote { preamble: valid_note_preamble, kind: NoteKind::Note }
        )]
    );
    assert_eq!(listing.skipped.len(), 1);
    assert_eq!(listing.skipped[0].1, RowFlaw::CreatedAt);
    assert_eq!(
        listing.skipped[0].0.filepath,
        "/home/ferris/Documents/quicknotes/notes/this-note-is-not-valid.txt"
    );
}

#[test]
pub fn delete_note_is_idempotent() {
    let mut connection = Connection::open_in_memory().expect("could not open test database");
    setup_database(&mut connection).expect("could not setup test database");

    // if this is ok, the test passes
    delete_note(&mut connection, "/does/not/exist".as_bytes()).expect("could not delete note");
}

#[test]
pub fn delete_note_removes_notes_from_database() {
    let mut connection = Connection::open_in_memory().expect("could not open test database");
    setup_database(&mut connection).expect("could not setup test database");

    connection
        .execute(
            r#"INSERT INTO notes VALUES (
                    "/home/ferris/Documents/quicknotes/notes/my-cool-note.txt",
                    "Hello, world!",
                    "2015-10-22T07:28:00.000",
                    0,
                    'note'
                )"#,
            [],
        )
        .unwrap();

    let notes = all_notes(&mut connection).expect("Failed to query notes").notes;

    // Prove the note is there
    assert!(!notes.is_empty());

    delete_note(
        &mut connection,
        "/home/ferris/Documents/quicknotes/notes/my-cool-note.txt".as_bytes(),
    )
    .expect("could not delete note");

    let notes = all_notes(&mut connection).expect("Failed to query notes").notes;

    // Prove the note is now gone
    assert!(notes.is_empty());
}

#[test]
fn delete_note_refuses_a_path_that_is_no_text() {
    let mut connection = Connection::open_in_memory().expect("could not open test database");
    setup_database(&mut connection).expect("could not setup test database");
    let result = delete_note(&mut connection, &[b'/', 0xC0, b'a']);
    assert!(matches!(result, Err(DeleteError::BadPath(bytes)) if bytes == vec![b'/', 0xC0, b'a']));
}

#[test]
fn insert_without_a_table_is_a_database_error() {
    let connection = Connection::open_in_memory().expect("could not open test database");
    let preamble = Preamble { title: "Hello world".to_string(), created_at: test_time() };
    let result = add_note(&connection, &preamble, NoteKind::Note, "/a.txt".as_bytes());
    assert!(matches!(result, Err(InsertError::DatabaseError(_))));
}

#[test]
fn setup_database_can_be_run_again() {
    let mut connection = Connection::open_in_memory().expect("could not open test database");
    setup_database(&mut connection).expect("could not setup test database");
    let preamble = Preamble { title: "Hello world".to_string(), created_at: test_time() };
    add_note(&connection, &preamble, NoteKind::Daily, "/a.txt".as_bytes()).unwrap();
    setup_database(&mut connection).expect("could not setup test database again");
    let notes = all_notes(&connection).unwrap().notes;
    assert_eq!(notes, [("/a.txt".to_string(), IndexedNote { preamble, kind: NoteKind::Daily })]);
}

#[test]
fn migration_turns_old_rows_into_notes() {
    let mut connection = Connection::open_in_memory().expect("could not open test database");
    Migrations::new(vec![M::up(migrations()[0])])
        .to_latest(&mut connection)
        .expect("could not make the first table");
    connection
        .execute(
            "INSERT INTO notes VALUES ('/old.txt', 'old', '2015-10-21T07:28:00', -25200)",
            [],
        )
        .unwrap();
    setup_database(&mut connection).expect("could not setup test database");
    let notes = all_notes(&connection).unwrap().notes;
    assert_eq!(
        notes,
        [(
            "/old.txt".to_string(),
            IndexedNote {
                preamble: Preamble { title: "old".to_string(), created_at: test_time() },
                kind: NoteKind::Note
            }
        )]
    );
}

#[test]
fn open_makes_the_table_in_a_new_file() {
    let directory = tempfile::tempdir().expect("could not make a directory");
    let path = directory.path().join(".index.sqlite3");
    let connection = open(path.to_str().unwrap()).expect("could not open the index");
    assert!(all_notes(&connection).unwrap().notes.is_empty());
    let preamble = Preamble { title: "kept".to_string(), created_at: test_time() };
    add_note(&connection, &preamble, NoteKind::Note, "/kept.txt".as_bytes()).unwrap();
    drop(connection);
    let connection = open(path.to_str().unwrap()).expect("could not open the index again");
    assert_eq!(all_notes(&connection).unwrap().notes.len(), 1);
}

#[test]
fn open_fails_where_no_file_can_be() {
    let directory = tempfile::tempdir().expect("could not make a directory");
    let path = directory.path().join("missing").join(".index.sqlite3");
    assert!(open(path.to_str().unwrap()).is_err());
}

#[test]
fn notes_keep_their_kind_and_fraction() {
    let connection = {
        let mut connection = Connection::open_in_memory().expect("could not open test database");
        setup_database(&mut connection).expect("could not setup test database");
        connection
    };
    let daily = Preamble {
        title: "2015-10-21".to_string(),
        created_at: Timestamp::new(2015, 10, 21, 7, 28, 0, 123_000_000, 3600).unwrap(),
    };
    let note = Preamble { title: "note".to_string(), created_at: test_time() };
    add_note(&connection, &daily, NoteKind::Daily, "/daily/2015-10-21.txt".as_bytes()).unwrap();
    add_note(&connection, &note, NoteKind::Note, "/notes/note.txt".as_bytes()).unwrap();

    let dailies = all_notes_with_kind(&connection, NoteKind::Daily).unwrap().notes;
    assert_eq!(
        dailies,
        [(
            "/daily/2015-10-21.txt".to_string(),
            IndexedNote { preamble: daily, kind: NoteKind::Daily }
        )]
    );
    let notes = all_notes_with_kind(&connection, NoteKind::Note).unwrap().notes;
    assert_eq!(
        notes,
        [("/notes/note.txt".to_string(), IndexedNote { preamble: note, kind: NoteKind::Note })]
    );
}

#[test]
fn kinds_have_their_words() {
    assert_eq!(NoteKind::Note.to_sql_enum(), "note");
    assert_eq!(NoteKind::Daily.to_sql_enum(), "daily");
    assert_eq!(NoteKind::try_from_sql_enum("note"), Ok(NoteKind::Note));
    assert_eq!(NoteKind::try_from_sql_enum("daily"), Ok(NoteKind::Daily));
    assert_eq!(NoteKind::try_from_sql_enum("Note").unwrap_err().0, "Note");
    assert_eq!(NoteKind::try_from_sql_enum("").unwrap_err().0, "");
}

#[test]
fn rows_are_encoded_column_by_column() {
    let preamble = Preamble {
        title: "Hello world".to_string(),
        created_at: Timestamp::new(2015, 10, 21, 7, 28, 0, 500_000_000, -7 * 60 * 60).unwrap(),
    };
    let row = encode_row(&preamble, NoteKind::Daily, "/daily/x.txt");
    assert_eq!(
        row,
        StoredRow {
            filepath: "/daily/x.txt".to_string(),
            title: "Hello world".to_string(),
            created_at: "2015-10-21T07:28:00.500".to_string(),
            utc_offset_seconds: -25200,
            kind: "daily".to_string(),
        }
    );
    assert_eq!(
        row_params(&row),
        vec![
            SqlParam::Text("/daily/x.txt".to_string()),
            SqlParam::Text("Hello world".to_string()),
            SqlParam::Text("2015-10-21T07:28:00.500".to_string()),
            SqlParam::Integer(-25200),
            SqlParam::Text("daily".to_string()),
        ]
    );
}

#[test]
fn rows_are_read_back() {
    let preamble = Preamble { title: "a title".to_string(), created_at: test_time() };
    let encoded = encode_row(&preamble, NoteKind::Note, "/notes/a.txt");
    assert_eq!(
        unpack_row(&encoded),
        Ok(("/notes/a.txt".to_string(), IndexedNote { preamble, kind: NoteKind::Note }))
    );
}

#[test]
fn rows_with_flaws_say_which() {
    assert_eq!(unpack_row(&row("/a", "2015-10-21T07:28:00", 86_400, "note")), Err(RowFlaw::UtcOffset));
    assert_eq!(unpack_row(&row("/a", "2015-10-21T07:28:00", -86_400, "bad")), Err(RowFlaw::UtcOffset));
    assert_eq!(unpack_row(&row("/a", "yesterday", 0, "bad")), Err(RowFlaw::CreatedAt));
    assert_eq!(unpack_row(&row("/a", "2015-10-21T07:28:00", 0, "bad")), Err(RowFlaw::Kind));
    assert_eq!(datetime_from_database("2015-10-21T07:28:00", 90_000), Err(RowFlaw::UtcOffset));
    assert_eq!(datetime_from_database("2015-13-21T07:28:00", 0), Err(RowFlaw::CreatedAt));
    assert_eq!(datetime_from_database("2015-10-21T07:28:00", -25200), Ok(test_time()));
}

#[test]
fn a_flawed_row_does_not_hide_its_neighbours() {
    let rows = vec![
        row("/first", "2015-10-21T07:28:00", -25200, "note"),
        row("/second", "malformed timestamp", 0, "note"),
        row("/third", "2015-10-21T07:28:00", -25200, "weekly"),
        row("/fourth", "2015-10-21T07:28:00", -25200, "daily"),
    ];
    let listing = unpack_rows(&rows);
    let paths: Vec<&str> = listing.notes.iter().map(|(path, _)| path.as_str()).collect();
    assert_eq!(paths, ["/first", "/fourth"]);
    assert_eq!(listing.notes[1].1.kind, NoteKind::Daily);
    assert_eq!(
        listing.skipped,
        [(rows[1].clone(), RowFlaw::CreatedAt), (rows[2].clone(), RowFlaw::Kind)]
    );
    let dailies = notes_with_kind(&listing.notes, NoteKind::Daily);
    assert_eq!(dailies.len(), 1);
    assert_eq!(dailies[0].0, "/fourth");
    assert!(unpack_rows(&Vec::new()).notes.is_empty());
}

#[test]
fn shared_titles_are_told_apart() {
    let note = |title: &str, day: u32| {
        (
            format!("/notes/{title}-{day}.txt"),
            IndexedNote {
                preamble: Preamble {
                    title: title.to_string(),
                    created_at: Timestamp::new(2015, 10, day, 7, 28, 0, 0, -25200).unwrap(),
                },
                kind: NoteKind::Note,
            },
        )
    };
    assert_eq!(
        quicknotes::index::shared_titles(&vec![note("abc", 21), note("def", 22), note("xyz", 23)]),
        [false, false, false]
    );
    assert_eq!(
        quicknotes::index::shared_titles(&vec![note("abc", 21), note("def", 22), note("abc", 23)]),
        [true, false, true]
    );
    assert_eq!(quicknotes::index::shared_titles(&vec![note("abc", 21)]), [false]);
    assert!(quicknotes::index::shared_titles(&Vec::new()).is_empty());
}

#[test]
fn reading_and_deleting_without_a_table_are_database_errors() {
    let connection = Connection::open_in_memory().expect("could not open test database");
    assert!(all_notes(&connection).is_err());
    assert!(all_notes_with_kind(&connection, NoteKind::Note).is_err());
    assert!(matches!(
        delete_note(&connection, "/a.txt".as_bytes()),
        Err(DeleteError::DatabaseError(_))
    ));
}

#[test]
fn a_file_that_is_no_database_cannot_be_set_up() {
    let directory = tempfile::tempdir().expect("could not make a directory");
    let path = directory.path().join(".index.sqlite3");
    {
        let mut file = tempfile::NamedTempFile::new_in(directory.path()).unwrap();
        std::io::Write::write_all(&mut file, &[b'x'; 4096]).unwrap();
        file.persist(&path).unwrap();
    }
    let result = open(path.to_str().unwrap());
    assert!(matches!(result, Err(quicknotes::index::OpenError::MigrationError(_))));
}

#[test]
fn a_row_of_the_wrong_type_fails_the_whole_listing() {
    let mut connection = Connection::open_in_memory().expect("could not open test database");
    setup_database(&mut connection).expect("could not setup test database");
    connection
        .execute("INSERT INTO notes VALUES ('/a.txt', 'a', '2015-10-21T07:28:00', 'soon', 'note')", [])
        .unwrap();
    assert!(all_notes(&connection).is_err());
}

fn make_created_at(day_offset: u32) -> Timestamp {
    Timestamp::new(2015, 10, 21 + day_offset, 7, 28, 0, 0, -7 * 60 * 60).unwrap()
}

fn titled(path: &str, title: &str, day_offset: u32) -> (String, IndexedNote) {
    (
        path.to_string(),
        IndexedNote {
            preamble: Preamble { created_at: make_created_at(day_offset), title: title.to_string() },
            kind: NoteKind::Note,
        },
    )
}

fn title_overrides(notes: &Vec<(String, IndexedNote)>) -> Vec<(String, Option<String>)> {
    quicknotes::index::shared_titles(notes)
        .into_iter()
        .zip(notes)
        .map(|(shared, (path, note))| {
            let shown = format!(
                "{} {}",
                note.preamble.title,
                note.preamble.created_at.to_display_text()
            );
            (path.clone(), shared.then_some(shown))
        })
        .collect()
}

#[test]
fn build_index_entries_does_not_override_titles_for_unique_notes() {
    let notes = vec![
        titled("/home/ferris/Documents/quicknotes/notes/abc.txt", "abc", 0),
        titled("/home/ferris/Documents/quicknotes/notes/def.txt", "def", 1),
        titled("/home/ferris/Documents/quicknotes/notes/xyz.txt", "xyz", 2),
    ];

    let overrides =
        title_overrides(&notes).into_iter().map(|(_path, shown)| shown).collect::<Vec<_>>();

    assert!(overrides == vec![None, None, None]);
}

#[test]
fn build_index_entries_overrides_titles_of_notes_with_matching_titles() {
    let notes = vec![
        titled("/home/ferris/Documents/quicknotes/notes/abc.txt", "abc", 0),
        titled("/home/ferris/Documents/quicknotes/notes/def.txt", "def", 1),
        titled("/home/ferris/Documents/quicknotes/notes/abc2.txt", "abc", 2),
    ];

    let overrides = title_overrides(&notes);

    let expected = vec![
        (
            "/home/ferris/Documents/quicknotes/notes/abc.txt".to_string(),
            Some("abc (2015-10-21 07:28:00)".to_string()),
        ),
        ("/home/ferris/Documents/quicknotes/notes/def.txt".to_string(), None),
        (
            "/home/ferris/Documents/quicknotes/notes/abc2.txt".to_string(),
            Some("abc (2015-10-23 07:28:00)".to_string()),
        ),
    ];

    assert_eq!(overrides, expected);
}

#[test]
fn title_override_starts_with_title() {
    let notes = vec![titled("/a.txt", "abc", 0), titled("/b.txt", "abc", 0)];

    let title = title_overrides(&notes)[0].1.clone().unwrap();

    assert!(title.starts_with("abc "));
}

#[test]
fn title_override_contains_the_date() {
    let title = make_created_at(0).to_display_text();

    assert!(title.contains("2015-10-21 07:28:00"));
}

#[test]
fn answers_of_the_database_are_passed_on() {
    let stored = row("/a.txt", "2015-10-21T07:28:00", -25200, "note");
    assert_eq!(quicknotes::index::insert_outcome(stored.clone(), Ok(1)).unwrap(), stored);
    assert!(matches!(
        quicknotes::index::insert_outcome(stored.clone(), Err(rusqlite::Error::InvalidQuery)),
        Err(InsertError::DatabaseError(rusqlite::Error::InvalidQuery))
    ));
    assert!(quicknotes::index::delete_outcome(Ok(0)).is_ok());
    assert!(quicknotes::index::delete_outcome(Ok(1)).is_ok());
    assert!(matches!(
        quicknotes::index::delete_outcome(Err(rusqlite::Error::QueryReturnedNoRows)),
        Err(DeleteError::DatabaseError(rusqlite::Error::QueryReturnedNoRows))
    ));
    let listing = quicknotes::index::lookup_outcome(Ok(vec![
        stored.clone(),
        row("/b.txt", "soon", 0, "note"),
    ]))
    .unwrap();
    assert_eq!(listing.notes.len(), 1);
    assert_eq!(listing.notes[0].0, "/a.txt");
    assert_eq!(listing.skipped, [(row("/b.txt", "soon", 0, "note"), RowFlaw::CreatedAt)]);
    assert!(matches!(
        quicknotes::index::lookup_outcome(Err(rusqlite::Error::InvalidQuery)),
        Err(quicknotes::index::LookupError(rusqlite::Error::InvalidQuery))
    ));
    assert!(quicknotes::index::setup_outcome(Ok(())).is_ok());
    assert!(matches!(
        quicknotes::index::setup_outcome(Err(rusqlite_migration::Error::RusqliteError {
            query: "CREATE".to_string(),
            err: rusqlite::Error::InvalidQuery,
        })),
        Err(quicknotes::index::MigrationError(_))
    ));
}

#[test]
fn a_path_is_listed_once_with_the_note_of_its_last_row() {
    let mut renamed = row("/first", "2015-10-22T07:28:00", 0, "daily");
    renamed.title = "another title".to_string();
    let rows = vec![
        row("/first", "2015-10-21T07:28:00", -25200, "note"),
        row("/second", "2015-10-21T07:28:00", -25200, "note"),
        renamed,
        row("/second", "malformed timestamp", 0, "note"),
    ];
    let listing = unpack_rows(&rows);
    let paths: Vec<&str> = listing.notes.iter().map(|(path, _)| path.as_str()).collect();
    assert_eq!(paths, ["/first", "/second"]);
    assert_eq!(listing.notes[0].1.preamble.title, "another title");
    assert_eq!(listing.notes[0].1.kind, NoteKind::Daily);
    assert_eq!(listing.notes[1].1.kind, NoteKind::Note);
    assert_eq!(listing.skipped, [(rows[3].clone(), RowFlaw::CreatedAt)]);
    assert_eq!(place_in(&listing.notes, &"/second".to_string()), Some(1));
    assert_eq!(place_in(&listing.notes, &"/third".to_string()), None);
}
