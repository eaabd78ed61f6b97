use quicknotes::storage::{
    find_next_destination_basename, is_different, store_if_different, Commit,
    CopyToDestinationError, FindNextDestinationBasenameError,
    GenerateUnclobberedDestinationError, InnerStoreIfDifferentError, InnerStoreNoteError,
    IoFailure, IoFailureKind, Reply, Request, StoreNote, StoreNoteAt, StoreNoteAtError,
    StoreNoteError, StoreNoteIn, StoreNoteInError,
};

fn taken() -> CopyToDestinationError {
    CopyToDestinationError::FileSetupError(IoFailure {
        kind: IoFailureKind::AlreadyExists,
        message: "File exists (os error 17)".to_string(),
    })
}

fn denied() -> IoFailure {
    IoFailure { kind: IoFailureKind::Other, message: "Permission denied (os error 13)".to_string() }
}

fn store_in() -> StoreNoteIn {
    StoreNoteIn {
        storage_directory: "/notes".to_string(),
        preferred_file_stem: "my-cool-note".to_string(),
        file_extension: "txt".to_string(),
    }
}

fn names(list: &[&str]) -> Vec<String> {
    list.iter().map(|name| name.to_string()).collect()
}

fn copy_destination(commit: &Commit) -> String {
    match commit.request() {
        Request::CopyExclusive { destination } => destination,
        other => panic!("expected a copy, got {:?}", other),
    }
}

#[test]
fn next_basename_starts_at_one() {
    let listing = names(&["my-cool-note.txt", "other.txt"]);
    assert_eq!(find_next_destination_basename(&listing, "my-cool-note", "txt").unwrap(), "my-cool-note-1.txt");
}

#[test]
fn next_basename_is_one_above_the_largest() {
    let listing =
        names(&["my-cool-note.txt", "my-cool-note-1.txt", "my-cool-note-3.txt", "my-cool-note-2.txt"]);
    assert_eq!(find_next_destination_basename(&listing, "my-cool-note", "txt").unwrap(), "my-cool-note-4.txt");
}

#[test]
fn next_basename_counts_in_decimal() {
    let listing = names(&["a-9.md", "a-10.md", "a-99.md"]);
    assert_eq!(find_next_destination_basename(&listing, "a", "md").unwrap(), "a-100.md");
}

#[test]
fn next_basename_takes_the_stem_letter_by_letter() {
    let listing = names(&["a+b-7.txt", "aab-9.txt"]);
    assert_eq!(find_next_destination_basename(&listing, "a+b", "txt").unwrap(), "a+b-8.txt");
}

#[test]
fn next_basename_is_case_sensitive() {
    let listing = names(&["Note-5.txt"]);
    assert_eq!(find_next_destination_basename(&listing, "note", "txt").unwrap(), "note-1.txt");
}

#[test]
fn next_basename_counts_numbers_of_every_size() {
    let listing = names(&["a-99999999999.txt", "a-2.txt"]);
    assert_eq!(
        find_next_destination_basename(&listing, "a", "txt").unwrap(),
        "a-100000000000.txt"
    );
    let listing = names(&["a-4294967295.txt"]);
    assert_eq!(find_next_destination_basename(&listing, "a", "txt").unwrap(), "a-4294967296.txt");
    let listing = names(&["a-4294967295.txt", "a-4294967296.txt"]);
    assert_eq!(find_next_destination_basename(&listing, "a", "txt").unwrap(), "a-4294967297.txt");
    let listing = names(&["a.txt", "a-4294967296.txt"]);
    assert_eq!(find_next_destination_basename(&listing, "a", "txt").unwrap(), "a-4294967297.txt");
    let listing = names(&["a-18446744073709551614.txt", "a-7.txt"]);
    assert_eq!(
        find_next_destination_basename(&listing, "a", "txt").unwrap(),
        "a-18446744073709551615.txt"
    );
}

#[test]
fn next_basename_is_not_picked_where_the_number_does_not_fit() {
    let listing = names(&["a-18446744073709551615.txt", "a-7.txt"]);
    assert_eq!(
        find_next_destination_basename(&listing, "a", "txt"),
        Err(FindNextDestinationBasenameError::NumbersExhausted)
    );
    let listing = names(&["a-18446744073709551616.txt"]);
    assert_eq!(
        find_next_destination_basename(&listing, "a", "txt"),
        Err(FindNextDestinationBasenameError::NumbersExhausted)
    );
    let listing = names(&["a-1.txt", "a-000100000000000000000000000000.txt"]);
    assert_eq!(
        find_next_destination_basename(&listing, "a", "txt"),
        Err(FindNextDestinationBasenameError::NumbersExhausted)
    );
    let listing = names(&["a-000000000000000000000000000041.txt"]);
    assert_eq!(find_next_destination_basename(&listing, "a", "txt").unwrap(), "a-42.txt");
}

#[test]
fn store_in_gives_up_where_no_number_is_left() {
    let commit = store_in().store("/tmp/staged.txt".to_string());
    let commit = commit.advance(Reply::CopyRefused(taken()));
    let commit = commit.advance(Reply::Listed(names(&[
        "my-cool-note.txt",
        "my-cool-note-18446744073709551615.txt",
    ])));
    assert_eq!(commit.request(), Request::KeepStaged);
    let commit = commit.advance(Reply::Kept);
    let error = commit.outcome().expect("commit has ended").expect_err("commit failed");
    assert_eq!(
        error.0,
        InnerStoreIfDifferentError::StoreNoteError(StoreNoteError {
            inner: InnerStoreNoteError::StoreNoteInError(
                StoreNoteInError::NoteClobberPreventionError {
                    src: "/tmp/staged.txt".to_string(),
                    destination: "/notes/my-cool-note.txt".to_string(),
                    err: GenerateUnclobberedDestinationError(
                        FindNextDestinationBasenameError::NumbersExhausted
                    ),
                }
            ),
        })
    );
}

#[test]
fn store_in_never_asks_twice_for_a_taken_name() {
    let commit = store_in().store("/tmp/staged.txt".to_string());
    let commit = commit.advance(Reply::CopyRefused(taken()));
    let commit = commit.advance(Reply::Listed(names(&[
        "my-cool-note.txt",
        "my-cool-note-4294967295.txt",
        "my-cool-note-4294967296.txt",
    ])));
    assert_eq!(copy_destination(&commit), "/notes/my-cool-note-4294967297.txt");
}

#[test]
fn identical_content_is_not_different() {
    assert!(!is_different("---\ntitle\n---\n\n".as_bytes(), "---\ntitle\n---\n\n"));
}

#[test]
fn one_changed_byte_is_different() {
    assert!(is_different("---\ntitle\n---\n\nx".as_bytes(), "---\ntitle\n---\n\n"));
    assert!(is_different("".as_bytes(), " "));
}

#[test]
fn store_in_commits_at_the_preferred_name() {
    let commit = store_in().store("/tmp/staged.txt".to_string());
    assert_eq!(copy_destination(&commit), "/notes/my-cool-note.txt");
    let commit = commit.advance(Reply::Copied);
    assert_eq!(commit.request(), Request::Finished);
    assert_eq!(commit.outcome(), Some(Ok(Some("/notes/my-cool-note.txt".to_string()))));
}

#[test]
fn store_in_takes_the_next_number_on_collision() {
    let commit = store_in().store("/tmp/staged.txt".to_string());
    let commit = commit.advance(Reply::CopyRefused(taken()));
    assert_eq!(
        commit.request(),
        Request::ListDirectory {
            directory: "/notes".to_string(),
            taken: "/notes/my-cool-note.txt".to_string()
        }
    );
    let commit = commit.advance(Reply::Listed(names(&["my-cool-note.txt"])));
    assert_eq!(copy_destination(&commit), "/notes/my-cool-note-1.txt");
    let commit = commit.advance(Reply::CopyRefused(taken()));
    let commit = commit.advance(Reply::Listed(names(&["my-cool-note.txt", "my-cool-note-1.txt"])));
    assert_eq!(copy_destination(&commit), "/notes/my-cool-note-2.txt");
    let commit = commit.advance(Reply::Copied);
    assert_eq!(commit.outcome(), Some(Ok(Some("/notes/my-cool-note-2.txt".to_string()))));
}

#[test]
fn store_in_skips_names_seeded_on_disk() {
    let commit = store_in().store("/tmp/staged.txt".to_string());
    let commit = commit.advance(Reply::CopyRefused(taken()));
    let commit = commit.advance(Reply::Listed(names(&[
        "my-cool-note.txt",
        "my-cool-note-1.txt",
        "my-cool-note-2.txt",
        "my-cool-note-3.txt",
    ])));
    assert_eq!(copy_destination(&commit), "/notes/my-cool-note-4.txt");
}

#[test]
fn store_in_reports_a_failed_listing_after_keeping_the_note() {
    let commit = store_in().store("/tmp/staged.txt".to_string());
    let commit = commit.advance(Reply::CopyRefused(taken()));
    let commit = commit.advance(Reply::ListFailed(denied()));
    assert_eq!(commit.request(), Request::KeepStaged);
    let commit = commit.advance(Reply::Kept);
    assert_eq!(commit.request(), Request::Finished);
    let error = commit.outcome().expect("commit has ended").expect_err("commit failed");
    match error.0 {
        InnerStoreIfDifferentError::StoreNoteError(inner) => match inner.inner {
            InnerStoreNoteError::StoreNoteInError(
                StoreNoteInError::NoteClobberPreventionError { src, destination, .. },
            ) => {
                assert_eq!(src, "/tmp/staged.txt");
                assert_eq!(destination, "/notes/my-cool-note.txt");
            }
            other => panic!("unexpected error {:?}", other),
        },
        other => panic!("unexpected error {:?}", other),
    }
}

#[test]
fn store_in_reports_a_failed_copy() {
    let commit = store_in().store("/tmp/staged.txt".to_string());
    let commit = commit.advance(Reply::CopyRefused(CopyToDestinationError::CopyError(denied())));
    assert_eq!(commit.request(), Request::KeepStaged);
    let commit = commit.advance(Reply::Kept);
    let error = commit.outcome().expect("commit has ended").expect_err("commit failed");
    match error.0 {
        InnerStoreIfDifferentError::StoreNoteError(inner) => match inner.inner {
            InnerStoreNoteError::StoreNoteInError(StoreNoteInError::CopyError {
                src,
                destination,
                err,
            }) => {
                assert_eq!(src, "/tmp/staged.txt");
                assert_eq!(destination, "/notes/my-cool-note.txt");
                assert_eq!(err, denied());
            }
            other => panic!("unexpected error {:?}", other),
        },
        other => panic!("unexpected error {:?}", other),
    }
}

#[test]
fn store_at_never_picks_another_name() {
    let store = StoreNoteAt { destination: "/daily/2015-10-21.txt".to_string() };
    let commit = store.store("/tmp/staged.txt".to_string());
    assert_eq!(copy_destination(&commit), "/daily/2015-10-21.txt");
    let commit = commit.advance(Reply::CopyRefused(taken()));
    assert_eq!(commit.request(), Request::KeepStaged);
    let commit = commit.advance(Reply::Kept);
    let error = commit.outcome().expect("commit has ended").expect_err("commit failed");
    match error.0 {
        InnerStoreIfDifferentError::StoreNoteError(inner) => match inner.inner {
            InnerStoreNoteError::StoreNoteAtError(StoreNoteAtError::NoteClobberPrevented {
                src,
                destination,
                ..
            }) => {
                assert_eq!(src, "/tmp/staged.txt");
                assert_eq!(destination, "/daily/2015-10-21.txt");
            }
            other => panic!("unexpected error {:?}", other),
        },
        other => panic!("unexpected error {:?}", other),
    }
}

#[test]
fn a_note_that_cannot_be_kept_is_shown() {
    let store = StoreNoteAt { destination: "/daily/2015-10-21.txt".to_string() };
    let commit = store.store("/tmp/staged.txt".to_string());
    let commit = commit.advance(Reply::CopyRefused(CopyToDestinationError::CopyError(denied())));
    let commit = commit.advance(Reply::KeepFailed(denied()));
    assert_eq!(commit.request(), Request::ReadStagedText);
    let commit = commit.advance(Reply::Read("my words".to_string()));
    assert_eq!(commit.rescued_text(), Some("my words".to_string()));
    let error = commit.outcome().expect("commit has ended").expect_err("commit failed");
    assert!(matches!(
        error.0,
        InnerStoreIfDifferentError::StoreNoteError(inner)
            if matches!(inner.inner, InnerStoreNoteError::StoreNoteAtError(StoreNoteAtError::CopyError { .. }))
    ));
}

#[test]
fn a_note_that_can_be_neither_kept_nor_read_is_lost() {
    let commit = store_in().store("/tmp/staged.txt".to_string());
    let commit = commit.advance(Reply::CopyRefused(CopyToDestinationError::CopyError(denied())));
    let commit = commit.advance(Reply::KeepFailed(denied()));
    let commit = commit.advance(Reply::ReadFailed(denied()));
    assert_eq!(commit.rescued_text(), None);
    let error = commit.outcome().expect("commit has ended").expect_err("commit failed");
    match error.0 {
        InnerStoreIfDifferentError::StoreNoteError(inner) => match inner.inner {
            InnerStoreNoteError::StoreNoteInError(StoreNoteInError::TryPreserveNoteError(lost)) => {
                assert_eq!(lost.keep_error, denied());
                assert_eq!(lost.read_error, denied());
            }
            other => panic!("unexpected error {:?}", other),
        },
        other => panic!("unexpected error {:?}", other),
    }
}

#[test]
fn unchanged_content_produces_no_path() {
    let commit = store_if_different(store_in(), "/tmp/staged.txt".to_string(), "same text");
    assert_eq!(commit.request(), Request::ReadStagedBytes);
    let commit = commit.advance(Reply::Staged("same text".as_bytes().to_vec()));
    assert_eq!(commit.request(), Request::Finished);
    assert_eq!(commit.outcome(), Some(Ok(None)));
}

#[test]
fn changed_content_is_committed() {
    let commit = store_if_different(store_in(), "/tmp/staged.txt".to_string(), "same text");
    let commit = commit.advance(Reply::Staged("same text!".as_bytes().to_vec()));
    assert_eq!(copy_destination(&commit), "/notes/my-cool-note.txt");
    assert_eq!(commit.outcome(), None);
}

#[test]
fn an_unreadable_staged_note_is_kept_and_reported() {
    let commit = store_if_different(store_in(), "/tmp/staged.txt".to_string(), "same text");
    let commit = commit.advance(Reply::StagedUnreadable(denied()));
    assert_eq!(commit.request(), Request::KeepStaged);
    let commit = commit.advance(Reply::Kept);
    let error = commit.outcome().expect("commit has ended").expect_err("commit failed");
    assert_eq!(
        error.0,
        InnerStoreIfDifferentError::CheckFileError {
            path: "/tmp/staged.txt".to_string(),
            err: denied()
        }
    );
}

#[test]
fn an_answer_that_was_not_asked_for_changes_nothing() {
    let commit = store_in().store("/tmp/staged.txt".to_string());
    let commit = commit.advance(Reply::Kept);
    assert_eq!(copy_destination(&commit), "/notes/my-cool-note.txt");
    let commit = commit.advance(Reply::Listed(names(&["my-cool-note-8.txt"])));
    assert_eq!(copy_destination(&commit), "/notes/my-cool-note.txt");
}

#[test]
fn digests_are_sha_256() {
    let hex = |bytes: Vec<u8>| bytes.iter().map(|byte| format!("{byte:02x}")).collect::<String>();
    assert_eq!(
        hex(quicknotes::storage::digest(b"abc")),
        "ba7816bf8f01cfea414140de5dae2223b00361a396177a9cb410ff61f20015ad"
    );
    assert_eq!(
        hex(quicknotes::storage::digest(b"")),
        "e3b0c44298fc1c149afbf4c8996fb92427ae41e4649b934ca495991b7852b855"
    );
}

#[test]
fn a_lost_note_is_reported_in_place_of_the_cause() {
    let store = StoreNoteAt { destination: "/daily/2015-10-21.txt".to_string() };
    let commit = store.store("/tmp/staged.txt".to_string());
    let commit = commit.advance(Reply::CopyRefused(taken()));
    let commit = commit.advance(Reply::KeepFailed(denied()));
    let commit = commit.advance(Reply::ReadFailed(denied()));
    let error = commit.outcome().expect("commit has ended").expect_err("commit failed");
    assert!(matches!(
        error.0,
        InnerStoreIfDifferentError::StoreNoteError(inner)
            if matches!(
                inner.inner,
                InnerStoreNoteError::StoreNoteAtError(StoreNoteAtError::TryPreserveNoteError(_))
            )
    ));

    let commit = store_if_different(store_in(), "/tmp/staged.txt".to_string(), "same text");
    let commit = commit.advance(Reply::StagedUnreadable(denied()));
    let commit = commit.advance(Reply::KeepFailed(denied()));
    let commit = commit.advance(Reply::ReadFailed(denied()));
    let error = commit.outcome().expect("commit has ended").expect_err("commit failed");
    assert!(matches!(error.0, InnerStoreIfDifferentError::TryPreserveNoteError(_)));
}

#[test]
fn a_finished_commit_stays_finished() {
    let commit = store_in().store("/tmp/staged.txt".to_string());
    let commit = commit.advance(Reply::Copied);
    let commit = commit.advance(Reply::CopyRefused(taken()));
    let commit = commit.advance(Reply::Kept);
    assert_eq!(commit.request(), Request::Finished);
    assert_eq!(commit.outcome(), Some(Ok(Some("/notes/my-cool-note.txt".to_string()))));
}

#[test]
fn a_copy_error_tells_whether_the_destination_exists() {
    assert!(taken().is_destination_exists());
    assert!(!CopyToDestinationError::CopyError(denied()).is_destination_exists());
    assert!(!CopyToDestinationError::FileSetupError(denied()).is_destination_exists());
    let late = CopyToDestinationError::CopyError(IoFailure {
        kind: IoFailureKind::AlreadyExists,
        message: "late".to_string(),
    });
    assert!(!late.is_destination_exists());
    assert_eq!(taken().into_failure().kind, IoFailureKind::AlreadyExists);
    assert_eq!(CopyToDestinationError::CopyError(denied()).into_failure(), denied());
}

#[test]
fn numbered_names_have_a_hyphen_and_a_dot() {
    assert_eq!(quicknotes::storage::numbered_name("stem", 0, "ext"), "stem-0.ext");
    assert_eq!(quicknotes::storage::numbered_name("", 18446744073709551615, ""), "-18446744073709551615.");
    assert_eq!(
        quicknotes::storage::next_suffix(&names(&["x-41.md", "x-7.md"]), "x", "md"),
        Some(42)
    );
    assert_eq!(quicknotes::storage::next_suffix(&Vec::new(), "x", "md"), Some(1));
    assert_eq!(
        quicknotes::storage::next_suffix(&names(&["x-18446744073709551615.md"]), "x", "md"),
        None
    );
}

#[test]
fn only_whole_names_of_the_numbered_form_count() {
    let listing = names(&["note.txt", "xnote-7.txt", "note-8.txt.bak"]);
    assert_eq!(find_next_destination_basename(&listing, "note", "txt").unwrap(), "note-1.txt");
    let listing = names(&["note-12txt", "prefix-note-30.txt.bak", "note-7.txt "]);
    assert_eq!(find_next_destination_basename(&listing, "note", "txt").unwrap(), "note-1.txt");
    let listing = names(&["note-.txt", "note-1-2.txt", "note--3.txt", "note-+4.txt", "note-5.TXT"]);
    assert_eq!(find_next_destination_basename(&listing, "note", "txt").unwrap(), "note-1.txt");
    let listing = names(&["note-\u{663}.txt", "note-2.txt"]);
    assert_eq!(find_next_destination_basename(&listing, "note", "txt").unwrap(), "note-3.txt");
}

#[test]
fn numbers_count_with_zeros_in_front() {
    let listing = names(&["note-007.txt", "note-3.txt"]);
    assert_eq!(find_next_destination_basename(&listing, "note", "txt").unwrap(), "note-8.txt");
}

#[test]
fn stems_and_extensions_are_taken_as_they_are() {
    let listing = names(&["a-3.tar.gz", "a-9.gz"]);
    assert_eq!(find_next_destination_basename(&listing, "a", "tar.gz").unwrap(), "a-4.tar.gz");
    let listing = names(&["v1.2-5.txt", "v1x2-9.txt"]);
    assert_eq!(find_next_destination_basename(&listing, "v1.2", "txt").unwrap(), "v1.2-6.txt");
    let listing = names(&["-1.", "-x."]);
    assert_eq!(find_next_destination_basename(&listing, "", "").unwrap(), "-2.");
    assert_eq!(
        quicknotes::storage::suffix_number(&vec!['n'], &vec!['t'], "n-42.t"),
        Some(42)
    );
    assert_eq!(quicknotes::storage::suffix_number(&vec!['n'], &vec!['t'], "n-42.tt"), None);
    assert_eq!(
        quicknotes::storage::suffix_number(&vec!['n'], &vec!['t'], "n-99999999999999999999.t"),
        Some(u64::MAX)
    );
}

#[test]
fn numbers_are_read_out_of_a_part_of_a_text() {
    let chars = quicknotes::text::chars_of("n-\u{e9}42.t");
    assert_eq!(chars, ['n', '-', '\u{e9}', '4', '2', '.', 't']);
    assert_eq!(quicknotes::text::parse_number_within(&chars, 3, 5), Some(42));
    assert_eq!(quicknotes::text::parse_number_within(&chars, 4, 5), Some(2));
    assert_eq!(quicknotes::text::parse_number_within(&chars, 2, 5), None);
    assert_eq!(quicknotes::text::parse_number_within(&chars, 3, 3), None);
    assert_eq!(quicknotes::text::parse_number_within(&chars, 5, 3), None);
    assert_eq!(quicknotes::text::parse_number_within(&chars, 3, 8), None);
}

#[test]
fn numbers_are_read_in_ascii_digits_only() {
    let read = |text: &str| {
        let chars = quicknotes::text::chars_of(text);
        quicknotes::text::parse_number_within(&chars, 0, chars.len())
    };
    assert_eq!(read("0"), Some(0));
    assert_eq!(read("0042"), Some(42));
    assert_eq!(read("4294967296"), Some(4_294_967_296));
    assert_eq!(read("18446744073709551614"), Some(18_446_744_073_709_551_614));
    assert_eq!(read("18446744073709551615"), Some(u64::MAX));
    assert_eq!(read("18446744073709551616"), Some(u64::MAX));
    assert_eq!(read("99999999999999999999999999999999999999999999"), Some(u64::MAX));
    assert_eq!(read("0000000000000000000000018446744073709551614"), Some(u64::MAX - 1));
    assert_eq!(read(""), None);
    assert_eq!(read("+1"), None);
    assert_eq!(read("1 "), None);
    assert_eq!(read("99999999999999999999999999999999999999999999x"), None);
    assert_eq!(read("\u{661}"), None);
}
