//! Where a collection of notes lives on disk.

use vstd::prelude::*;

use crate::edit::CommandEditor;

verus! {

/// The path that results from adjoining the relative path `name` to `base`,
/// as the platform's path rules have it.
pub uninterp spec fn joined_path(base: Seq<char>, name: Seq<char>) -> Seq<char>;

/// Calls `std::path::Path::join` on `base` with `name`. Claimed: the joined
/// path depends on the two texts alone. Both are UTF-8, so the result is too
/// and turning it back into a `String` changes nothing.
#[verifier::external_body]
pub(crate) fn join_path(base: &str, name: &str) -> (joined: String)
    ensures
        joined@ == joined_path(base@, name@),
{
    std::path::Path::new(base).join(name).to_string_lossy().into_owned()
}

/// The settings that every operation on the collection needs.
#[derive(Clone, Debug, PartialEq, Eq)]
pub struct NoteConfig {
    /// The directory that holds the notes, the dailies and the index.
    pub root_dir: String,
    /// The extension of every note file, without the dot.
    pub file_extension: String,
    /// Where to stage notes, if not in the system's temporary directory.
    pub temp_root_override: Option<String>,
}

impl NoteConfig {
    /// The directory of the titled notes.
    #[must_use]
    pub fn notes_directory_path(&self) -> (path: String)
        ensures
            path@ == joined_path(self.root_dir@, "notes"@),
    {
        join_path(self.root_dir.as_str(), "notes")
    }

    /// The directory of the daily notes.
    #[must_use]
    pub fn daily_directory_path(&self) -> (path: String)
        ensures
            path@ == joined_path(self.root_dir@, "daily"@),
    {
        join_path(self.root_dir.as_str(), "daily")
    }

    /// The file of the index database.
    #[must_use]
    pub fn index_db_path(&self) -> (path: String)
        ensures
            path@ == joined_path(self.root_dir@, ".index.sqlite3"@),
    {
        join_path(self.root_dir.as_str(), ".index.sqlite3")
    }
}

/// Whether a path names its place from the root of the file system, as the
/// platform's path rules have it.
pub uninterp spec fn is_absolute_path(path: Seq<char>) -> bool;

/// Calls `std::path::Path::is_absolute`. Claimed: the answer depends on the
/// path alone.
#[verifier::external_body]
fn path_is_absolute(path: &str) -> (absolute: bool)
    ensures
        absolute == is_absolute_path(path@),
{
    std::path::Path::new(path).is_absolute()
}

/// `text` without the dots that it starts with.
pub open spec fn without_leading_dots(text: Seq<char>) -> Seq<char>
    decreases text.len(),
{
    if text.len() > 0 && text[0] == '.' {
        without_leading_dots(text.drop_first())
    } else {
        text
    }
}

/// The settings as the configuration file holds them.
#[derive(Clone, Debug, PartialEq, Eq)]
pub struct OnDiskConfig {
    pub notes_root: String,
    pub note_file_extension: String,
    pub editor_command: Option<String>,
}

/// The configured root of the collection is no absolute path.
#[derive(Clone, Debug, PartialEq, Eq)]
pub struct RelativeRootError(pub String);

impl OnDiskConfig {
    /// The settings for the collection and the editor to write with. The
    /// editor is the configured one, and the fallback where none is
    /// configured.
    pub fn unpack(self, fallback_editor_command: &str) -> (unpacked: (NoteConfig, CommandEditor))
        ensures
            unpacked.0.root_dir == self.notes_root,
            unpacked.0.file_extension == self.note_file_extension,
            unpacked.0.temp_root_override is None,
            unpacked.1.command()@ == match self.editor_command {
                Some(command) => command@,
                None => fallback_editor_command@,
            },
    {
        let command = match self.editor_command {
            Some(command) => command,
            None => String::from_str(fallback_editor_command),
        };
        let note_config = NoteConfig {
            root_dir: self.notes_root,
            file_extension: self.note_file_extension,
            temp_root_override: None,
        };
        (note_config, CommandEditor::new(command))
    }

    /// The extension of note files as it is kept: without the dots that the
    /// configured one starts with.
    pub fn deserialize_extension(raw: &str) -> (extension: String)
        ensures
            extension@ == without_leading_dots(raw@),
    {
        let mut extension = String::new();
        let mut leading = true;
        proof {
            assert(raw@.skip(0) =~= raw@);
        }
        for ch in it: raw.chars()
            invariant
                it.seq() == raw@,
                leading ==> extension@.len() == 0 && without_leading_dots(raw@)
                    == without_leading_dots(raw@.skip(it.index() as int)),
                !leading ==> without_leading_dots(raw@) == extension@ + raw@.skip(
                    it.index() as int,
                ),
        {
            proof {
                let rest = raw@.skip(it.index() as int);
                assert(rest[0] == ch);
                assert(rest.drop_first() =~= raw@.skip(it.index() + 1));
                assert(extension@ + rest =~= extension@.push(ch) + raw@.skip(it.index() + 1));
                assert(Seq::<char>::empty() + rest =~= rest);
            }
            if leading && ch == '.' {
            } else {
                leading = false;
                extension.push(ch);
            }
        }
        proof {
            assert(raw@.skip(raw@.len() as int) =~= Seq::<char>::empty());
            assert(extension@ + Seq::<char>::empty() =~= extension@);
        }
        extension
    }

    /// The root of the collection as it is kept: the configured one, which
    /// has to be an absolute path.
    pub fn deserialize_notes_root(raw: &str) -> (root: Result<String, RelativeRootError>)
        ensures
            match root {
                Ok(root) => is_absolute_path(raw@) && root@ == raw@,
                Err(error) => !is_absolute_path(raw@) && error.0@ == raw@,
            },
    {
        if path_is_absolute(raw) {
            Ok(String::from_str(raw))
        } else {
            Err(RelativeRootError(String::from_str(raw)))
        }
    }
}

} // verus!
