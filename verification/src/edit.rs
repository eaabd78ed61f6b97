//! The editor that the user writes notes with.

use vstd::prelude::*;

use crate::failure::IoFailure;

verus! {

/// A text editor that can edit the note at a given path. Nothing is asked of
/// the editor itself, only that it works on the file and comes back.
pub trait Editor {
    /// The name to call the editor by in messages.
    fn name(&self) -> &str;

    /// Lets the user edit the note at `path`, and returns when they are done.
    fn edit(&self, path: &str) -> Result<(), IoFailure>;
}

/// A borrowed editor is the editor: it goes by the name and gives the answer
/// of the editor behind it.
impl<E: Editor> Editor for &E {
    fn name(&self) -> (name: &str)
        ensures
            call_ensures(E::name, (*self,), name),
    {
        (*self).name()
    }

    fn edit(&self, path: &str) -> (answer: Result<(), IoFailure>)
        ensures
            call_ensures(E::edit, (*self, path), answer),
    {
        (*self).edit(path)
    }
}

/// An editor that is started by running a command with the note's path as
/// its argument, such as `vim`.
#[derive(Clone, Debug, PartialEq, Eq)]
pub struct CommandEditor {
    command: String,
}

impl CommandEditor {
    /// The command that starts the editor.
    pub closed spec fn command(self) -> String {
        self.command
    }

    /// The editor that `command` starts.
    #[must_use]
    pub fn new(command: String) -> (editor: CommandEditor)
        ensures
            editor.command() == command,
    {
        CommandEditor { command }
    }

    /// The command that starts the editor.
    pub fn name(&self) -> (name: &str)
        ensures
            name@ == self.command()@,
    {
        self.command.as_str()
    }
}

/// The editor could not be started, or failed.
#[derive(Clone, Debug, PartialEq, Eq)]
pub struct OpenInEditorError {
    pub editor: String,
    pub err: IoFailure,
}

/// What to make of an editor's answer: its failure is reported with the
/// editor's name.
pub fn editor_outcome(name: &str, answer: Result<(), IoFailure>) -> (edited: Result<
    (),
    OpenInEditorError,
>)
    ensures
        match edited {
            Ok(_) => answer == Ok::<(), IoFailure>(()),
            Err(error) => answer == Err::<(), IoFailure>(error.err) && error.editor@ == name@,
        },
{
    match answer {
        Ok(done) => Ok(done),
        Err(err) => Err(OpenInEditorError { editor: String::from_str(name), err }),
    }
}

/// Whether `edited` is what comes of the answer that `editor` gave when it
/// was asked to edit the note at `path`: success as it is, a failure under
/// the name that the editor gave for itself.
pub open spec fn hands_on<E: Editor>(
    editor: &E,
    path: &str,
    edited: Result<(), OpenInEditorError>,
) -> bool {
    match edited {
        Ok(_) => call_ensures(E::edit, (editor, path), Ok::<(), IoFailure>(())),
        Err(error) => {
            &&& call_ensures(E::edit, (editor, path), Err::<(), IoFailure>(error.err))
            &&& exists|name: &str| #[trigger]
                call_ensures(E::name, (editor,), name) && error.editor@ == name@
        },
    }
}

/// Lets the user edit the note at `path` with `editor`, and hands on the
/// editor's answer. Whether that is success is up to the editor; a failure
/// comes back under the editor's name.
pub fn open_in_editor<E: Editor>(editor: &E, path: &str) -> (edited: Result<(), OpenInEditorError>)
    ensures
        hands_on(editor, path, edited),
{
    let answer = editor.edit(path);
    let name = editor.name();
    editor_outcome(name, answer)
}

} // verus!
