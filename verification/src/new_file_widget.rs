//! The "create file" action flow: a single-line filename input plus an
//! error flag.  Whether the typed name already exists on disk is a fact
//! only the surrounding binary can check; committing the flow takes that
//! fact as a plain value and decides everything else here.

use vstd::prelude::*;

use crate::buffer::Buffer;
use crate::error_type::ErrorType;
use crate::filename::basename_of;
use crate::key::Key;
use crate::state::CurrentScreen;
use crate::state::State;

verus! {

/// What a typed key does to a single-line input: a character is appended,
/// Backspace removes the last character, every other key changes nothing.
pub open spec fn line_input_after(input: Seq<char>, key: Key) -> Seq<char> {
    match key {
        Key::Char(c) => input.push(c),
        Key::Backspace => if input.len() > 0 {
            input.drop_last()
        } else {
            input
        },
        _ => input,
    }
}

/// A buffer freshly opened for the typed name: empty, the cursor at the
/// start, associated with the name as its path and with the part after
/// the last `/` as its display name.
pub open spec fn fresh_named_buffer(b: Buffer, name: Seq<char>) -> bool {
    &&& b.lines_view() == seq![Seq::<char>::empty()]
    &&& b.line == 0
    &&& b.col == 0
    &&& b.path_view() == Some(name)
    &&& b.filename_view() == Some(basename_of(name))
}

/// The flow that creates a new file: the filename being typed and the
/// error state shown instead of the input while set.
#[derive(Debug)]
pub struct NewFileWidget {
    /// The filename typed so far.
    pub input: Vec<char>,
    /// The validation error currently shown, if any.
    pub error: ErrorType,
}

impl NewFileWidget {
    /// A fresh flow: empty input, no error.
    pub fn new() -> (r: NewFileWidget)
        ensures
            r.input@.len() == 0,
            r.error is NONE,
    {
        NewFileWidget { input: Vec::new(), error: ErrorType::NONE }
    }

    /// True while a validation error is shown.
    pub fn has_error(&self) -> (r: bool)
        ensures
            r <==> !(self.error is NONE),
    {
        match self.error {
            ErrorType::NONE => false,
            _ => true,
        }
    }

    /// Consumes one key: while an error is shown, any key dismisses it and
    /// leaves the input alone; otherwise the key edits the input.
    pub fn handle_input(&mut self, key: Key)
        ensures
            final(self).error is NONE,
            !(old(self).error is NONE) ==> final(self).input == old(self).input,
            old(self).error is NONE ==> final(self).input@ == line_input_after(
                old(self).input@,
                key,
            ),
    {
        match self.error {
            ErrorType::NONE => {
                match key {
                    Key::Char(c) => self.input.push(c),
                    Key::Backspace => {
                        if self.input.pop().is_some() {
                            proof {
                                assert(self.input@ =~= old(self).input@.drop_last());
                            }
                        }
                    },
                    _ => {},
                }
            },
            _ => {
                self.error = ErrorType::NONE;
            },
        }
    }

    /// Tries to commit the flow, told whether a file of the typed name
    /// already exists.  If it exists, the error flag is raised and nothing
    /// else happens.  Otherwise a fresh, empty buffer associated with the
    /// typed path is opened and made current, the editor screen is
    /// selected, and the input is cleared for the next use.  (The
    /// surrounding binary creates the file on disk itself.)
    pub fn create_new_file(&mut self, state: &mut State, file_exists: bool) -> (created: bool)
        requires
            old(state).wf(),
        ensures
            final(state).wf(),
            created <==> !file_exists,
            file_exists ==> final(self).error is FileExists && final(self).input == old(
                self,
            ).input && *final(state) == *old(state),
            !file_exists ==> ({
                &&& final(self).error == old(self).error
                &&& final(self).input@.len() == 0
                &&& final(state).current_screen is Editor
                &&& final(state).exit == old(state).exit
                &&& final(state).buffers.buffers@.len() == old(state).buffers.buffers@.len() + 1
                &&& final(state).buffers.buffers@.drop_last() == old(state).buffers.buffers@
                &&& final(state).buffers.current == old(state).buffers.buffers@.len()
                &&& fresh_named_buffer(final(state).buffers.buffers@.last(), old(self).input@)
            }),
    {
        if file_exists {
            self.error = ErrorType::FileExists;
            return false;
        }
        state.buffers.open(Vec::new(), Some(&self.input));
        state.current_screen = CurrentScreen::Editor;
        self.input = Vec::new();
        true
    }

    /// Clears the error flag and the typed input.
    pub fn reset(&mut self)
        ensures
            final(self).error is NONE,
            final(self).input@.len() == 0,
    {
        self.error = ErrorType::NONE;
        self.input = Vec::new();
    }
}

} // verus!
