//! The "open file" action flow: a single-line filename input plus an error
//! flag.  Reading the file is the surrounding binary's business;
//! committing the flow takes the loaded lines — or word that there was no
//! such file — as plain values and decides everything else here.

use vstd::prelude::*;

use crate::buffer::Buffer;
use crate::error_type::ErrorType;
use crate::filename::basename_of;
use crate::key::Key;
use crate::new_file_widget::line_input_after;
use crate::state::CurrentScreen;
use crate::state::State;
use crate::text::content_len;
use crate::text::no_newline;

verus! {

/// A buffer freshly opened over loaded lines: the given content (no lines
/// at all meaning one empty line), the cursor at the start, the typed name
/// as its path and the part after the last `/` as its display name.
pub open spec fn loaded_named_buffer(b: Buffer, lines: Seq<Seq<char>>, name: Seq<char>) -> bool {
    &&& (lines.len() == 0 ==> b.lines_view() == seq![Seq::<char>::empty()])
    &&& (lines.len() > 0 ==> b.lines_view() == lines)
    &&& b.line == 0
    &&& b.col == 0
    &&& b.path_view() == Some(name)
    &&& b.filename_view() == Some(basename_of(name))
}

/// The flow that opens an existing file: the filename being typed and the
/// error state shown instead of the input while set.
#[derive(Debug)]
pub struct OpenFileWidget {
    /// The filename typed so far.
    pub input: Vec<char>,
    /// The validation error currently shown, if any.
    pub error: ErrorType,
}

impl OpenFileWidget {
    /// A fresh flow: empty input, no error.
    pub fn new() -> (r: OpenFileWidget)
        ensures
            r.input@.len() == 0,
            r.error is NONE,
    {
        OpenFileWidget { input: Vec::new(), error: ErrorType::NONE }
    }

    /// True while a validation error is shown.
    pub fn has_error(&self) -> (r: bool)
        ensures
            r <==> !(self.error is NONE),
    {
        match self.error {
            ErrorType::NONE => false,
            _ => true,
        }
    }

    /// Consumes one key: while an error is shown, any key dismisses it and
    /// leaves the input alone; otherwise the key edits the input.
    pub fn handle_input(&mut self, key: Key)
        ensures
            final(self).error is NONE,
            !(old(self).error is NONE) ==> final(self).input == old(self).input,
            old(self).error is NONE ==> final(self).input@ == line_input_after(
                old(self).input@,
                key,
            ),
    {
        match self.error {
            ErrorType::NONE => {
                match key {
                    Key::Char(c) => self.input.push(c),
                    Key::Backspace => {
                        if self.input.pop().is_some() {
                            proof {
                                assert(self.input@ =~= old(self).input@.drop_last());
                            }
                        }
                    },
                    _ => {},
                }
            },
            _ => {
                self.error = ErrorType::NONE;
            },
        }
    }

    /// Tries to commit the flow, handed the lines read from the file of
    /// the typed name, or `None` when there is no such file.  With no file
    /// the error flag is raised and nothing else happens.  Otherwise a
    /// buffer over the loaded lines, associated with the typed path, is
    /// opened and made current, the editor screen is selected, and the
    /// input is cleared for the next use.
    pub fn open_file(&mut self, state: &mut State, loaded: Option<Vec<Vec<char>>>) -> (opened:
        bool)
        requires
            old(state).wf(),
            loaded matches Some(ls) ==> (forall|i: int|
                0 <= i < ls.deep_view().len() ==> no_newline(#[trigger] ls.deep_view()[i]))
                && content_len(ls.deep_view()) < usize::MAX,
        ensures
            final(state).wf(),
            opened <==> loaded is Some,
            loaded is None ==> final(self).error is FileNotFound && final(self).input == old(
                self,
            ).input && *final(state) == *old(state),
            loaded matches Some(ls) ==> ({
                &&& final(self).error == old(self).error
                &&& final(self).input@.len() == 0
                &&& final(state).current_screen is Editor
                &&& final(state).exit == old(state).exit
                &&& final(state).buffers.buffers@.len() == old(state).buffers.buffers@.len() + 1
                &&& final(state).buffers.buffers@.drop_last() == old(state).buffers.buffers@
                &&& final(state).buffers.current == old(state).buffers.buffers@.len()
                &&& loaded_named_buffer(
                    final(state).buffers.buffers@.last(),
                    ls.deep_view(),
                    old(self).input@,
                )
            }),
    {
        match loaded {
            None => {
                self.error = ErrorType::FileNotFound;
                false
            },
            Some(ls) => {
                state.buffers.open(ls, Some(&self.input));
                state.current_screen = CurrentScreen::Editor;
                self.input = Vec::new();
                true
            },
        }
    }

    /// Clears the error flag and the typed input.
    pub fn reset(&mut self)
        ensures
            final(self).error is NONE,
            final(self).input@.len() == 0,
    {
        self.error = ErrorType::NONE;
        self.input = Vec::new();
    }
}

} // verus!
