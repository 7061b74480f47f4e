//! The editor screen's decisions: which keys save, which edit the active
//! buffer, and when the "saved" notice shows.  Writing the file is the
//! surrounding binary's business; the editor hands it what to write.

use vstd::prelude::*;

use crate::buffer::edit_applied;
use crate::buffer::Buffer;
use crate::key::Key;
use crate::state::State;
use crate::text::join_text;

verus! {

/// Everything one editor key does: Control-s asks for a save and touches
/// nothing, any other key clears the saved notice and edits the active
/// buffer (with no buffer open there is nothing to edit).
pub open spec fn editor_step_post(
    e0: Editor,
    e1: Editor,
    s0: State,
    s1: State,
    key: Key,
    ctrl: bool,
    save: bool,
) -> bool {
    &&& s1.current_screen == s0.current_screen
    &&& s1.exit == s0.exit
    &&& s1.buffers.current == s0.buffers.current
    &&& s1.buffers.buffers@.len() == s0.buffers.buffers@.len()
    &&& (save <==> (ctrl && key == Key::Char('s')))
    &&& (save ==> e1 == e0 && s1 == s0)
    &&& (!save ==> ({
        &&& !e1.show_success_save
        &&& (s0.buffers.buffers@.len() == 0 ==> s1 == s0)
        &&& (s0.buffers.buffers@.len() > 0 ==> (forall|j: int|
            0 <= j < s0.buffers.buffers@.len() && j != s0.buffers.current
                ==> s1.buffers.buffers@[j] == #[trigger] s0.buffers.buffers@[j]) && edit_applied(
            s0.buffers.buffers@[s0.buffers.current as int],
            s1.buffers.buffers@[s0.buffers.current as int],
            key,
        ))
    }))
}

/// The editor screen: the one piece of state it owns is whether the
/// "saved successfully" notice is showing.
#[derive(Debug)]
pub struct Editor {
    /// True while the saved notice is displayed; any key but the save
    /// shortcut clears it.
    pub show_success_save: bool,
}

impl Editor {
    pub fn new() -> (r: Editor)
        ensures
            !r.show_success_save,
    {
        Editor { show_success_save: false }
    }

    /// Routes one key on the editor screen.  Control-s asks the caller to
    /// save the active buffer (`true` comes back); every other key clears
    /// the saved notice and goes to the active buffer as an edit.
    pub fn handle_input(&mut self, state: &mut State, key: Key, ctrl: bool) -> (save: bool)
        requires
            old(state).wf(),
        ensures
            final(state).wf(),
            editor_step_post(*old(self), *final(self), *old(state), *final(state), key, ctrl, save),
    {
        if ctrl && key == Key::Char('s') {
            return true;
        }
        self.show_success_save = false;
        self.handle_input_current_buffer(state, key);
        false
    }

    /// Notes that a save went through, so the screen shows the notice.
    pub fn note_saved(&mut self)
        ensures
            final(self).show_success_save,
    {
        self.show_success_save = true;
    }

    /// Applies one editing key to the active buffer; with no buffer open
    /// nothing happens.
    pub fn handle_input_current_buffer(&self, state: &mut State, key: Key)
        requires
            old(state).wf(),
        ensures
            final(state).wf(),
            final(state).current_screen == old(state).current_screen,
            final(state).exit == old(state).exit,
            final(state).buffers.current == old(state).buffers.current,
            final(state).buffers.buffers@.len() == old(state).buffers.buffers@.len(),
            old(state).buffers.buffers@.len() == 0 ==> *final(state) == *old(state),
            old(state).buffers.buffers@.len() > 0 ==> (forall|j: int|
                0 <= j < old(state).buffers.buffers@.len() && j != old(state).buffers.current
                    ==> final(state).buffers.buffers@[j] == #[trigger] old(
                    state,
                ).buffers.buffers@[j]) && edit_applied(
                old(state).buffers.buffers@[old(state).buffers.current as int],
                final(state).buffers.buffers@[old(state).buffers.current as int],
                key,
            ),
    {
        let n = state.buffers.buffers.len();
        if n > 0 {
            let index = state.buffers.current;
            assert(index < n);
            let mut b = state.buffers.buffers.remove(index);
            b.handle_edit_key(key);
            state.buffers.buffers.insert(index, b);
            proof {
                assert(final(state).buffers.buffers@ =~= old(state).buffers.buffers@.update(
                    index as int,
                    final(state).buffers.buffers@[index as int],
                ));
            }
        }
    }

    /// The active buffer, for rendering; `None` while nothing is open.
    pub fn get_current_buffer<'a>(&self, state: &'a State) -> (r: Option<&'a Buffer>)
        requires
            state.wf(),
        ensures
            state.buffers.buffers@.len() == 0 ==> r is None,
            state.buffers.buffers@.len() > 0 ==> (r matches Some(b) && *b
                == state.buffers.buffers@[state.buffers.current as int]),
    {
        if state.buffers.buffers.len() > 0 {
            Some(&state.buffers.buffers[state.buffers.current])
        } else {
            None
        }
    }

    /// All open buffers, for rendering the status line.
    pub fn get_buffer_list<'a>(&self, state: &'a State) -> (r: &'a Vec<Buffer>)
        ensures
            r == state.buffers.buffers,
    {
        &state.buffers.buffers
    }

    /// What saving the active buffer writes, and to which file: its lines
    /// joined with newlines, and its backing path.  `None` while nothing
    /// is open or the buffer has no backing path yet; the caller performs
    /// the write itself.
    pub fn save_current_buffer(&self, state: &State) -> (r: Option<(String, Vec<char>)>)
        requires
            state.wf(),
        ensures
            ({
                let n = state.buffers.buffers@.len();
                let cur = state.buffers.buffers@[state.buffers.current as int];
                &&& (n == 0 ==> r is None)
                &&& (n > 0 && cur.path_view() is None ==> r is None)
                &&& (n > 0 && cur.path_view() is Some ==> (r matches Some((p, text)) && Some(p@)
                    == cur.path_view() && text@ == join_text(cur.lines_view())))
            }),
    {
        if state.buffers.buffers.len() == 0 {
            return None;
        }
        let b = &state.buffers.buffers[state.buffers.current];
        match &b.path {
            Some(p) => {
                let text = b.save_text();
                Some((p.clone(), text))
            },
            None => None,
        }
    }
}

impl Default for Editor {
    /// An editor with the saved notice hidden.
    fn default() -> (r: Editor)
        ensures
            !r.show_success_save,
    {
        Editor::new()
    }
}

} // verus!
