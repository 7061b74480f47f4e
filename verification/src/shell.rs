//! The application shell's key routing: one function decides, for every
//! key event, whether to quit, toggle the action overlay, drive the
//! overlay, or drive the screen below it.  The surrounding binary runs the
//! read-key / route / redraw loop and performs whatever the outcome asks.

use vstd::prelude::*;

use crate::action_bar::bar_step_post;
use crate::action_bar::ActionBar;
use crate::action_bar::ActionRequest;
use crate::editor::editor_step_post;
use crate::editor::Editor;
use crate::key::Key;
use crate::state::State;

verus! {

/// What the event loop must still do after a key was routed.
#[derive(Debug)]
pub enum ShellEvent {
    /// Nothing; the state is fully updated.
    Handled,
    /// Write the active buffer to its file, then report the save back to
    /// the editor.
    SaveBuffer,
    /// Perform the disk check an action flow asked for and feed the
    /// answer back to the action bar.
    DiskCheck(ActionRequest),
}

/// Routes one key event through the whole application.
///
/// Control-q asks to exit and Control-Space toggles the action overlay
/// (returning it to its menu); both are global and consume the key.  While
/// the overlay is shown every other key goes to the action bar; otherwise
/// it goes to the screen being shown — the home screen takes no input, the
/// editor screen edits or saves.
pub fn route_key(
    state: &mut State,
    action_bar: &mut ActionBar,
    editor: &mut Editor,
    key: Key,
    ctrl: bool,
) -> (r: ShellEvent)
    requires
        old(state).wf(),
        old(action_bar).wf(),
    ensures
        final(state).wf(),
        final(action_bar).wf(),
        ctrl && key == Key::Char('q') ==> ({
            &&& final(state).exit
            &&& final(state).buffers == old(state).buffers
            &&& final(state).current_screen == old(state).current_screen
            &&& *final(action_bar) == *old(action_bar)
            &&& *final(editor) == *old(editor)
            &&& r is Handled
        }),
        !(ctrl && key == Key::Char('q')) ==> final(state).exit == old(state).exit,
        ctrl && key == Key::Char(' ') ==> ({
            &&& *final(state) == *old(state)
            &&& final(action_bar).show == !old(action_bar).show
            &&& final(action_bar).current_action is Idle
            &&& *final(editor) == *old(editor)
            &&& r is Handled
        }),
        !(ctrl && (key == Key::Char('q') || key == Key::Char(' '))) && old(action_bar).show
            ==> ({
            &&& *final(editor) == *old(editor)
            &&& (match r {
                ShellEvent::DiskCheck(req) => bar_step_post(
                    *old(action_bar),
                    *final(action_bar),
                    *old(state),
                    *final(state),
                    key,
                    Some(req),
                ),
                _ => r is Handled && bar_step_post(
                    *old(action_bar),
                    *final(action_bar),
                    *old(state),
                    *final(state),
                    key,
                    None::<ActionRequest>,
                ),
            })
        }),
        !(ctrl && (key == Key::Char('q') || key == Key::Char(' '))) && !old(action_bar).show
            ==> ({
            &&& *final(action_bar) == *old(action_bar)
            &&& (old(state).current_screen is Home ==> *final(state) == *old(state)
                && *final(editor) == *old(editor) && r is Handled)
            &&& (old(state).current_screen is Editor ==> ({
                &&& (r is SaveBuffer ==> editor_step_post(
                    *old(editor),
                    *final(editor),
                    *old(state),
                    *final(state),
                    key,
                    ctrl,
                    true,
                ))
                &&& (!(r is SaveBuffer) ==> r is Handled && editor_step_post(
                    *old(editor),
                    *final(editor),
                    *old(state),
                    *final(state),
                    key,
                    ctrl,
                    false,
                ))
            }))
        }),
{
    if ctrl && key == Key::Char('q') {
        state.exit = true;
        return ShellEvent::Handled;
    }
    if ctrl && key == Key::Char(' ') {
        action_bar.current_action = crate::action_bar::ActionType::Idle;
        action_bar.show = !action_bar.show;
        return ShellEvent::Handled;
    }
    if action_bar.show {
        match action_bar.handle_input(key, state) {
            Some(req) => ShellEvent::DiskCheck(req),
            None => ShellEvent::Handled,
        }
    } else {
        match state.current_screen {
            crate::state::CurrentScreen::Home => ShellEvent::Handled,
            crate::state::CurrentScreen::Editor => {
                if editor.handle_input(state, key, ctrl) {
                    ShellEvent::SaveBuffer
                } else {
                    ShellEvent::Handled
                }
            },
        }
    }
}

} // verus!
