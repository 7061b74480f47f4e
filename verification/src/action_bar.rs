//! The modal dispatcher: a fixed roster of four action flows — create
//! file, open file, switch buffer, close buffer — of which at most one
//! owns the keyboard at a time.  Keys either enter a mode, drive the
//! active flow, dismiss its error, commit it, or leave it.
//!
//! Committing the two file flows needs a fact about the disk that only the
//! surrounding binary can supply, so a committing keystroke hands back an
//! [`ActionRequest`]; the binary answers it through [`ActionBar::finish_new_file`]
//! or [`ActionBar::finish_open_file`].

use vstd::prelude::*;

use crate::buffer_list_widget::item_views;
use crate::buffer_list_widget::list_commit_post;
use crate::buffer_list_widget::roster;
use crate::buffer_list_widget::selection_after_key;
use crate::buffer_list_widget::BufferListWidget;
use crate::key::Key;
use crate::new_file_widget::fresh_named_buffer;
use crate::new_file_widget::line_input_after;
use crate::new_file_widget::NewFileWidget;
use crate::open_file_widget::loaded_named_buffer;
use crate::open_file_widget::OpenFileWidget;
use crate::state::State;
use crate::text::content_len;
use crate::text::no_newline;

verus! {

/// Which action flow, if any, currently owns keyboard input.
#[derive(Debug, PartialEq, Eq, Structural, Clone, Copy)]
pub enum ActionType {
    NewFile,
    OpenFile,
    ChangeBuffer,
    DeleteBuffer,
    Idle,
}

/// A fact about the disk that the surrounding binary must establish before
/// a file flow can finish: whether a file of this name exists and, for
/// opening, what it holds.
#[derive(Debug)]
pub enum ActionRequest {
    /// Check whether a file of this name already exists, then call
    /// `finish_new_file` with the answer.
    CheckNewFile(Vec<char>),
    /// Read the lines of the file of this name if it exists, then call
    /// `finish_open_file` with them.
    CheckOpenFile(Vec<char>),
}

/// Everything one key routed through the bar may do: the menu-mode
/// transitions, the Escape rule, the error gate, the Enter commits and the
/// forwarding of every other key, relating the bar and the state before
/// (`a`, `s0`) and after (`b`, `s1`) with the request handed back.
pub open spec fn bar_step_post(
    a: ActionBar,
    b: ActionBar,
    s0: State,
    s1: State,
    key: Key,
    req: Option<ActionRequest>,
) -> bool {
    &&& s1.current_screen == s0.current_screen
    &&& s1.exit == s0.exit
    // menu mode: lists rebuilt, then a shortcut picks the mode
    &&& a.current_action is Idle ==> ({
        &&& req is None
        &&& s1 == s0
        &&& item_views(b.buffer_navigation.items@) == roster(s0.buffers.buffers@)
        &&& item_views(b.buffer_deletion.items@) == roster(s0.buffers.buffers@)
        &&& (key is Esc ==> !b.show && b.current_action is Idle
            && b.flows_reset())
        &&& (key == Key::Char('n') ==> b.current_action is NewFile)
        &&& (key == Key::Char('o') ==> b.current_action is OpenFile)
        &&& (key == Key::Char('b') ==> b.current_action is ChangeBuffer)
        &&& (key == Key::Char('d') ==> b.current_action is DeleteBuffer)
        &&& (!(key is Esc) ==> b.show == a.show
            && ActionBar::inputs_unchanged(&a, &b)
            && b.buffer_navigation.current == a.buffer_navigation.current
            && b.buffer_deletion.current == a.buffer_deletion.current)
        &&& (!(key is Esc || key == Key::Char('n') || key == Key::Char('o') || key
            == Key::Char('b') || key == Key::Char('d')) ==> b.current_action
            is Idle)
    })
    // Escape always abandons the active flow
    &&& !(a.current_action is Idle) && key is Esc ==> ({
        &&& req is None
        &&& s1 == s0
        &&& !b.show
        &&& b.current_action is Idle
        &&& b.flows_reset()
    })
    // a shown error swallows everything but its dismissal
    &&& !(a.current_action is Idle) && !(key is Esc) && a.active_error() ==> ({
        &&& req is None
        &&& s1 == s0
        &&& b.show == a.show
        &&& b.current_action == a.current_action
        &&& ActionBar::lists_unchanged(&a, &b)
        &&& ((key is Enter || key == Key::Char(' ')) ==> !b.active_error()
            && b.new_file.input == a.new_file.input
            && b.open_file.input == a.open_file.input)
        &&& (!(key is Enter || key == Key::Char(' ')) ==> b == a)
    })
    // Enter commits the active flow
    &&& !(key is Esc) && !a.active_error() && key is Enter ==> ({
        &&& (a.current_action is NewFile ==> b == a && s1 == s0
            && (req matches Some(ActionRequest::CheckNewFile(p)) && p@ == a.new_file.input@))
        &&& (a.current_action is OpenFile ==> b == a && s1 == s0
            && (req matches Some(ActionRequest::CheckOpenFile(p)) && p@ == a.open_file.input@))
        &&& (a.current_action is ChangeBuffer ==> ({
            let done = b.current_action is Idle;
            &&& req is None
            &&& list_commit_post(a.buffer_navigation, s0.buffers, s1.buffers, done)
            &&& ActionBar::lists_unchanged(&a, &b)
            &&& ActionBar::inputs_unchanged(&a, &b)
            &&& (done ==> !b.show)
            &&& (!done ==> b.show == a.show
                && b.current_action == a.current_action)
        }))
        &&& (a.current_action is DeleteBuffer ==> ({
            let done = b.current_action is Idle;
            &&& req is None
            &&& list_commit_post(a.buffer_deletion, s0.buffers, s1.buffers, done)
            &&& ActionBar::lists_unchanged(&a, &b)
            &&& ActionBar::inputs_unchanged(&a, &b)
            &&& (done ==> !b.show)
            &&& (!done ==> b.show == a.show
                && b.current_action == a.current_action)
        }))
    })
    // any other key drives the active flow alone
    &&& !(a.current_action is Idle) && !(key is Esc) && !(key is Enter)
        && !a.active_error() ==> ({
        &&& req is None
        &&& b.show == a.show
        &&& b.current_action == a.current_action
        &&& (a.current_action is NewFile ==> s1 == s0
            && b.new_file.input@ == line_input_after(a.new_file.input@, key)
            && b.new_file.error is NONE && b.open_file == a.open_file
            && ActionBar::lists_unchanged(&a, &b))
        &&& (a.current_action is OpenFile ==> s1 == s0
            && b.open_file.input@ == line_input_after(a.open_file.input@, key)
            && b.open_file.error is NONE && b.new_file == a.new_file
            && ActionBar::lists_unchanged(&a, &b))
        &&& (a.current_action is ChangeBuffer ==> s1 == s0
            && ActionBar::inputs_unchanged(&a, &b)
            && b.buffer_deletion == a.buffer_deletion
            && b.buffer_navigation.items == a.buffer_navigation.items
            && b.buffer_navigation.current_view() == selection_after_key(
                item_views(a.buffer_navigation.items@),
                a.buffer_navigation.current_view(),
                key,
            ))
        &&& (a.current_action is DeleteBuffer ==> s1 == s0
            && ActionBar::inputs_unchanged(&a, &b)
            && b.buffer_navigation == a.buffer_navigation
            && b.buffer_deletion.items == a.buffer_deletion.items
            && b.buffer_deletion.current_view() == selection_after_key(
                item_views(a.buffer_deletion.items@),
                a.buffer_deletion.current_view(),
                key,
            ))
    })
}

/// The modal dispatcher and its four flows.
#[derive(Debug)]
pub struct ActionBar {
    /// Whether the action overlay is shown at all.
    pub show: bool,
    /// The flow that currently owns keystrokes; `Idle` while the overlay
    /// only offers its menu.
    pub current_action: ActionType,
    /// The create-file flow.
    pub new_file: NewFileWidget,
    /// The open-file flow.
    pub open_file: OpenFileWidget,
    /// The switch-buffer flow.
    pub buffer_navigation: BufferListWidget,
    /// The close-buffer flow.
    pub buffer_deletion: BufferListWidget,
}

impl ActionBar {
    /// The two lists keep their purposes for good.
    pub open spec fn wf(&self) -> bool {
        &&& self.buffer_navigation.purpose is Navigation
        &&& self.buffer_deletion.purpose is Deletion
    }

    /// Every flow back in its initial transient state: inputs empty,
    /// errors cleared, selections cleared.
    pub open spec fn flows_reset(&self) -> bool {
        &&& self.new_file.input@.len() == 0
        &&& self.new_file.error is NONE
        &&& self.open_file.input@.len() == 0
        &&& self.open_file.error is NONE
        &&& self.buffer_navigation.current is None
        &&& self.buffer_deletion.current is None
    }

    /// True while the active flow shows a validation error (only the two
    /// file flows have one).
    pub open spec fn active_error(&self) -> bool {
        match self.current_action {
            ActionType::NewFile => !(self.new_file.error is NONE),
            ActionType::OpenFile => !(self.open_file.error is NONE),
            _ => false,
        }
    }

    /// The flows other than the file ones are unchanged between `a` and
    /// `b`.
    pub open spec fn lists_unchanged(a: &ActionBar, b: &ActionBar) -> bool {
        &&& b.buffer_navigation == a.buffer_navigation
        &&& b.buffer_deletion == a.buffer_deletion
    }

    /// The flows other than the list ones are unchanged between `a` and
    /// `b`.
    pub open spec fn inputs_unchanged(a: &ActionBar, b: &ActionBar) -> bool {
        &&& b.new_file.input == a.new_file.input
        &&& b.new_file.error == a.new_file.error
        &&& b.open_file.input == a.open_file.input
        &&& b.open_file.error == a.open_file.error
    }

    /// A hidden overlay in menu mode, all flows fresh.
    pub fn new() -> (r: ActionBar)
        ensures
            r.wf(),
            !r.show,
            r.current_action is Idle,
            r.flows_reset(),
            r.buffer_navigation.items@.len() == 0,
            r.buffer_deletion.items@.len() == 0,
    {
        ActionBar {
            show: false,
            current_action: ActionType::Idle,
            new_file: NewFileWidget::new(),
            open_file: OpenFileWidget::new(),
            buffer_navigation: BufferListWidget::for_navigation(),
            buffer_deletion: BufferListWidget::for_deletion(),
        }
    }

    /// Resets every flow's transient state — inputs, errors, selections —
    /// so that nothing stale leaks into the next activation of any flow.
    pub fn reset(&mut self)
        ensures
            final(self).flows_reset(),
            final(self).show == old(self).show,
            final(self).current_action == old(self).current_action,
            final(self).wf() == old(self).wf(),
            final(self).buffer_navigation.items == old(self).buffer_navigation.items,
            final(self).buffer_deletion.items == old(self).buffer_deletion.items,
    {
        self.new_file.reset();
        self.open_file.reset();
        self.buffer_navigation.reset();
        self.buffer_deletion.reset();
    }

    /// Routes one key event.
    ///
    /// In menu mode every flow is (re-)initialized from the collection —
    /// so a flow's list reflects the state at the moment its mode is
    /// entered — and the key either leaves the overlay (Escape), picks a
    /// mode (`n`, `o`, `b`, `d`), or does nothing.
    ///
    /// With an active flow: Escape always returns to menu-less `None`,
    /// resets every flow and hides the overlay.  While the flow shows an
    /// error, Enter and Space dismiss it and every other key is swallowed.
    /// Otherwise Enter commits the flow — the list flows against the
    /// collection at once, closing the overlay exactly when the action was
    /// performed; the file flows by handing back the disk check to
    /// perform.  Every other key is forwarded to the active flow alone.
    pub fn handle_input(&mut self, key: Key, state: &mut State) -> (req: Option<ActionRequest>)
        requires
            old(self).wf(),
            old(state).wf(),
        ensures
            final(self).wf(),
            final(state).wf(),
            bar_step_post(*old(self), *final(self), *old(state), *final(state), key, req),
    {
        match self.current_action {
            ActionType::Idle => {
                self.buffer_navigation.init_action(&state.buffers);
                self.buffer_deletion.init_action(&state.buffers);
                match key {
                    Key::Esc => {
                        self.current_action = ActionType::Idle;
                        self.reset();
                        self.show = false;
                    },
                    Key::Char(c) => {
                        if c == 'n' {
                            self.current_action = ActionType::NewFile;
                        } else if c == 'o' {
                            self.current_action = ActionType::OpenFile;
                        } else if c == 'b' {
                            self.current_action = ActionType::ChangeBuffer;
                        } else if c == 'd' {
                            self.current_action = ActionType::DeleteBuffer;
                        }
                    },
                    _ => {},
                }
                None
            },
            _ => self.handle_active_widget_input(key, state),
        }
    }

    /// Routes one key to the active flow, as `handle_input` describes.
    fn handle_active_widget_input(&mut self, key: Key, state: &mut State) -> (req: Option<
        ActionRequest,
    >)
        requires
            old(self).wf(),
            old(state).wf(),
            !(old(self).current_action is Idle),
        ensures
            final(self).wf(),
            final(state).wf(),
            final(state).current_screen == old(state).current_screen,
            final(state).exit == old(state).exit,
            key is Esc ==> ({
                &&& req is None
                &&& *final(state) == *old(state)
                &&& !final(self).show
                &&& final(self).current_action is Idle
                &&& final(self).flows_reset()
            }),
            !(key is Esc) && old(self).active_error() ==> ({
                &&& req is None
                &&& *final(state) == *old(state)
                &&& final(self).show == old(self).show
                &&& final(self).current_action == old(self).current_action
                &&& ActionBar::lists_unchanged(old(self), final(self))
                &&& ((key is Enter || key == Key::Char(' ')) ==> !final(self).active_error()
                    && final(self).new_file.input == old(self).new_file.input
                    && final(self).open_file.input == old(self).open_file.input)
                &&& (!(key is Enter || key == Key::Char(' ')) ==> *final(self) == *old(self))
            }),
            !(key is Esc) && !old(self).active_error() && key is Enter ==> ({
                &&& (old(self).current_action is NewFile ==> *final(self) == *old(self)
                    && *final(state) == *old(state) && (req matches Some(
                    ActionRequest::CheckNewFile(p),
                ) && p@ == old(self).new_file.input@))
                &&& (old(self).current_action is OpenFile ==> *final(self) == *old(self)
                    && *final(state) == *old(state) && (req matches Some(
                    ActionRequest::CheckOpenFile(p),
                ) && p@ == old(self).open_file.input@))
                &&& (old(self).current_action is ChangeBuffer ==> ({
                    let done = final(self).current_action is Idle;
                    &&& req is None
                    &&& list_commit_post(
                        old(self).buffer_navigation,
                        old(state).buffers,
                        final(state).buffers,
                        done,
                    )
                    &&& ActionBar::lists_unchanged(old(self), final(self))
                    &&& ActionBar::inputs_unchanged(old(self), final(self))
                    &&& (done ==> !final(self).show)
                    &&& (!done ==> final(self).show == old(self).show
                        && final(self).current_action == old(self).current_action)
                }))
                &&& (old(self).current_action is DeleteBuffer ==> ({
                    let done = final(self).current_action is Idle;
                    &&& req is None
                    &&& list_commit_post(
                        old(self).buffer_deletion,
                        old(state).buffers,
                        final(state).buffers,
                        done,
                    )
                    &&& ActionBar::lists_unchanged(old(self), final(self))
                    &&& ActionBar::inputs_unchanged(old(self), final(self))
                    &&& (done ==> !final(self).show)
                    &&& (!done ==> final(self).show == old(self).show
                        && final(self).current_action == old(self).current_action)
                }))
            }),
            !(old(self).current_action is Idle) && !(key is Esc) && !(key is Enter)
                && !old(self).active_error() ==> ({
                &&& req is None
                &&& final(self).show == old(self).show
                &&& final(self).current_action == old(self).current_action
                &&& (old(self).current_action is NewFile ==> *final(state) == *old(state)
                    && final(self).new_file.input@ == line_input_after(
                    old(self).new_file.input@,
                    key,
                ) && final(self).new_file.error is NONE && final(self).open_file == old(
                    self,
                ).open_file && ActionBar::lists_unchanged(old(self), final(self)))
                &&& (old(self).current_action is OpenFile ==> *final(state) == *old(state)
                    && final(self).open_file.input@ == line_input_after(
                    old(self).open_file.input@,
                    key,
                ) && final(self).open_file.error is NONE && final(self).new_file == old(
                    self,
                ).new_file && ActionBar::lists_unchanged(old(self), final(self)))
                &&& (old(self).current_action is ChangeBuffer ==> *final(state) == *old(state)
                    && ActionBar::inputs_unchanged(old(self), final(self))
                    && final(self).buffer_deletion == old(self).buffer_deletion
                    && final(self).buffer_navigation.items == old(self).buffer_navigation.items
                    && final(self).buffer_navigation.current_view() == selection_after_key(
                    item_views(old(self).buffer_navigation.items@),
                    old(self).buffer_navigation.current_view(),
                    key,
                ))
                &&& (old(self).current_action is DeleteBuffer ==> *final(state) == *old(state)
                    && ActionBar::inputs_unchanged(old(self), final(self))
                    && final(self).buffer_navigation == old(self).buffer_navigation
                    && final(self).buffer_deletion.items == old(self).buffer_deletion.items
                    && final(self).buffer_deletion.current_view() == selection_after_key(
                    item_views(old(self).buffer_deletion.items@),
                    old(self).buffer_deletion.current_view(),
                    key,
                ))
            }),
    {
        if matches!(key, Key::Esc) {
            self.current_action = ActionType::Idle;
            self.reset();
            self.show = false;
            return None;
        }
        let has_error = match self.current_action {
            ActionType::NewFile => self.new_file.has_error(),
            ActionType::OpenFile => self.open_file.has_error(),
            _ => false,
        };
        if has_error {
            if matches!(key, Key::Enter) || key == Key::Char(' ') {
                match self.current_action {
                    ActionType::NewFile => self.new_file.handle_input(key),
                    ActionType::OpenFile => self.open_file.handle_input(key),
                    _ => {},
                }
            }
            return None;
        }
        if matches!(key, Key::Enter) {
            match self.current_action {
                ActionType::NewFile => {
                    return Some(ActionRequest::CheckNewFile(clone_chars(&self.new_file.input)));
                },
                ActionType::OpenFile => {
                    return Some(ActionRequest::CheckOpenFile(clone_chars(&self.open_file.input)));
                },
                ActionType::ChangeBuffer => {
                    let done = self.buffer_navigation.process_action(&mut state.buffers);
                    if done {
                        self.show = false;
                        self.current_action = ActionType::Idle;
                    }
                },
                ActionType::DeleteBuffer => {
                    let done = self.buffer_deletion.process_action(&mut state.buffers);
                    if done {
                        self.show = false;
                        self.current_action = ActionType::Idle;
                    }
                },
                ActionType::Idle => {},
            }
            return None;
        }
        match self.current_action {
            ActionType::NewFile => self.new_file.handle_input(key),
            ActionType::OpenFile => self.open_file.handle_input(key),
            ActionType::ChangeBuffer => self.buffer_navigation.handle_event(key),
            ActionType::DeleteBuffer => self.buffer_deletion.handle_event(key),
            ActionType::Idle => {},
        }
        None
    }

    /// Finishes a pending create-file commit, told whether the typed name
    /// already exists on disk.  An existing file raises the flow's error
    /// and keeps the overlay open; otherwise the buffer is created and the
    /// overlay closes.  Outside the create-file mode nothing happens.
    pub fn finish_new_file(&mut self, state: &mut State, file_exists: bool)
        requires
            old(self).wf(),
            old(state).wf(),
        ensures
            final(self).wf(),
            final(state).wf(),
            !(old(self).current_action is NewFile) ==> *final(self) == *old(self) && *final(state)
                == *old(state),
            old(self).current_action is NewFile ==> ({
                &&& ActionBar::lists_unchanged(old(self), final(self))
                &&& final(self).open_file == old(self).open_file
                &&& (file_exists ==> final(self).new_file.error is FileExists
                    && final(self).new_file.input == old(self).new_file.input && *final(state)
                    == *old(state) && final(self).show == old(self).show
                    && final(self).current_action == old(self).current_action)
                &&& (!file_exists ==> ({
                    &&& final(self).new_file.input@.len() == 0
                    &&& !final(self).active_error()
                    &&& !final(self).show
                    &&& final(self).current_action is Idle
                    &&& final(state).current_screen is Editor
                    &&& final(state).exit == old(state).exit
                    &&& final(state).buffers.buffers@.len() == old(
                        state,
                    ).buffers.buffers@.len() + 1
                    &&& final(state).buffers.buffers@.drop_last() == old(state).buffers.buffers@
                    &&& final(state).buffers.current == old(state).buffers.buffers@.len()
                    &&& fresh_named_buffer(
                        final(state).buffers.buffers@.last(),
                        old(self).new_file.input@,
                    )
                }))
            }),
    {
        if matches!(self.current_action, ActionType::NewFile) {
            let created = self.new_file.create_new_file(state, file_exists);
            if created {
                self.show = false;
                self.current_action = ActionType::Idle;
            }
        }
    }

    /// Finishes a pending open-file commit, handed the lines read from the
    /// typed file, or `None` when there is no such file.  A missing file
    /// raises the flow's error and keeps the overlay open; otherwise the
    /// buffer is opened and the overlay closes.  Outside the open-file
    /// mode nothing happens.
    pub fn finish_open_file(&mut self, state: &mut State, loaded: Option<Vec<Vec<char>>>)
        requires
            old(self).wf(),
            old(state).wf(),
            loaded matches Some(ls) ==> (forall|i: int|
                0 <= i < ls.deep_view().len() ==> no_newline(#[trigger] ls.deep_view()[i]))
                && content_len(ls.deep_view()) < usize::MAX,
        ensures
            final(self).wf(),
            final(state).wf(),
            !(old(self).current_action is OpenFile) ==> *final(self) == *old(self) && *final(state)
                == *old(state),
            old(self).current_action is OpenFile ==> ({
                &&& ActionBar::lists_unchanged(old(self), final(self))
                &&& final(self).new_file == old(self).new_file
                &&& (loaded is None ==> final(self).open_file.error is FileNotFound
                    && final(self).open_file.input == old(self).open_file.input && *final(state)
                    == *old(state) && final(self).show == old(self).show
                    && final(self).current_action == old(self).current_action)
                &&& (loaded matches Some(ls) ==> ({
                    &&& final(self).open_file.input@.len() == 0
                    &&& !final(self).active_error()
                    &&& !final(self).show
                    &&& final(self).current_action is Idle
                    &&& final(state).current_screen is Editor
                    &&& final(state).exit == old(state).exit
                    &&& final(state).buffers.buffers@.len() == old(
                        state,
                    ).buffers.buffers@.len() + 1
                    &&& final(state).buffers.buffers@.drop_last() == old(state).buffers.buffers@
                    &&& final(state).buffers.current == old(state).buffers.buffers@.len()
                    &&& loaded_named_buffer(
                        final(state).buffers.buffers@.last(),
                        ls.deep_view(),
                        old(self).open_file.input@,
                    )
                }))
            }),
    {
        if matches!(self.current_action, ActionType::OpenFile) {
            let opened = self.open_file.open_file(state, loaded);
            if opened {
                self.show = false;
                self.current_action = ActionType::Idle;
            }
        }
    }
}

/// A fresh vector holding the same characters.
fn clone_chars(v: &Vec<char>) -> (r: Vec<char>)
    ensures
        r@ == v@,
{
    let mut r: Vec<char> = Vec::new();
    let mut i: usize = 0;
    while i < v.len()
        invariant
            0 <= i <= v@.len(),
            r@ == v@.take(i as int),
        decreases v@.len() - i,
    {
        r.push(v[i]);
        proof {
            assert(v@.take(i + 1) =~= v@.take(i as int).push(v@[i as int]));
        }
        i = i + 1;
    }
    proof {
        assert(v@.take(v@.len() as int) =~= v@);
    }
    r
}

} // verus!
