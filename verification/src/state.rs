//! The ordered collection of open buffers and the application state around
//! it: which screen is shown, which buffer is active, whether to exit.

use vstd::prelude::*;

use crate::buffer::Buffer;
use crate::filename::basename;
use crate::filename::basename_of;
use crate::filename::string_of_chars;
use crate::text::content_len;
use crate::text::no_newline;

verus! {

/// Which top-level screen the application shows.
#[derive(Debug, Clone, Copy, PartialEq, Eq, Structural)]
pub enum CurrentScreen {
    Home,
    Editor,
}

/// Where the current index lands when the buffer at `index` is removed:
/// closing the active buffer activates the previous one (or the first when
/// it was the first), closing below the active one shifts it down by one,
/// and closing above it leaves it alone.
pub open spec fn close_rebased_current(cur: int, index: int) -> int {
    if cur == index {
        if index > 0 {
            index - 1
        } else {
            0
        }
    } else if cur > index {
        cur - 1
    } else {
        cur
    }
}

/// The ordered set of open buffers plus the index of the active one.
/// Insertion order is open order.  While the collection is empty the
/// current index is kept at zero and means nothing.
#[derive(Debug)]
pub struct BufferCollection {
    /// The open buffers, in the order they were opened.
    pub buffers: Vec<Buffer>,
    /// Index of the currently active buffer; in range whenever any buffer
    /// is open.
    pub current: usize,
}

impl BufferCollection {
    /// Well-formed: every buffer is, and the current index is in range
    /// whenever the collection is non-empty (and pinned to zero when it is
    /// empty).
    pub open spec fn wf(&self) -> bool {
        &&& forall|i: int| 0 <= i < self.buffers@.len() ==> (#[trigger] self.buffers@[i]).wf()
        &&& self.buffers@.len() > 0 ==> self.current < self.buffers@.len()
        &&& self.buffers@.len() == 0 ==> self.current == 0
    }

    /// An empty collection with no active buffer.
    pub fn new() -> (r: BufferCollection)
        ensures
            r.wf(),
            r.buffers@.len() == 0,
            r.current == 0,
    {
        BufferCollection { buffers: Vec::new(), current: 0 }
    }

    /// Number of open buffers.
    pub fn len(&self) -> (r: usize)
        ensures
            r == self.buffers@.len(),
    {
        self.buffers.len()
    }

    /// Appends a buffer and makes it the active one.
    pub fn push_buffer(&mut self, buffer: Buffer)
        requires
            old(self).wf(),
            buffer.wf(),
        ensures
            final(self).wf(),
            final(self).buffers@ == old(self).buffers@.push(buffer),
            final(self).current == old(self).buffers@.len(),
    {
        self.buffers.push(buffer);
        self.current = self.buffers.len() - 1;
    }

    /// Opens a buffer over the given lines — loaded from a file, or none
    /// at all for a fresh document — appends it and makes it the active
    /// one.  With a name, the buffer is associated with it as its path,
    /// and with the part after the last `/` as its display name.
    pub fn open(&mut self, lines: Vec<Vec<char>>, name: Option<&Vec<char>>)
        requires
            old(self).wf(),
            forall|i: int| 0 <= i < lines.deep_view().len() ==> no_newline(
                #[trigger] lines.deep_view()[i],
            ),
            content_len(lines.deep_view()) < usize::MAX,
        ensures
            final(self).wf(),
            final(self).buffers@.len() == old(self).buffers@.len() + 1,
            final(self).buffers@.drop_last() == old(self).buffers@,
            final(self).current == old(self).buffers@.len(),
            ({
                let b = final(self).buffers@.last();
                &&& (lines.deep_view().len() == 0 ==> b.lines_view() == seq![
                    Seq::<char>::empty(),
                ])
                &&& (lines.deep_view().len() > 0 ==> b.lines_view() == lines.deep_view())
                &&& b.line == 0
                &&& b.col == 0
                &&& (match name {
                    Some(n) => b.path_view() == Some(n@) && b.filename_view() == Some(
                        basename_of(n@),
                    ),
                    None => b.path_view() is None && b.filename_view() is None,
                })
            }),
    {
        match name {
            Some(n) => {
                let p = string_of_chars(n);
                let base = basename(n);
                let f = string_of_chars(&base);
                let mut b = Buffer::new(lines, Some(p));
                b.filename = Some(f);
                self.push_buffer(b);
            },
            None => {
                self.push_buffer(Buffer::new(lines, None));
            },
        }
        proof {
            assert(final(self).buffers@.drop_last() =~= old(self).buffers@);
        }
    }

    /// Makes the buffer at `index` the active one; refuses an out-of-range
    /// index (the invalid-index condition) and then changes nothing.
    pub fn select(&mut self, index: usize) -> (ok: bool)
        requires
            old(self).wf(),
        ensures
            final(self).wf(),
            ok <==> index < old(self).buffers@.len(),
            final(self).buffers@ == old(self).buffers@,
            ok ==> final(self).current == index,
            !ok ==> final(self).current == old(self).current,
    {
        if index < self.buffers.len() {
            self.current = index;
            true
        } else {
            false
        }
    }

    /// Removes the buffer at `index` and rebases the current index: closing
    /// the active buffer activates the previous one (or the first), and
    /// indices above the removed position shift down by one.  Refuses to
    /// remove the last remaining buffer, and refuses an out-of-range index;
    /// either refusal changes nothing and returns `false`.
    pub fn close(&mut self, index: usize) -> (removed: bool)
        requires
            old(self).wf(),
        ensures
            final(self).wf(),
            removed <==> (old(self).buffers@.len() > 1 && index < old(self).buffers@.len()),
            !removed ==> *final(self) == *old(self),
            removed ==> final(self).buffers@ == old(self).buffers@.remove(index as int),
            removed ==> final(self).current == close_rebased_current(
                old(self).current as int,
                index as int,
            ),
            removed && old(self).current == index && index > 0 ==> final(self).current == index
                - 1,
            removed && old(self).current == index && index == 0 ==> final(self).current == 0,
            removed && old(self).current > index ==> final(self).current == old(self).current - 1,
            removed && old(self).current < index ==> final(self).current == old(self).current,
    {
        if self.buffers.len() > 1 && index < self.buffers.len() {
            if self.current == index {
                if index > 0 {
                    self.current = index - 1;
                }
            } else if self.current > index {
                self.current = self.current - 1;
            }
            self.buffers.remove(index);
            true
        } else {
            false
        }
    }

    /// Associates the buffer at `index` with a backing path, setting its
    /// path and its display name (the part of the path after the last
    /// `/`).  An out-of-range index changes nothing.
    pub fn rename_or_associate(&mut self, index: usize, path: &Vec<char>)
        requires
            old(self).wf(),
        ensures
            final(self).wf(),
            final(self).current == old(self).current,
            index >= old(self).buffers@.len() ==> final(self).buffers@ == old(self).buffers@,
            index < old(self).buffers@.len() ==> {
                &&& final(self).buffers@.len() == old(self).buffers@.len()
                &&& forall|j: int|
                    0 <= j < old(self).buffers@.len() && j != index
                        ==> final(self).buffers@[j] == #[trigger] old(self).buffers@[j]
                &&& final(self).buffers@[index as int].lines_view()
                    == old(self).buffers@[index as int].lines_view()
                &&& final(self).buffers@[index as int].line
                    == old(self).buffers@[index as int].line
                &&& final(self).buffers@[index as int].col == old(self).buffers@[index as int].col
                &&& final(self).buffers@[index as int].path_view() == Some(path@)
                &&& final(self).buffers@[index as int].filename_view() == Some(basename_of(path@))
            },
    {
        if index < self.buffers.len() {
            let p = string_of_chars(path);
            let name = basename(path);
            let f = string_of_chars(&name);
            let mut b = self.buffers.remove(index);
            b.path = Some(p);
            b.filename = Some(f);
            let ghost bb = b;
            self.buffers.insert(index, b);
            proof {
                assert(self.buffers@ =~= old(self).buffers@.update(index as int, bb));
            }
        }
    }
}

/// The whole editable state of the application: the screen being shown,
/// the open buffers, and the exit flag the event loop watches.
#[derive(Debug)]
pub struct State {
    /// Which top-level screen is shown.
    pub current_screen: CurrentScreen,
    /// The open buffers and the index of the active one.
    pub buffers: BufferCollection,
    /// Set when the application should leave its event loop.
    pub exit: bool,
}

impl State {
    /// Well-formed whenever its collection is.
    pub open spec fn wf(&self) -> bool {
        self.buffers.wf()
    }

    /// A fresh state on the given screen: no buffers, not exiting.
    pub fn new(current_screen: CurrentScreen) -> (r: State)
        ensures
            r.wf(),
            r.current_screen == current_screen,
            r.buffers.buffers@.len() == 0,
            r.buffers.current == 0,
            !r.exit,
    {
        State { current_screen, buffers: BufferCollection::new(), exit: false }
    }

    /// Appends a buffer and makes it the active one.
    pub fn push_buffer(&mut self, buffer: Buffer)
        requires
            old(self).wf(),
            buffer.wf(),
        ensures
            final(self).wf(),
            final(self).buffers.buffers@ == old(self).buffers.buffers@.push(buffer),
            final(self).buffers.current == old(self).buffers.buffers@.len(),
            final(self).current_screen == old(self).current_screen,
            final(self).exit == old(self).exit,
    {
        self.buffers.push_buffer(buffer);
    }
}

impl Default for State {
    /// A fresh state on the home screen: no buffers, not exiting.
    fn default() -> (r: State)
        ensures
            r.wf(),
            r.current_screen is Home,
            r.buffers.buffers@.len() == 0,
            r.buffers.current == 0,
            !r.exit,
    {
        State::new(CurrentScreen::Home)
    }
}

} // verus!
