//! The list-based action flows: switching to another buffer and closing a
//! buffer.  Both show the same kind of list — one labelled entry per open
//! buffer that has a backing path — and differ only in what committing the
//! selection does.

use vstd::prelude::*;

use crate::buffer::Buffer;
use crate::state::BufferCollection;
use crate::state::close_rebased_current;
use crate::key::Key;

verus! {

/// One selectable entry of the list: the path shown, the index of the
/// buffer it stands for, and its mnemonic letter.
#[derive(Debug, Clone)]
pub struct BufferItem {
    /// The path displayed for the entry.
    pub file_path: String,
    /// Index of the buffer this entry stands for in the collection.
    pub buffer_index: usize,
    /// The mnemonic letter that jumps to this entry; `'-'` once the
    /// alphabet is exhausted.
    pub char: char,
}

impl BufferItem {
    pub fn new(file_path: String, buffer_index: usize, char: char) -> (r: BufferItem)
        ensures
            r.file_path == file_path,
            r.buffer_index == buffer_index,
            r.char == char,
    {
        BufferItem { file_path, buffer_index, char }
    }

    /// The entry as rendered in the list: its letter, a space, its path.
    pub fn label(&self) -> (r: Vec<char>)
        ensures
            r@ == seq![self.char, ' '] + self.file_path@,
    {
        let mut r: Vec<char> = Vec::new();
        r.push(self.char);
        r.push(' ');
        let mut i: usize = 0;
        let ghost pre = r@;
        let n = self.file_path.as_str().unicode_len();
        while i < n
            invariant
                0 <= i <= self.file_path@.len(),
                n == self.file_path@.len(),
                r@ == pre + self.file_path@.take(i as int),
            decreases n - i,
        {
            r.push(self.file_path.as_str().get_char(i));
            proof {
                assert(self.file_path@.take(i + 1) =~= self.file_path@.take(i as int).push(
                    self.file_path@[i as int],
                ));
            }
            i = i + 1;
        }
        proof {
            assert(self.file_path@.take(self.file_path@.len() as int) =~= self.file_path@);
            assert(pre + self.file_path@ =~= seq![self.char, ' '] + self.file_path@);
        }
        r
    }
}

/// The mnemonic letter assigned to the `k`-th entry: `a`, `b`, `c`, … in
/// list order, `-` once the alphabet is exhausted.
pub open spec fn letter_for(k: int) -> char {
    if 0 <= k < 26 {
        (((97 + k) as u8) as char)
    } else {
        '-'
    }
}

/// The entries a list shows for a buffer collection: one per buffer with a
/// backing path, in collection order, keeping the buffer's index and
/// carrying the next mnemonic letter.
pub open spec fn roster(bufs: Seq<Buffer>) -> Seq<(Seq<char>, int, char)>
    decreases bufs.len(),
{
    if bufs.len() == 0 {
        Seq::empty()
    } else {
        let r = roster(bufs.drop_last());
        match bufs.last().path_view() {
            Some(p) => r.push((p, bufs.len() - 1, letter_for(r.len() as int))),
            None => r,
        }
    }
}

/// The entries of an item vector, as plain values.
pub open spec fn item_views(items: Seq<BufferItem>) -> Seq<(Seq<char>, int, char)> {
    Seq::new(items.len(), |i: int| (items[i].file_path@, items[i].buffer_index as int, items[i].char))
}

/// What moving the selection one step forward yields: a first selection on
/// no selection, otherwise the next entry, held at the last one.
pub open spec fn next_selection(cur: Option<usize>, n: int) -> Option<usize> {
    match cur {
        Some(i) => if i + 1 < n {
            Some((i + 1) as usize)
        } else {
            Some(i)
        },
        None => Some(0usize),
    }
}

/// What moving the selection one step back yields: a first selection on no
/// selection, otherwise the previous entry, held at the first one.
pub open spec fn previous_selection(cur: Option<usize>) -> Option<usize> {
    match cur {
        Some(i) => if i > 0 {
            Some((i - 1) as usize)
        } else {
            Some(0usize)
        },
        None => Some(0usize),
    }
}

/// Index of the first entry whose mnemonic letter is `letter`.
pub open spec fn find_letter(items: Seq<(Seq<char>, int, char)>, letter: char) -> Option<int>
    decreases items.len(),
{
    if items.len() == 0 {
        None
    } else if items[0].2 == letter {
        Some(0int)
    } else {
        match find_letter(items.drop_first(), letter) {
            Some(i) => Some(i + 1),
            None => None,
        }
    }
}

/// `find_letter` returns the first match: no earlier entry matches, and it
/// returns `None` exactly when nothing matches.
pub proof fn lemma_find_letter_at(items: Seq<(Seq<char>, int, char)>, letter: char, k: int)
    requires
        0 <= k <= items.len(),
        forall|j: int| 0 <= j < k ==> (#[trigger] items[j]).2 != letter,
        k < items.len() ==> items[k].2 == letter,
    ensures
        k < items.len() ==> find_letter(items, letter) == Some(k),
        k == items.len() ==> find_letter(items, letter) is None,
    decreases k,
{
    if items.len() > 0 && items[0].2 != letter {
        assert(forall|j: int|
            0 <= j < k - 1 ==> (#[trigger] items.drop_first()[j]) == items[j + 1]);
        lemma_find_letter_at(items.drop_first(), letter, k - 1);
    }
}

/// The selection after a mnemonic jump: the first entry whose letter
/// matches, or the old selection when none does.
pub open spec fn letter_selection(
    items: Seq<(Seq<char>, int, char)>,
    cur: Option<int>,
    letter: char,
) -> Option<int> {
    match find_letter(items, letter) {
        Some(i) => Some(i),
        None => cur,
    }
}

/// Where the selection stands after one navigation key: Up/Left move back,
/// Down/Right move forward, Home/End jump to the ends, an alphabetic
/// character jumps to its mnemonic entry (case-insensitively), and every
/// other key leaves it alone.
pub open spec fn selection_after_key(
    items: Seq<(Seq<char>, int, char)>,
    cur: Option<int>,
    key: Key,
) -> Option<int> {
    match key {
        Key::Left => sel_previous(cur),
        Key::Up => sel_previous(cur),
        Key::Right => sel_next(cur, items.len() as int),
        Key::Down => sel_next(cur, items.len() as int),
        Key::Home => Some(0int),
        Key::End => if items.len() > 0 {
            Some(items.len() - 1)
        } else {
            cur
        },
        Key::Char(c) => if is_ascii_alpha(c) {
            letter_selection(items, cur, lower_of(c))
        } else {
            cur
        },
        _ => cur,
    }
}

/// `next_selection`, over plain integers.
pub open spec fn sel_next(cur: Option<int>, n: int) -> Option<int> {
    match cur {
        Some(i) => if i + 1 < n {
            Some(i + 1)
        } else {
            Some(i)
        },
        None => Some(0int),
    }
}

/// `previous_selection`, over plain integers.
pub open spec fn sel_previous(cur: Option<int>) -> Option<int> {
    match cur {
        Some(i) => if i > 0 {
            Some(i - 1)
        } else {
            Some(0int)
        },
        None => Some(0int),
    }
}

/// What a list flow does when its selection is committed.
#[derive(Debug, Clone, Copy, PartialEq, Eq, Structural)]
pub enum ListPurpose {
    /// Switch the collection's current buffer to the selected one.
    Navigation,
    /// Close the selected buffer.
    Deletion,
}

/// Everything committing a list selection may do to a collection: with a
/// selection on a live entry it switches to (navigation) or closes
/// (deletion) the selected buffer, `done` saying whether the action was
/// performed; with no selection, or one pointing at nothing, it does
/// nothing and `done` is false.
pub open spec fn list_commit_post(
    w: BufferListWidget,
    a: BufferCollection,
    b: BufferCollection,
    done: bool,
) -> bool {
    let sel = w.current_view();
    let iv = item_views(w.items@);
    match sel {
        None => !done && b == a,
        Some(i) => {
            if 0 <= i < iv.len() {
                let bi = iv[i].1;
                if w.purpose is Navigation {
                    &&& (done <==> bi < a.buffers@.len())
                    &&& b.buffers@ == a.buffers@
                    &&& (done ==> b.current == bi)
                    &&& (!done ==> b.current == a.current)
                } else {
                    &&& (done <==> (a.buffers@.len() > 1 && bi < a.buffers@.len()))
                    &&& (done ==> b.buffers@ == a.buffers@.remove(bi) && b.current
                        == close_rebased_current(a.current as int, bi))
                    &&& (!done ==> b == a)
                }
            } else {
                !done && b == a
            }
        },
    }
}

/// A list over the open buffers with one movable selection.  The entries
/// are rebuilt from the collection when the flow is entered, not
/// continuously, so a stale entry may point past the collection; committing
/// such an entry does nothing.
#[derive(Debug)]
pub struct BufferListWidget {
    /// The entries, rebuilt by `refresh_list`.
    pub items: Vec<BufferItem>,
    /// The selected entry, if any.
    pub current: Option<usize>,
    /// Title shown over the list.
    pub title: String,
    /// What committing the selection does.
    pub purpose: ListPurpose,
}

impl BufferListWidget {
    /// The selection as a plain value.
    pub open spec fn current_view(&self) -> Option<int> {
        match self.current {
            Some(i) => Some(i as int),
            None => None,
        }
    }

    /// An empty list with no selection.
    pub fn new(title: &str, purpose: ListPurpose) -> (r: BufferListWidget)
        ensures
            r.items@.len() == 0,
            r.current is None,
            r.title@ == title@,
            r.purpose == purpose,
    {
        BufferListWidget { items: Vec::new(), current: None, title: title.to_owned(), purpose }
    }

    /// The list that switches buffers.
    pub fn for_navigation() -> (r: BufferListWidget)
        ensures
            r.items@.len() == 0,
            r.current is None,
            r.title@ == "Buffer List"@,
            r.purpose is Navigation,
    {
        BufferListWidget::new("Buffer List", ListPurpose::Navigation)
    }

    /// The list that closes buffers.
    pub fn for_deletion() -> (r: BufferListWidget)
        ensures
            r.items@.len() == 0,
            r.current is None,
            r.title@ == "Delete Buffer"@,
            r.purpose is Deletion,
    {
        BufferListWidget::new("Delete Buffer", ListPurpose::Deletion)
    }

    /// Rebuilds the entries from the collection: one entry per buffer with
    /// a backing path, in order, with mnemonic letters `a`, `b`, `c`, …
    /// (`-` once the alphabet is exhausted).  The selection is untouched.
    pub fn refresh_list(&mut self, coll: &BufferCollection)
        ensures
            item_views(final(self).items@) == roster(coll.buffers@),
            final(self).current == old(self).current,
            final(self).title == old(self).title,
            final(self).purpose == old(self).purpose,
    {
        self.items = Vec::new();
        let mut count: usize = 0;
        let mut k: usize = 0;
        proof {
            assert(coll.buffers@.take(0) =~= Seq::<Buffer>::empty());
            assert(item_views(self.items@) =~= roster(coll.buffers@.take(0)));
        }
        while k < coll.buffers.len()
            invariant
                0 <= k <= coll.buffers@.len(),
                count <= k,
                count == self.items@.len(),
                item_views(self.items@) == roster(coll.buffers@.take(k as int)),
                self.current == old(self).current,
                self.title == old(self).title,
                self.purpose == old(self).purpose,
            decreases coll.buffers@.len() - k,
        {
            let ghost before = self.items@;
            match &coll.buffers[k].path {
                Some(p) => {
                    let letter: char = if count < 26 {
                        (97u8 + count as u8) as char
                    } else {
                        '-'
                    };
                    self.items.push(BufferItem::new(p.clone(), k, letter));
                    count = count + 1;
                },
                None => {},
            }
            proof {
                let taken = coll.buffers@.take(k + 1);
                assert(taken.drop_last() =~= coll.buffers@.take(k as int));
                assert(taken.last() == coll.buffers@[k as int]);
                assert(item_views(self.items@) =~= roster(taken));
            }
            k = k + 1;
        }
        proof {
            assert(coll.buffers@.take(coll.buffers@.len() as int) =~= coll.buffers@);
        }
    }

    /// Clears the selection.
    pub fn select_none(&mut self)
        ensures
            final(self).current is None,
            final(self).items == old(self).items,
            final(self).title == old(self).title,
            final(self).purpose == old(self).purpose,
    {
        self.current = None;
    }

    /// Moves the selection one entry forward; a first press selects the
    /// first entry, and the selection holds at the last entry.
    pub fn select_next(&mut self)
        ensures
            final(self).current == next_selection(old(self).current, old(self).items@.len() as int),
            final(self).items == old(self).items,
            final(self).title == old(self).title,
            final(self).purpose == old(self).purpose,
    {
        let n = self.items.len();
        self.current = match self.current {
            Some(i) => if n > 0 && i < n - 1 {
                Some(i + 1)
            } else {
                Some(i)
            },
            None => Some(0),
        };
    }

    /// Moves the selection one entry back; a first press selects the first
    /// entry, and the selection holds at the first entry.
    pub fn select_previous(&mut self)
        ensures
            final(self).current == previous_selection(old(self).current),
            final(self).items == old(self).items,
            final(self).title == old(self).title,
            final(self).purpose == old(self).purpose,
    {
        self.current = match self.current {
            Some(i) => if i > 0 {
                Some(i - 1)
            } else {
                Some(0)
            },
            None => Some(0),
        };
    }

    /// Selects the first entry.
    pub fn select_first(&mut self)
        ensures
            final(self).current == Some(0usize),
            final(self).items == old(self).items,
            final(self).title == old(self).title,
            final(self).purpose == old(self).purpose,
    {
        self.current = Some(0);
    }

    /// Selects the last entry; with no entries the selection is untouched.
    pub fn select_last(&mut self)
        ensures
            old(self).items@.len() > 0 ==> final(self).current == Some(
                (old(self).items@.len() - 1) as usize,
            ),
            old(self).items@.len() == 0 ==> final(self).current == old(self).current,
            final(self).items == old(self).items,
            final(self).title == old(self).title,
            final(self).purpose == old(self).purpose,
    {
        if self.items.len() > 0 {
            self.current = Some(self.items.len() - 1);
        }
    }

    /// Jumps to the first entry whose mnemonic letter is `letter`; with no
    /// such entry the selection is untouched.
    pub fn select_by_letter(&mut self, letter: char)
        ensures
            final(self).items == old(self).items,
            final(self).title == old(self).title,
            final(self).purpose == old(self).purpose,
            final(self).current_view() == letter_selection(
                item_views(old(self).items@),
                old(self).current_view(),
                letter,
            ),
    {
        let ghost iv = item_views(self.items@);
        let mut k: usize = 0;
        while k < self.items.len()
            invariant
                0 <= k <= self.items@.len(),
                iv == item_views(self.items@),
                self.items == old(self).items,
                self.title == old(self).title,
                self.purpose == old(self).purpose,
                self.current == old(self).current,
                forall|j: int| 0 <= j < k ==> (#[trigger] iv[j]).2 != letter,
            decreases self.items@.len() - k,
        {
            if self.items[k].char == letter {
                self.current = Some(k);
                proof {
                    lemma_find_letter_at(iv, letter, k as int);
                }
                return ;
            }
            k = k + 1;
        }
        proof {
            lemma_find_letter_at(iv, letter, self.items@.len() as int);
        }
    }

    /// Routes a navigation key to the selection: Up/Left move back,
    /// Down/Right move forward, Home/End jump to the ends, an alphabetic
    /// character jumps to its mnemonic entry (case-insensitively); every
    /// other key does nothing.
    pub fn handle_event(&mut self, key: Key)
        ensures
            final(self).items == old(self).items,
            final(self).title == old(self).title,
            final(self).purpose == old(self).purpose,
            final(self).current_view() == selection_after_key(
                item_views(old(self).items@),
                old(self).current_view(),
                key,
            ),
    {
        let ghost cur0 = self.current_view();
        let n = self.items.len();
        assert(self.items@.len() <= usize::MAX);
        match key {
            Key::Left => {
                self.select_previous();
                assert(self.current_view() == sel_previous(cur0));
            },
            Key::Up => {
                self.select_previous();
                assert(self.current_view() == sel_previous(cur0));
            },
            Key::Right => {
                self.select_next();
                assert(self.current_view() == sel_next(cur0, self.items@.len() as int));
            },
            Key::Down => {
                self.select_next();
                assert(self.current_view() == sel_next(cur0, self.items@.len() as int));
            },
            Key::Home => {
                self.select_first();
                assert(self.current_view() == Some(0int));
            },
            Key::End => {
                self.select_last();
                proof {
                    if self.items@.len() > 0 {
                        assert(self.current_view() == Some(self.items@.len() - 1));
                    }
                }
            },
            Key::Char(c) => {
                if (c >= 'a' && c <= 'z') || (c >= 'A' && c <= 'Z') {
                    let lc: char = if c >= 'A' && c <= 'Z' {
                        ((c as u8) + 32u8) as char
                    } else {
                        c
                    };
                    assert(lc == lower_of(c));
                    self.select_by_letter(lc);
                }
            },
            _ => {},
        }
    }

    /// Commits the selection: with a selected entry that still points into
    /// the collection, switches to that buffer (for navigation) or closes
    /// it (for deletion), reporting whether the action was performed; with
    /// no or a stale selection it does nothing and reports `false`.
    pub fn process_action(&self, coll: &mut BufferCollection) -> (done: bool)
        requires
            old(coll).wf(),
        ensures
            final(coll).wf(),
            list_commit_post(*self, *old(coll), *final(coll), done),
    {
        match self.current {
            Some(i) => {
                if i < self.items.len() {
                    let bi = self.items[i].buffer_index;
                    match self.purpose {
                        ListPurpose::Navigation => coll.select(bi),
                        ListPurpose::Deletion => coll.close(bi),
                    }
                } else {
                    false
                }
            },
            None => false,
        }
    }

    /// Entering the flow rebuilds the list from the collection.
    pub fn init_action(&mut self, coll: &BufferCollection)
        ensures
            item_views(final(self).items@) == roster(coll.buffers@),
            final(self).current == old(self).current,
            final(self).title == old(self).title,
            final(self).purpose == old(self).purpose,
    {
        self.refresh_list(coll);
    }

    /// Leaving the flow clears the selection.
    pub fn reset(&mut self)
        ensures
            final(self).current is None,
            final(self).items == old(self).items,
            final(self).title == old(self).title,
            final(self).purpose == old(self).purpose,
    {
        self.select_none();
    }
}

/// True for the ASCII letters, the keys that jump by mnemonic.
pub open spec fn is_ascii_alpha(c: char) -> bool {
    ('a' <= c <= 'z') || ('A' <= c <= 'Z')
}

/// The lower-case form of an ASCII letter; other characters are unchanged.
pub open spec fn lower_of(c: char) -> char {
    if 'A' <= c <= 'Z' {
        ((c as u8) + 32) as char
    } else {
        c
    }
}

} // verus!
