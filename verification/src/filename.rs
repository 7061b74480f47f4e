//! Character-level helpers for file names: extracting the display name from
//! a path and building owned strings from typed characters.

use vstd::prelude::*;

verus! {

/// Relies on `String::push`: it appends the given character to the end of
/// the string, as its documentation states.
pub assume_specification[ String::push ](s: &mut String, c: char)
    ensures
        final(s)@ == old(s)@.push(c),
;

/// The characters after the last `/` of a path: the name shown for a
/// buffer backed by that path.  A path ending in `/` has an empty name.
pub open spec fn basename_of(s: Seq<char>) -> Seq<char>
    decreases s.len(),
{
    if s.len() == 0 {
        Seq::empty()
    } else if s.last() == '/' {
        Seq::empty()
    } else {
        basename_of(s.drop_last()).push(s.last())
    }
}

/// A suffix that starts right after a `/` (or at the very start) and holds
/// no further `/` is exactly the basename.
proof fn lemma_basename_suffix(s: Seq<char>, cut: int)
    requires
        0 <= cut <= s.len(),
        forall|m: int| cut <= m < s.len() ==> s[m] != '/',
        cut > 0 ==> s[cut - 1] == '/',
    ensures
        basename_of(s) == s.skip(cut),
    decreases s.len(),
{
    if s.len() == 0 {
        assert(basename_of(s) =~= s.skip(cut));
    } else if cut == s.len() {
        assert(s.last() == '/');
        assert(basename_of(s) =~= s.skip(cut));
    } else {
        assert(s.last() != '/');
        assert(forall|m: int| cut <= m < s.len() - 1 ==> s.drop_last()[m] == s[m]);
        lemma_basename_suffix(s.drop_last(), cut);
        assert(s.skip(cut) =~= s.drop_last().skip(cut).push(s.last()));
    }
}

/// The part of `path` after its last `/`: the display name of the file.
pub fn basename(path: &Vec<char>) -> (r: Vec<char>)
    ensures
        r@ == basename_of(path@),
{
    let mut cut: usize = path.len();
    while cut > 0 && path[cut - 1] != '/'
        invariant
            0 <= cut <= path@.len(),
            forall|m: int| cut <= m < path@.len() ==> path@[m] != '/',
        decreases cut,
    {
        cut = cut - 1;
    }
    let mut r: Vec<char> = Vec::new();
    let mut m: usize = cut;
    while m < path.len()
        invariant
            cut <= m <= path@.len(),
            r@ == path@.subrange(cut as int, m as int),
        decreases path@.len() - m,
    {
        r.push(path[m]);
        proof {
            assert(path@.subrange(cut as int, m + 1) =~= path@.subrange(cut as int, m as int).push(
                path@[m as int],
            ));
        }
        m = m + 1;
    }
    proof {
        lemma_basename_suffix(path@, cut as int);
        assert(r@ =~= path@.skip(cut as int));
    }
    r
}

/// Builds an owned string holding exactly the given characters, in order.
pub fn string_of_chars(v: &Vec<char>) -> (r: String)
    ensures
        r@ == v@,
{
    let mut r = String::new();
    let mut i: usize = 0;
    while i < v.len()
        invariant
            0 <= i <= v@.len(),
            r@ == v@.take(i as int),
        decreases v@.len() - i,
    {
        r.push(v[i]);
        proof {
            assert(v@.take(i + 1) =~= v@.take(i as int).push(v@[i as int]));
        }
        i = i + 1;
    }
    proof {
        assert(v@.take(v@.len() as int) =~= v@);
    }
    r
}

} // verus!
