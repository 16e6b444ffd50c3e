//! Texture paths in first-seen order: the position of a path is its index in the bindless array, so
//! equal paths share an index and an index never moves.
use crate::text::{same, texts};
use vstd::prelude::*;

verus! {

/// The first position of `p` in `s`, or the length of `s` where it does not occur.
pub open spec fn position(s: Seq<Seq<char>>, p: Seq<char>) -> int
    decreases s.len(),
{
    if s.len() == 0 {
        0
    } else {
        let r = position(s.drop_last(), p);
        if r < s.len() - 1 {
            r
        } else if s.last() == p {
            s.len() - 1
        } else {
            s.len() as int
        }
    }
}

/// The list with `p` in it: as it is where `p` occurs, with `p` appended where it does not.
pub open spec fn interned(s: Seq<Seq<char>>, p: Seq<char>) -> Seq<Seq<char>> {
    if position(s, p) < s.len() {
        s
    } else {
        s.push(p)
    }
}

/// The list with an optional path in it.
pub open spec fn with_path(s: Seq<Seq<char>>, p: Option<Seq<char>>) -> Seq<Seq<char>> {
    match p {
        Some(t) => interned(s, t),
        None => s,
    }
}

/// The index of an optional path, `none` where there is no path.
pub open spec fn index_or(s: Seq<Seq<char>>, p: Option<Seq<char>>, none: u32) -> u32 {
    match p {
        Some(t) => position(s, t) as u32,
        None => none,
    }
}

/// A path that is present and not empty.
pub open spec fn path_of(p: Option<String>) -> Option<Seq<char>> {
    match p {
        Some(s) => if s@.len() > 0 {
            Some(s@)
        } else {
            None
        },
        None => None,
    }
}

/// No path occurs twice.
pub open spec fn all_distinct(s: Seq<Seq<char>>) -> bool {
    forall|i: int, j: int| 0 <= i < j < s.len() ==> s[i] != s[j]
}

/// What a position means: it is the first place where the path stands, or the path is nowhere.
pub proof fn position_is_first(s: Seq<Seq<char>>, p: Seq<char>)
    ensures
        0 <= position(s, p) <= s.len(),
        position(s, p) < s.len() ==> s[position(s, p)] == p,
        forall|i: int| 0 <= i < position(s, p) ==> s[i] != p,
    decreases s.len(),
{
    if s.len() > 0 {
        position_is_first(s.drop_last(), p);
        let r = position(s.drop_last(), p);
        assert forall|i: int| 0 <= i < position(s, p) implies s[i] != p by {
            if i < r {
                assert(s.drop_last()[i] == s[i]);
            }
        }
        if r < s.len() - 1 {
            assert(s.drop_last()[r] == s[r]);
        }
    }
}

/// Interning a path keeps every index, keeps the paths distinct, and gives the path an index of its
/// own: two paths get the same index exactly when they are equal.
pub proof fn interning_is_stable(s: Seq<Seq<char>>, p: Seq<char>, q: Seq<char>)
    requires
        all_distinct(s),
    ensures
        all_distinct(interned(s, p)),
        s.len() <= interned(s, p).len() <= s.len() + 1,
        forall|i: int| 0 <= i < s.len() ==> interned(s, p)[i] == s[i],
        interned(s, p)[position(s, p)] == p,
        position(interned(s, p), q) == position(s, p) <==> p == q,
{
    position_is_first(s, p);
    position_is_first(interned(s, p), q);
    position_is_first(interned(s, p), p);
}

/// The paths of one bindless array.
pub struct PathTable {
    pub paths: Vec<String>,
}

impl View for PathTable {
    type V = Seq<Seq<char>>;

    open spec fn view(&self) -> Seq<Seq<char>> {
        texts(self.paths@)
    }
}

impl PathTable {
    /// The table with no paths.
    pub fn new() -> (r: PathTable)
        ensures
            r@ == Seq::<Seq<char>>::empty(),
    {
        let r = PathTable { paths: Vec::new() };
        proof {
            assert(r@ =~= Seq::<Seq<char>>::empty());
        }
        r
    }

    /// The index of a path, which is appended where it is not there yet.
    pub fn intern(&mut self, p: &str) -> (i: u32)
        requires
            old(self)@.len() < 0xffff_ffff,
        ensures
            final(self)@ == interned(old(self)@, p@),
            i == position(old(self)@, p@),
            final(self)@.len() <= old(self)@.len() + 1,
            final(self)@.len() >= old(self)@.len(),
    {
        let mut i: usize = 0;
        proof {
            position_is_first(self@, p@);
        }
        let n: usize = self.paths.len();
        while i < n
            invariant
                i <= n,
                n == self@.len(),
                *self == *old(self),
                n < 0xffff_ffff,
                forall|k: int| 0 <= k < i ==> self@[k] != p@,
            decreases n - i,
        {
            if same(self.paths[i].as_str(), p) {
                proof {
                    position_is_first(self@, p@);
                    assert(self@[i as int] == p@);
                }
                return i as u32;
            }
            i = i + 1;
        }
        proof {
            position_is_first(self@, p@);
        }
        self.paths.push(p.to_owned());
        proof {
            assert(self@ =~= old(self)@.push(p@));
        }
        n as u32
    }

    /// The index of an optional path; an empty path counts as none.
    pub fn intern_opt(&mut self, p: &Option<String>, none: u32) -> (i: u32)
        requires
            old(self)@.len() < 0xffff_ffff,
        ensures
            final(self)@ == with_path(old(self)@, path_of(*p)),
            i == index_or(old(self)@, path_of(*p), none),
            final(self)@.len() <= old(self)@.len() + 1,
            final(self)@.len() >= old(self)@.len(),
    {
        match p {
            Some(s) => if !s.as_str().is_empty() {
                self.intern(s.as_str())
            } else {
                none
            },
            None => none,
        }
    }
}

} // verus!
