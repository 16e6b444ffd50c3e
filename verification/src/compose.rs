//! Texts put together from parts, and taken apart again.
use vstd::prelude::*;
use vstd::string::*;
use crate::text::{begins, chars_of, matches_at, same, string_of, texts};

verus! {

/// Whether a text has no characters.
pub fn is_blank(s: &str) -> (r: bool)
    ensures
        r == (s@.len() == 0),
{
    proof {
        reveal_strlit("");
        if s@.len() == 0 {
            assert(s@ =~= ""@);
        }
    }
    same(s, "")
}

/// Two texts in a row.
pub fn join2(a: &str, b: &str) -> (r: String)
    ensures
        r@ == a@ + b@,
{
    let mut r = a.to_owned();
    r.append(b);
    r
}

/// Three texts in a row.
pub fn join3(a: &str, b: &str, c: &str) -> (r: String)
    ensures
        r@ == a@ + b@ + c@,
{
    let mut r = join2(a, b);
    r.append(c);
    r
}

/// Texts with a separator between any two of them.
pub open spec fn joined(parts: Seq<Seq<char>>, sep: Seq<char>) -> Seq<char>
    decreases parts.len(),
{
    if parts.len() == 0 {
        seq![]
    } else if parts.len() == 1 {
        parts[0]
    } else {
        joined(parts.drop_last(), sep) + sep + parts.last()
    }
}

/// Texts with a separator between any two of them.
pub fn join_texts(parts: &Vec<String>, sep: &str) -> (r: String)
    ensures
        r@ == joined(texts(parts@), sep@),
{
    let mut r = String::new();
    let n: usize = parts.len();
    let mut i: usize = 0;
    proof {
        assert(r@ =~= joined(texts(parts@).take(0), sep@));
    }
    while i < n
        invariant
            i <= n,
            n == parts@.len(),
            r@ == joined(texts(parts@).take(i as int), sep@),
        decreases n - i,
    {
        let ghost t = texts(parts@).take(i + 1);
        proof {
            assert(t.drop_last() =~= texts(parts@).take(i as int));
            assert(t.last() == parts@[i as int]@);
        }
        if i > 0 {
            r.append(sep);
        }
        r.append(parts[i].as_str());
        proof {
            if i == 0 {
                assert(r@ =~= t[0]);
            }
        }
        i = i + 1;
    }
    proof {
        assert(texts(parts@).take(n as int) =~= texts(parts@));
    }
    r
}

/// A text with each dash made a space.
pub open spec fn spaced(s: Seq<char>) -> Seq<char> {
    Seq::new(
        s.len(),
        |i: int|
            if s[i] == '-' {
                ' '
            } else {
                s[i]
            },
    )
}

/// A text with each dash made a space.
pub fn dashes_to_spaces(s: &str) -> (r: String)
    ensures
        r@ == spaced(s@),
{
    let v = chars_of(s);
    let mut r = String::new();
    let n: usize = v.len();
    let mut i: usize = 0;
    while i < n
        invariant
            i <= n,
            n == v@.len(),
            v@ == s@,
            r@ == spaced(s@).take(i as int),
        decreases n - i,
    {
        if v[i] == '-' {
            r.push(' ');
        } else {
            r.push(v[i]);
        }
        proof {
            assert(r@ =~= spaced(s@).take(i + 1));
        }
        i = i + 1;
    }
    proof {
        assert(spaced(s@).take(n as int) =~= spaced(s@));
    }
    r
}

/// What follows the prefix `p` in `s`; none where `s` does not begin with it.
pub open spec fn rest_after(s: Seq<char>, p: Seq<char>) -> Option<Seq<char>> {
    if begins(s, p) {
        Some(s.skip(p.len() as int))
    } else {
        None
    }
}

/// What follows the prefix `p` in `s`.
pub fn after_prefix(s: &str, p: &str) -> (r: Option<String>)
    ensures
        match r {
            Some(t) => rest_after(s@, p@) == Some(t@),
            None => rest_after(s@, p@) is None,
        },
{
    let v = chars_of(s);
    let q = chars_of(p);
    if matches_at(&v, &q, 0) {
        let t = string_of(&v, q.len(), v.len());
        proof {
            assert(t@ =~= s@.skip(p@.len() as int));
        }
        Some(t)
    } else {
        None
    }
}

/// Whether a character occurs in a text.
pub fn contains_char(s: &str, c: char) -> (r: bool)
    ensures
        r == s@.contains(c),
{
    let v = chars_of(s);
    let n: usize = v.len();
    let mut i: usize = 0;
    while i < n
        invariant
            i <= n,
            n == v@.len(),
            v@ == s@,
            forall|j: int| 0 <= j < i ==> s@[j] != c,
        decreases n - i,
    {
        if v[i] == c {
            proof {
                assert(s@[i as int] == c);
            }
            return true;
        }
        i = i + 1;
    }
    false
}

/// No line or one.
pub open spec fn line_if(c: bool, s: Seq<char>) -> Seq<Seq<char>> {
    if c {
        seq![s]
    } else {
        seq![]
    }
}

/// Add a line at the end.
pub fn add_line(v: &mut Vec<String>, s: String)
    ensures
        texts(final(v)@) == texts(old(v)@) + seq![s@],
{
    let ghost before = v@;
    v.push(s);
    proof {
        assert(texts(v@) =~= texts(before) + seq![s@]);
    }
}

/// No lines.
pub fn no_lines() -> (v: Vec<String>)
    ensures
        texts(v@) == Seq::<Seq<char>>::empty(),
{
    let v: Vec<String> = Vec::new();
    proof {
        assert(texts(v@) =~= Seq::<Seq<char>>::empty());
    }
    v
}

/// The text of an optional string.
pub open spec fn maybe_text(v: Option<String>) -> Option<Seq<char>> {
    match v {
        Some(s) => Some(s@),
        None => None,
    }
}

/// The text of an optional string where there is one that is not empty.
pub open spec fn some_text(v: Option<String>) -> Option<Seq<char>> {
    match v {
        Some(s) => if s@.len() > 0 {
            Some(s@)
        } else {
            None
        },
        None => None,
    }
}

/// The first text, or the second where there is none.
pub open spec fn text_or(v: Option<Seq<char>>, d: Seq<char>) -> Seq<char> {
    match v {
        Some(s) => s,
        None => d,
    }
}

/// A copy of an optional string.
pub fn copy_option(v: &Option<String>) -> (r: Option<String>)
    ensures
        maybe_text(r) == maybe_text(*v),
{
    match v {
        Some(s) => Some(s.as_str().to_owned()),
        None => None,
    }
}

/// The text of an optional string, or `d` where there is none or an empty one.
pub fn filled_or(v: &Option<String>, d: &str) -> (r: String)
    ensures
        r@ == text_or(some_text(*v), d@),
{
    match v {
        Some(s) => if is_blank(s.as_str()) {
            d.to_owned()
        } else {
            s.as_str().to_owned()
        },
        None => d.to_owned(),
    }
}

/// The text, or `d` where it is empty.
pub fn nonempty_or(s: &str, d: &str) -> (r: String)
    ensures
        r@ == (if s@.len() > 0 {
            s@
        } else {
            d@
        }),
{
    if is_blank(s) {
        d.to_owned()
    } else {
        s.to_owned()
    }
}

} // verus!
