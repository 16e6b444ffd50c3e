//! Strings as sequences of characters: the operations that the rest of the library needs, each
//! stated over `Seq<char>`.
use vstd::prelude::*;
use vstd::string::*;

verus! {

/// `String::push` of std appends one character at the end and changes nothing else.
pub assume_specification[ String::push ](s: &mut String, c: char)
    ensures
        final(s)@ == old(s)@.push(c),
;

/// `==` of std on string slices holds exactly when both hold the same characters.
pub assume_specification[ <str as PartialEq>::eq ](a: &str, b: &str) -> (r: bool)
    ensures
        r == (a@ == b@),
;

/// Whether two texts are equal.
pub fn same(a: &str, b: &str) -> (r: bool)
    ensures
        r == (a@ == b@),
{
    *a == *b
}

/// The characters of a string slice.
pub fn chars_of(s: &str) -> (v: Vec<char>)
    ensures
        v@ == s@,
{
    let mut v: Vec<char> = Vec::new();
    for c in it: s.chars()
        invariant
            v@ == it.seq().take(it.index() as int),
            it.seq() == s@,
    {
        v.push(c);
    }
    v
}

/// The string that holds the characters `v[from..to]`.
pub fn string_of(v: &Vec<char>, from: usize, to: usize) -> (s: String)
    requires
        from <= to <= v@.len(),
    ensures
        s@ == v@.subrange(from as int, to as int),
{
    let mut s = String::new();
    let mut i: usize = from;
    while i < to
        invariant
            from <= i <= to <= v@.len(),
            s@ == v@.subrange(from as int, i as int),
        decreases to - i,
    {
        s.push(v[i]);
        i = i + 1;
    }
    s
}

/// The characters with Unicode's White_Space property.
pub open spec fn white_space(c: char) -> bool {
    let u = c as u32;
    ||| 0x9 <= u <= 0xd
    ||| u == 0x20
    ||| u == 0x85
    ||| u == 0xa0
    ||| u == 0x1680
    ||| 0x2000 <= u <= 0x200a
    ||| u == 0x2028
    ||| u == 0x2029
    ||| u == 0x202f
    ||| u == 0x205f
    ||| u == 0x3000
}

/// Whether `c` is white space.
pub fn is_white_space(c: char) -> (r: bool)
    ensures
        r == white_space(c),
{
    let u: u32 = c as u32;
    (0x9 <= u && u <= 0xd) || u == 0x20 || u == 0x85 || u == 0xa0 || u == 0x1680 || (0x2000 <= u
        && u <= 0x200a) || u == 0x2028 || u == 0x2029 || u == 0x202f || u == 0x205f || u == 0x3000
}

/// `s` without its leading white space.
pub open spec fn trimmed_start(s: Seq<char>) -> Seq<char>
    decreases s.len(),
{
    if s.len() > 0 && white_space(s[0]) {
        trimmed_start(s.drop_first())
    } else {
        s
    }
}

/// `s` without its trailing white space.
pub open spec fn trimmed_end(s: Seq<char>) -> Seq<char>
    decreases s.len(),
{
    if s.len() > 0 && white_space(s.last()) {
        trimmed_end(s.drop_last())
    } else {
        s
    }
}

/// `s` without the white space at both ends.
pub open spec fn trimmed(s: Seq<char>) -> Seq<char> {
    trimmed_end(trimmed_start(s))
}

/// The text of `s` without the white space at both ends.
pub fn trim(s: &str) -> (r: String)
    ensures
        r@ == trimmed(s@),
{
    let v = chars_of(s);
    let mut a: usize = 0;
    assert(v@.skip(0) =~= v@);
    while a < v.len() && is_white_space(v[a])
        invariant
            a <= v@.len(),
            trimmed_start(v@) == trimmed_start(v@.skip(a as int)),
        decreases v@.len() - a,
    {
        proof {
            assert(v@.skip(a as int).drop_first() =~= v@.skip(a + 1));
        }
        a = a + 1;
    }
    let mut b: usize = v.len();
    assert(v@.skip(a as int) =~= v@.subrange(a as int, b as int));
    while b > a && is_white_space(v[b - 1])
        invariant
            a <= b <= v@.len(),
            trimmed_end(v@.skip(a as int)) == trimmed_end(v@.subrange(a as int, b as int)),
        decreases b,
    {
        proof {
            assert(v@.subrange(a as int, b as int).drop_last() =~= v@.subrange(a as int, b - 1));
        }
        b = b - 1;
    }
    string_of(&v, a, b)
}

/// `c` with an ASCII capital letter turned into its small letter.
pub open spec fn ascii_lower(c: char) -> char {
    if 'A' <= c && c <= 'Z' {
        (c as u8 + 32) as char
    } else {
        c
    }
}

/// `s` with every ASCII capital letter turned into its small letter.
pub open spec fn ascii_lowered(s: Seq<char>) -> Seq<char> {
    Seq::new(s.len(), |i: int| ascii_lower(s[i]))
}

/// The small letter of an ASCII capital letter, any other character as it is.
pub fn lower_char(c: char) -> (r: char)
    ensures
        r == ascii_lower(c),
{
    if 'A' <= c && c <= 'Z' {
        let u: u8 = c as u8;
        (u + 32) as char
    } else {
        c
    }
}

/// The text of `s` with ASCII capital letters turned into small ones.
pub fn to_ascii_lower(s: &str) -> (r: String)
    ensures
        r@ == ascii_lowered(s@),
{
    let v = chars_of(s);
    let mut r = String::new();
    let mut i: usize = 0;
    while i < v.len()
        invariant
            i <= v@.len(),
            r@ == ascii_lowered(v@.take(i as int)),
        decreases v@.len() - i,
    {
        r.push(lower_char(v[i]));
        i = i + 1;
        proof {
            assert(r@ =~= ascii_lowered(v@.take(i as int)));
        }
    }
    assert(v@.take(v@.len() as int) =~= v@);
    r
}

/// Whether two texts are equal but for the case of ASCII letters.
pub fn same_ignoring_ascii_case(a: &str, b: &str) -> (r: bool)
    ensures
        r == (ascii_lowered(a@) == ascii_lowered(b@)),
{
    to_ascii_lower(a) == to_ascii_lower(b)
}

/// The text that `str::to_lowercase` of std makes of a text.
pub uninterp spec fn lowercased(s: Seq<char>) -> Seq<char>;

/// `str::to_lowercase` of std: the Unicode lower case of the text, named by `lowercased`. Of a text
/// that is all ASCII it lowers the ASCII capital letters and changes nothing else.
#[verifier::external_body]
pub(crate) fn to_lowercase(s: &str) -> (r: String)
    ensures
        r@ == lowercased(s@),
        vstd::utf8::is_ascii_chars(s@) ==> r@ == ascii_lowered(s@),
{
    s.to_lowercase()
}

/// The decimal digit of `d`.
pub open spec fn digit(d: nat) -> char {
    (48 + d) as u8 as char
}

/// `n` in decimal, without leading zeros.
pub open spec fn decimal(n: nat) -> Seq<char>
    decreases n,
{
    if n < 10 {
        seq![digit(n)]
    } else {
        decimal(n / 10).push(digit(n % 10))
    }
}

/// `n` written in decimal.
pub fn decimal_of(n: u64) -> (r: String)
    ensures
        r@ == decimal(n as nat),
    decreases n,
{
    let mut r = if n < 10 {
        String::new()
    } else {
        decimal_of(n / 10)
    };
    let d: u8 = (n % 10) as u8;
    r.push((48 + d) as char);
    proof {
        assert(r@ =~= decimal(n as nat));
    }
    r
}

/// The hexadecimal digit of `d`, in small letters.
pub open spec fn hex_digit(d: nat) -> char {
    if d < 10 {
        (48 + d) as u8 as char
    } else {
        (87 + d) as u8 as char
    }
}

/// The low `k` hexadecimal digits of `n`, the most significant first.
pub open spec fn hex_digits(n: nat, k: nat) -> Seq<char>
    decreases k,
{
    if k == 0 {
        Seq::empty()
    } else {
        hex_digits(n / 16, (k - 1) as nat).push(hex_digit(n % 16))
    }
}

/// The low `k` hexadecimal digits of `n`.
pub fn hex_of(n: u64, k: u32) -> (r: String)
    ensures
        r@ == hex_digits(n as nat, k as nat),
    decreases k,
{
    if k == 0 {
        let r = String::new();
        proof {
            assert(r@ =~= hex_digits(n as nat, 0));
        }
        r
    } else {
        let mut r = hex_of(n / 16, k - 1);
        let d: u8 = (n % 16) as u8;
        r.push(
            if d < 10 {
                (48 + d) as char
            } else {
                (87 + d) as char
            },
        );
        r
    }
}

/// The texts of a list of strings.
pub open spec fn texts(v: Seq<String>) -> Seq<Seq<char>> {
    Seq::new(v.len(), |i: int| v[i]@)
}

/// A copy of a list of texts.
pub fn copy_texts(v: &Vec<String>) -> (r: Vec<String>)
    ensures
        texts(r@) == texts(v@),
{
    let mut r: Vec<String> = Vec::new();
    let n: usize = v.len();
    let mut i: usize = 0;
    while i < n
        invariant
            i <= n,
            n == v@.len(),
            r@.len() == i,
            forall|j: int| 0 <= j < i ==> (#[trigger] r@[j])@ == v@[j]@,
        decreases n - i,
    {
        r.push(v[i].as_str().to_owned());
        i = i + 1;
    }
    proof {
        assert(texts(r@) =~= texts(v@));
    }
    r
}

/// Whether `n` occurs in `s` at position `k`.
pub open spec fn occurs_at(s: Seq<char>, n: Seq<char>, k: int) -> bool {
    0 <= k && k + n.len() <= s.len() && s.subrange(k, k + n.len()) == n
}

/// Whether `n` occurs somewhere in `s`.
pub open spec fn holds_text(s: Seq<char>, n: Seq<char>) -> bool {
    exists|k: int| occurs_at(s, n, k)
}

/// Whether `n` stands in `s` from position `k` on.
pub fn matches_at(s: &Vec<char>, n: &Vec<char>, k: usize) -> (r: bool)
    ensures
        r == occurs_at(s@, n@, k as int),
{
    if k > s.len() || n.len() > s.len() - k {
        return false;
    }
    let mut j: usize = 0;
    while j < n.len()
        invariant
            j <= n@.len(),
            k + n@.len() <= s@.len() <= usize::MAX,
            s@.subrange(k as int, k + j) == n@.take(j as int),
        decreases n@.len() - j,
    {
        if s[k + j] != n[j] {
            proof {
                assert(s@.subrange(k as int, k + n@.len())[j as int] != n@[j as int]);
            }
            return false;
        }
        j = j + 1;
        proof {
            assert(s@.subrange(k as int, k + j) =~= n@.take(j as int));
        }
    }
    assert(n@.take(n@.len() as int) =~= n@);
    true
}

/// Whether the text of `needle` occurs in that of `hay`.
pub fn contains_text(hay: &str, needle: &str) -> (r: bool)
    ensures
        r == holds_text(hay@, needle@),
{
    let h = chars_of(hay);
    let n = chars_of(needle);
    if n.len() > h.len() {
        return false;
    }
    let mut k: usize = 0;
    while k <= h.len() - n.len()
        invariant
            n@.len() <= h@.len(),
            k <= h@.len() - n@.len() + 1,
            h@ == hay@,
            n@ == needle@,
            forall|j: int| 0 <= j < k ==> !occurs_at(h@, n@, j),
        decreases h@.len() + 1 - k,
    {
        if matches_at(&h, &n, k) {
            return true;
        }
        if k == h.len() - n.len() {
            return false;
        }
        k = k + 1;
    }
    false
}

/// Whether `s` begins with `p`.
pub open spec fn begins(s: Seq<char>, p: Seq<char>) -> bool {
    occurs_at(s, p, 0)
}

/// Whether `s` ends with `p`.
pub open spec fn ends(s: Seq<char>, p: Seq<char>) -> bool {
    occurs_at(s, p, s.len() - p.len())
}

/// Whether the text of `s` begins with that of `p`.
pub fn begins_with(s: &str, p: &str) -> (r: bool)
    ensures
        r == begins(s@, p@),
{
    matches_at(&chars_of(s), &chars_of(p), 0)
}

/// Whether the text of `s` ends with that of `p`.
pub fn ends_with(s: &str, p: &str) -> (r: bool)
    ensures
        r == ends(s@, p@),
{
    let h = chars_of(s);
    let n = chars_of(p);
    if n.len() > h.len() {
        false
    } else {
        matches_at(&h, &n, h.len() - n.len())
    }
}

/// The pieces of `s` between the places where `sep` stands.
pub open spec fn pieces(s: Seq<char>, sep: char) -> Seq<Seq<char>>
    decreases s.len(),
{
    if s.len() == 0 {
        seq![Seq::empty()]
    } else {
        let rest = pieces(s.drop_last(), sep);
        if s.last() == sep {
            rest.push(Seq::empty())
        } else {
            rest.drop_last().push(rest.last().push(s.last()))
        }
    }
}

/// There is always at least one piece.
pub proof fn pieces_not_empty(s: Seq<char>, sep: char)
    ensures
        pieces(s, sep).len() >= 1,
    decreases s.len(),
{
    if s.len() > 0 {
        pieces_not_empty(s.drop_last(), sep);
    }
}

/// Text without a separator is one piece.
pub proof fn pieces_of_plain(t: Seq<char>, sep: char)
    requires
        !t.contains(sep),
    ensures
        pieces(t, sep) == seq![t],
    decreases t.len(),
{
    if t.len() > 0 {
        let u = t.drop_last();
        assert(t[t.len() - 1] != sep);
        assert forall|c: char| u.contains(c) implies t.contains(c) by {
            let j = choose|j: int| 0 <= j < u.len() && u[j] == c;
            assert(t[j] == c);
        }
        pieces_of_plain(u, sep);
        assert(u.push(t.last()) =~= t);
        assert(seq![u].drop_last().push(t) =~= seq![t]);
    } else {
        assert(t =~= Seq::<char>::empty());
    }
}

/// The pieces of two texts with a separator between them are the pieces of both.
pub proof fn pieces_of_joined(s: Seq<char>, t: Seq<char>, sep: char)
    ensures
        pieces(s.push(sep) + t, sep) == pieces(s, sep) + pieces(t, sep),
    decreases t.len(),
{
    let all = s.push(sep) + t;
    if t.len() == 0 {
        assert(all.drop_last() =~= s);
        assert(t =~= Seq::<char>::empty());
        assert(pieces(all, sep) =~= pieces(s, sep) + pieces(t, sep));
    } else {
        let u = t.drop_last();
        pieces_of_joined(s, u, sep);
        pieces_not_empty(u, sep);
        assert(all.drop_last() =~= s.push(sep) + u);
        assert(all.last() == t.last());
        assert(pieces(all, sep) =~= pieces(s, sep) + pieces(t, sep));
    }
}

/// The text of `s` cut at every `sep`.
pub fn split_at_char(s: &str, sep: char) -> (r: Vec<String>)
    ensures
        texts(r@) == pieces(s@, sep),
{
    let v = chars_of(s);
    let mut r: Vec<String> = Vec::new();
    let mut cur = String::new();
    let mut i: usize = 0;
    proof {
        assert(texts(r@).push(cur@) =~= pieces(v@.take(0), sep));
    }
    while i < v.len()
        invariant
            i <= v@.len(),
            texts(r@).push(cur@) == pieces(v@.take(i as int), sep),
        decreases v@.len() - i,
    {
        let ghost before = texts(r@).push(cur@);
        let ghost old_r = r@;
        proof {
            assert(v@.take(i + 1).drop_last() =~= v@.take(i as int));
            assert(before.drop_last() =~= texts(old_r));
        }
        if v[i] == sep {
            r.push(cur);
            cur = String::new();
            proof {
                assert(texts(r@) =~= before);
                assert(cur@ =~= Seq::<char>::empty());
            }
        } else {
            cur.push(v[i]);
        }
        i = i + 1;
    }
    let ghost before = texts(r@).push(cur@);
    r.push(cur);
    proof {
        assert(texts(r@) =~= before);
        assert(v@.take(v@.len() as int) =~= v@);
    }
    r
}

/// Whether `a` stands before `b` in the order of code points.
pub open spec fn before(a: Seq<char>, b: Seq<char>) -> bool
    decreases a.len(),
{
    if b.len() == 0 {
        false
    } else if a.len() == 0 {
        true
    } else if a[0] != b[0] {
        a[0] < b[0]
    } else {
        before(a.drop_first(), b.drop_first())
    }
}

/// Whether the text of `a` stands before that of `b`.
pub fn comes_before(a: &str, b: &str) -> (r: bool)
    ensures
        r == before(a@, b@),
{
    let x = chars_of(a);
    let y = chars_of(b);
    let mut i: usize = 0;
    assert(x@.skip(0) =~= x@ && y@.skip(0) =~= y@);
    while i < x.len() && i < y.len()
        invariant
            i <= x@.len(),
            i <= y@.len(),
            before(x@, y@) == before(x@.skip(i as int), y@.skip(i as int)),
            x@ == a@,
            y@ == b@,
        decreases x@.len() - i,
    {
        if x[i] != y[i] {
            return x[i] < y[i];
        }
        proof {
            assert(x@.skip(i as int).drop_first() =~= x@.skip(i + 1));
            assert(y@.skip(i as int).drop_first() =~= y@.skip(i + 1));
        }
        i = i + 1;
    }
    i < y.len()
}

/// A text does not stand before itself, and of two different texts exactly one stands before the
/// other.
pub proof fn before_is_strict(a: Seq<char>, b: Seq<char>)
    ensures
        !before(a, a),
        a != b ==> (before(a, b) <==> !before(b, a)),
    decreases a.len(),
{
    if a.len() > 0 {
        if b.len() > 0 {
            before_is_strict(a.drop_first(), b.drop_first());
            if a.drop_first() == b.drop_first() && a[0] == b[0] {
                assert(a =~= b) by {
                    assert forall|i: int| 0 <= i < a.len() implies a[i] == b[i] by {
                        if i > 0 {
                            assert(a.drop_first()[i - 1] == b.drop_first()[i - 1]);
                        }
                    }
                    assert(a.drop_first().len() == b.drop_first().len());
                }
            }
        } else {
            before_is_strict(a.drop_first(), b);
        }
    } else if b.len() == 0 {
        assert(a =~= b);
    }
}

/// The order is transitive.
pub proof fn before_is_transitive(a: Seq<char>, b: Seq<char>, c: Seq<char>)
    requires
        before(a, b),
        before(b, c),
    ensures
        before(a, c),
    decreases a.len(),
{
    if a.len() > 0 && a[0] == b[0] && b[0] == c[0] {
        before_is_transitive(a.drop_first(), b.drop_first(), c.drop_first());
    }
}

/// The places of the first `n` names in sorted order; equal names keep their order.
pub open spec fn sorted_places(names: Seq<Seq<char>>, n: nat) -> Seq<int>
    decreases n,
{
    if n == 0 {
        Seq::empty()
    } else {
        let rest = sorted_places(names, (n - 1) as nat);
        rest.insert(insertion_point(names, rest, names[n - 1]), n - 1)
    }
}

/// Behind how many of the sorted places a name belongs: behind the last that it does not precede.
pub open spec fn insertion_point(names: Seq<Seq<char>>, order: Seq<int>, name: Seq<char>) -> int
    decreases order.len(),
{
    if order.len() == 0 {
        0
    } else if before(name, names[order.last()]) {
        insertion_point(names, order.drop_last(), name)
    } else {
        order.len() as int
    }
}

proof fn insertion_point_bound(names: Seq<Seq<char>>, order: Seq<int>, name: Seq<char>)
    ensures
        0 <= insertion_point(names, order, name) <= order.len(),
    decreases order.len(),
{
    if order.len() > 0 {
        insertion_point_bound(names, order.drop_last(), name);
    }
}

/// The sorted places are as many as the names, and each is the place of a name.
pub proof fn sorted_places_bound(names: Seq<Seq<char>>, n: nat)
    requires
        n <= names.len(),
    ensures
        sorted_places(names, n).len() == n,
        forall|i: int| 0 <= i < n ==> 0 <= #[trigger] sorted_places(names, n)[i] < n,
    decreases n,
{
    if n > 0 {
        sorted_places_bound(names, (n - 1) as nat);
        let rest = sorted_places(names, (n - 1) as nat);
        insertion_point_bound(names, rest, names[n - 1]);
    }
}

/// The places of a list of names in sorted order.
pub fn sort_names(names: &Vec<String>) -> (r: Vec<usize>)
    ensures
        r@.len() == names@.len(),
        forall|i: int|
            0 <= i < r@.len() ==> #[trigger] r@[i] == sorted_places(texts(names@), names@.len())[i],
        forall|i: int| 0 <= i < r@.len() ==> #[trigger] r@[i] < names@.len(),
{
    let mut r: Vec<usize> = Vec::new();
    let ghost t = texts(names@);
    let mut n: usize = 0;
    while n < names.len()
        invariant
            n <= names@.len(),
            t == texts(names@),
            r@.len() == n,
            forall|i: int| 0 <= i < n ==> #[trigger] r@[i] == sorted_places(t, n as nat)[i],
            forall|i: int| 0 <= i < n ==> #[trigger] r@[i] < n,
        decreases names@.len() - n,
    {
        let ghost rest = sorted_places(t, n as nat);
        proof {
            sorted_places_bound(t, n as nat);
        }
        let mut p: usize = n;
        assert(rest.take(n as int) =~= rest);
        while p > 0 && comes_before(names[n].as_str(), names[r[p - 1]].as_str())
            invariant
                p <= n < names@.len(),
                r@.len() == n,
                rest.len() == n,
                t == texts(names@),
                forall|i: int| 0 <= i < n ==> #[trigger] r@[i] == rest[i],
                forall|i: int| 0 <= i < n ==> #[trigger] r@[i] < n,
                insertion_point(t, rest, t[n as int]) == insertion_point(
                    t,
                    rest.take(p as int),
                    t[n as int],
                ),
            decreases p,
        {
            proof {
                assert(rest.take(p as int).drop_last() =~= rest.take(p - 1));
            }
            p = p - 1;
        }
        proof {
            if p > 0 {
                assert(rest.take(p as int).last() == rest[p - 1]);
            }
        }
        r.insert(p, n);
        n = n + 1;
    }
    r
}

/// Whether `names` read in the order of the places never go down.
pub open spec fn in_order(names: Seq<Seq<char>>, order: Seq<int>) -> bool {
    forall|i: int, j: int|
        0 <= i < j < order.len() ==> !before(names[#[trigger] order[j]], names[#[trigger] order[i]])
}

/// The sorted places put the names in order, and each place occurs once.
pub proof fn sorted_places_are_sorted(names: Seq<Seq<char>>, n: nat)
    requires
        n <= names.len(),
    ensures
        in_order(names, sorted_places(names, n)),
        sorted_places(names, n).no_duplicates(),
    decreases n,
{
    if n > 0 {
        sorted_places_are_sorted(names, (n - 1) as nat);
        sorted_places_bound(names, (n - 1) as nat);
        let rest = sorted_places(names, (n - 1) as nat);
        let p = insertion_point(names, rest, names[n - 1]);
        insertion_point_bound(names, rest, names[n - 1]);
        insertion_point_splits(names, rest, names[n - 1]);
        let all = rest.insert(p, n - 1);
        assert forall|i: int, j: int| 0 <= i < j < all.len() implies !before(
            names[#[trigger] all[j]],
            names[#[trigger] all[i]],
        ) by {
            if i == p {
                assert(all[j] == rest[j - 1]);
                before_is_strict(names[n - 1], names[rest[j - 1]]);
            } else if j == p {
                assert(all[i] == rest[i]);
            } else {
                let a = if i < p {
                    i
                } else {
                    i - 1
                };
                let b = if j < p {
                    j
                } else {
                    j - 1
                };
                assert(all[i] == rest[a] && all[j] == rest[b]);
            }
        }
        assert forall|i: int, j: int| 0 <= i < all.len() && 0 <= j < all.len() && i != j implies all[i]
            != all[j] by {
            let a = if i < p {
                i
            } else {
                i - 1
            };
            let b = if j < p {
                j
            } else {
                j - 1
            };
            assert(i == p || all[i] == rest[a]);
            assert(j == p || all[j] == rest[b]);
        }
    }
}

/// All that stands before the insertion point does not come behind the name, all that stands after it
/// does.
proof fn insertion_point_splits(names: Seq<Seq<char>>, order: Seq<int>, name: Seq<char>)
    requires
        in_order(names, order),
    ensures
        forall|i: int|
            0 <= i < insertion_point(names, order, name) ==> !before(name, names[#[trigger] order[i]]),
        forall|i: int|
            insertion_point(names, order, name) <= i < order.len() ==> before(
                name,
                names[#[trigger] order[i]],
            ),
    decreases order.len(),
{
    insertion_point_bound(names, order, name);
    if order.len() > 0 {
        let init = order.drop_last();
        assert forall|i: int, j: int| 0 <= i < j < init.len() implies !before(
            names[#[trigger] init[j]],
            names[#[trigger] init[i]],
        ) by {
            assert(init[i] == order[i] && init[j] == order[j]);
        }
        insertion_point_splits(names, init, name);
        if before(name, names[order.last()]) {
            assert forall|i: int|
                0 <= i < insertion_point(names, order, name) implies !before(
                name,
                names[#[trigger] order[i]],
            ) by {
                insertion_point_bound(names, init, name);
                assert(init[i] == order[i]);
            }
            assert forall|i: int|
                insertion_point(names, order, name) <= i < order.len() implies before(
                name,
                names[#[trigger] order[i]],
            ) by {
                if i < order.len() - 1 {
                    assert(init[i] == order[i]);
                }
            }
        } else {
            assert forall|i: int|
                0 <= i < insertion_point(names, order, name) implies !before(
                name,
                names[#[trigger] order[i]],
            ) by {
                if before(name, names[order[i]]) {
                    let l = order.len() - 1;
                    if i < l {
                        assert(!before(names[order[l]], names[order[i]]));
                        before_is_strict(names[order[i]], names[order[l]]);
                        if names[order[i]] != names[order[l]] {
                            before_is_transitive(name, names[order[i]], names[order[l]]);
                        }
                    }
                }
            }
        }
    }
}

} // verus!
