//! What the operations on texts, floats, words and hashes mean.
use crate::bytes::{half_at, le16, le32, word_at};
use crate::compose::spaced;
use crate::f32bits::{float, F32};
use crate::hash::fnv;
use crate::text::{
    ascii_lower, ascii_lowered, before, begins, ends, hex_digit, hex_digits, holds_text, in_order,
    insertion_point, occurs_at, pieces, pieces_not_empty, sorted_places, sorted_places_are_sorted,
    sorted_places_bound, trimmed, trimmed_end, trimmed_start, white_space,
};
use vstd::prelude::*;

verus! {

/// Whether a text is all white space.
pub open spec fn blank(s: Seq<char>) -> bool {
    forall|i: int| 0 <= i < s.len() ==> white_space(#[trigger] s[i])
}

proof fn start_is_cut(s: Seq<char>) -> (k: int)
    ensures
        0 <= k <= s.len(),
        trimmed_start(s) == s.skip(k),
        blank(s.take(k)),
        k < s.len() ==> !white_space(s[k]),
    decreases s.len(),
{
    if s.len() > 0 && white_space(s[0]) {
        let rest = s.drop_first();
        let k = start_is_cut(rest);
        assert(rest.skip(k) =~= s.skip(k + 1));
        assert forall|i: int| 0 <= i < k + 1 implies white_space(#[trigger] s.take(k + 1)[i]) by {
            if i > 0 {
                assert(rest.take(k)[i - 1] == s[i]);
            }
        }
        k + 1
    } else {
        assert(s.skip(0) =~= s);
        0
    }
}

proof fn end_is_cut(s: Seq<char>) -> (k: int)
    ensures
        0 <= k <= s.len(),
        trimmed_end(s) == s.take(k),
        blank(s.skip(k)),
        k > 0 ==> !white_space(s[k - 1]),
    decreases s.len(),
{
    if s.len() > 0 && white_space(s.last()) {
        let rest = s.drop_last();
        let k = end_is_cut(rest);
        assert(rest.take(k) =~= s.take(k));
        assert forall|i: int| 0 <= i < s.len() - k implies white_space(#[trigger] s.skip(k)[i]) by {
            if i < rest.len() - k {
                assert(rest.skip(k)[i] == s[k + i]);
            }
        }
        k
    } else {
        assert(s.take(s.len() as int) =~= s);
        s.len() as int
    }
}

/// Trimming cuts white space off both ends and nothing else: what is left neither begins nor ends with
/// any.
pub proof fn only_white_space_is_trimmed(s: Seq<char>)
    ensures
        trimmed(s).len() > 0 ==> !white_space(trimmed(s)[0]) && !white_space(trimmed(s).last()),
        exists|a: int, b: int|
            0 <= a <= b <= s.len() && trimmed(s) == #[trigger] s.subrange(a, b) && blank(s.take(a)) && blank(s.skip(b)),
        blank(s) ==> trimmed(s).len() == 0,
{
    let a = start_is_cut(s);
    let t = s.skip(a);
    let k = end_is_cut(t);
    assert(trimmed(s) =~= s.subrange(a, a + k));
    assert(t.skip(k) =~= s.skip(a + k));
    if trimmed(s).len() > 0 {
        assert(trimmed(s)[0] == s[a]);
        assert(trimmed(s).last() == t[k - 1]);
    }
    if blank(s) && trimmed(s).len() > 0 {
        assert(white_space(s[a]));
    }
}

/// White space is what Unicode has as such: tabs and line ends, the spaces and the separators.
pub proof fn white_space_is_that_of_unicode(c: char)
    ensures
        white_space(c) <==> {
            ||| c == '\t' || c == '\n' || c as u32 == 0x0b || c as u32 == 0x0c || c == '\r' || c == ' '
            ||| c as u32 == 0x85 || c as u32 == 0xa0 || c as u32 == 0x1680
            ||| 0x2000 <= c as u32 && c as u32 <= 0x200a
            ||| c as u32 == 0x2028 || c as u32 == 0x2029 || c as u32 == 0x202f || c as u32 == 0x205f || c as u32
                == 0x3000
        },
{
}

/// Lowering turns each capital letter from A to Z into the small one, 32 places on, and leaves all else;
/// lowering twice is lowering once.
pub proof fn capitals_are_lowered(s: Seq<char>, i: int)
    requires
        0 <= i < s.len(),
    ensures
        ascii_lowered(s).len() == s.len(),
        65 <= s[i] as u32 && s[i] as u32 <= 90 ==> ascii_lowered(s)[i] as u32 == s[i] as u32 + 32,
        !(65 <= s[i] as u32 && s[i] as u32 <= 90) ==> ascii_lowered(s)[i] == s[i],
        ascii_lowered(ascii_lowered(s)) == ascii_lowered(s),
{
    assert forall|j: int| 0 <= j < s.len() implies ascii_lower(#[trigger] ascii_lowered(s)[j]) == ascii_lowered(s)[j] by {
        let c = s[j];
        if 'A' <= c && c <= 'Z' {
            assert(ascii_lower(c) as u32 == c as u32 + 32);
        }
    }
    assert(ascii_lowered(ascii_lowered(s)) =~= ascii_lowered(s));
}

/// The pieces of a text with their separators between them are the text again.
pub open spec fn rejoined(v: Seq<Seq<char>>, sep: char) -> Seq<char>
    decreases v.len(),
{
    if v.len() == 0 {
        Seq::empty()
    } else if v.len() == 1 {
        v[0]
    } else {
        rejoined(v.drop_last(), sep).push(sep) + v.last()
    }
}

/// Cutting a text at a separator loses nothing, and no piece holds the separator.
pub proof fn pieces_rejoin_to_the_text(s: Seq<char>, sep: char)
    ensures
        rejoined(pieces(s, sep), sep) == s,
        forall|i: int| 0 <= i < pieces(s, sep).len() ==> !(#[trigger] pieces(s, sep)[i]).contains(sep),
    decreases s.len(),
{
    let p = pieces(s, sep);
    if s.len() > 0 {
        let d = s.drop_last();
        let rest = pieces(d, sep);
        pieces_rejoin_to_the_text(d, sep);
        pieces_not_empty(d, sep);
        if s.last() == sep {
            assert(p.drop_last() =~= rest);
            assert(rejoined(p, sep) =~= s);
            assert forall|i: int| 0 <= i < p.len() implies !(#[trigger] p[i]).contains(sep) by {
                if i < rest.len() {
                    assert(p[i] == rest[i]);
                }
            }
        } else {
            let last = rest.last().push(s.last());
            assert(p.last() == last);
            assert(p.drop_last() =~= rest.drop_last());
            if rest.len() == 1 {
                assert(rejoined(rest, sep) == rest[0]);
                assert(p[0] == last);
                assert(rejoined(p, sep) =~= s);
            } else {
                let head = rejoined(rest.drop_last(), sep).push(sep);
                assert(rejoined(rest, sep) == head + rest.last());
                assert(p.len() == rest.len());
                assert(rejoined(p, sep) == head + last);
                assert(head + last =~= (head + rest.last()).push(s.last()));
                assert(s =~= d.push(s.last()));
            }
            assert forall|i: int| 0 <= i < p.len() implies !(#[trigger] p[i]).contains(sep) by {
                if i < rest.len() - 1 {
                    assert(p[i] == rest[i]);
                } else {
                    assert(!rest[rest.len() - 1].contains(sep));
                    assert(p[i] == last);
                    if last.contains(sep) {
                        let j = choose|j: int| 0 <= j < last.len() && last[j] == sep;
                        assert(rest.last()[j] == sep);
                    }
                }
            }
        }
    } else {
        assert(rejoined(p, sep) =~= s);
    }
}

/// A text comes before another where it is a beginning of it, or where it has the lower character at
/// the first place at which they differ.
pub proof fn texts_are_ordered_by_their_first_difference(a: Seq<char>, b: Seq<char>, k: int)
    requires
        0 <= k <= a.len(),
        k <= b.len(),
        a.take(k) == b.take(k),
    ensures
        k == a.len() && k < b.len() ==> before(a, b),
        k < a.len() && k == b.len() ==> !before(a, b),
        k < a.len() && k < b.len() && a[k] != b[k] ==> (before(a, b) <==> a[k] < b[k]),
    decreases k,
{
    if k > 0 {
        assert(a.take(k)[0] == a[0] && b.take(k)[0] == b[0]);
        let (x, y) = (a.drop_first(), b.drop_first());
        assert(x.take(k - 1) =~= a.take(k).drop_first());
        assert(y.take(k - 1) =~= b.take(k).drop_first());
        assert(x.take(k - 1) == y.take(k - 1));
        texts_are_ordered_by_their_first_difference(x, y, k - 1);
        assert(before(a, b) == before(x, y));
        assert(k < a.len() ==> x[k - 1] == a[k]);
        assert(k < b.len() ==> y[k - 1] == b[k]);
    }
}

proof fn equal_names_stay(names: Seq<Seq<char>>, n: nat, i: int, j: int)
    requires
        n <= names.len(),
        0 <= i < j < n,
        names[sorted_places(names, n)[i]] == names[sorted_places(names, n)[j]],
    ensures
        sorted_places(names, n)[i] < sorted_places(names, n)[j],
    decreases n,
{
    let rest = sorted_places(names, (n - 1) as nat);
    let all = sorted_places(names, n);
    let p = insertion_point(names, rest, names[n - 1]);
    sorted_places_bound(names, (n - 1) as nat);
    sorted_places_bound(names, n);
    sorted_places_are_sorted(names, (n - 1) as nat);
    place_behind_equals(names, rest, names[n - 1]);
    if i == p {
        assert(all[j] == rest[j - 1]);
        crate::text::before_is_strict(names[n - 1], names[n - 1]);
        assert(before(names[n - 1], names[rest[j - 1]]));
    } else if j == p {
        assert(all[i] == rest[i]);
    } else {
        let (a, b) = (
            if i < p {
                i
            } else {
                i - 1
            },
            if j < p {
                j
            } else {
                j - 1
            },
        );
        assert(all[i] == rest[a] && all[j] == rest[b]);
        equal_names_stay(names, (n - 1) as nat, a, b);
    }
}

proof fn place_behind_equals(names: Seq<Seq<char>>, order: Seq<int>, name: Seq<char>)
    requires
        in_order(names, order),
    ensures
        0 <= insertion_point(names, order, name) <= order.len(),
        forall|i: int|
            insertion_point(names, order, name) <= i < order.len() ==> before(name, names[#[trigger] order[i]]),
    decreases order.len(),
{
    if order.len() > 0 && before(name, names[order.last()]) {
        let p = order.drop_last();
        assert forall|i: int, j: int| 0 <= i < j < p.len() implies !before(
            names[#[trigger] p[j]],
            names[#[trigger] p[i]],
        ) by {
            assert(p[i] == order[i] && p[j] == order[j]);
        }
        place_behind_equals(names, p, name);
        assert forall|i: int| insertion_point(names, order, name) <= i < order.len() implies before(
            name,
            names[#[trigger] order[i]],
        ) by {
            if i < p.len() {
                assert(p[i] == order[i]);
            }
        }
    }
}

/// Sorting names gives each place once, the names in order, and of equal names the earlier place
/// first.
pub proof fn equal_names_keep_their_order(names: Seq<Seq<char>>)
    ensures
        ({
            let o = sorted_places(names, names.len());
            &&& o.len() == names.len()
            &&& o.no_duplicates()
            &&& forall|i: int| 0 <= i < o.len() ==> 0 <= #[trigger] o[i] < names.len()
            &&& forall|i: int, j: int|
                0 <= i < j < o.len() ==> before(names[#[trigger] o[i]], names[#[trigger] o[j]]) || names[o[i]]
                    == names[o[j]] && o[i] < o[j]
        }),
{
    let o = sorted_places(names, names.len());
    sorted_places_bound(names, names.len());
    sorted_places_are_sorted(names, names.len());
    assert forall|i: int, j: int| 0 <= i < j < o.len() implies before(
        names[#[trigger] o[i]],
        names[#[trigger] o[j]],
    ) || names[o[i]] == names[o[j]] && o[i] < o[j] by {
        crate::text::before_is_strict(names[o[i]], names[o[j]]);
        if names[o[i]] == names[o[j]] {
            equal_names_stay(names, names.len(), i, j);
        }
    }
}

/// A text holds another where it stands between two others; it begins and ends with what stands first
/// and last.
pub proof fn texts_hold_what_stands_in_them(a: Seq<char>, n: Seq<char>, b: Seq<char>)
    ensures
        holds_text(a + n + b, n),
        occurs_at(a + n + b, n, a.len() as int),
        begins(n + b, n),
        ends(a + n, n),
{
    let k = a.len() as int;
    assert((a + n + b).subrange(k, k + n.len()) =~= n);
    assert(occurs_at(a + n + b, n, k));
    assert((n + b).subrange(0, n.len() as int) =~= n);
    assert((a + n).subrange(k, k + n.len()) =~= n);
}

/// The value of a hexadecimal digit.
pub open spec fn hex_value(c: char) -> int {
    if '0' <= c <= '9' {
        c as u32 - 48
    } else {
        c as u32 - 87
    }
}

/// Hexadecimal digits are the rest of the number by 16 at their place, counted from the end, in small
/// letters.
pub proof fn hexadecimal_digits_have_their_place(n: nat, k: nat)
    ensures
        hex_digits(n, k).len() == k,
        k > 0 ==> hex_value(hex_digits(n, k)[k - 1]) == n % 16 && hex_digits(n, k).drop_last() == hex_digits(
            n / 16,
            (k - 1) as nat,
        ),
        k > 0 ==> ('0' <= hex_digits(n, k)[k - 1] <= '9' || 'a' <= hex_digits(n, k)[k - 1] <= 'f'),
    decreases k,
{
    if k > 0 {
        hexadecimal_digits_have_their_place(n / 16, (k - 1) as nat);
        let d = n % 16;
        assert(hex_digits(n, k).drop_last() =~= hex_digits(n / 16, (k - 1) as nat));
        if d < 10 {
            assert(hex_digit(d) as u32 == 48 + d);
        } else {
            assert(hex_digit(d) as u32 == 87 + d);
        }
    }
}

/// Dashes become spaces, and nothing else changes.
pub proof fn only_dashes_become_spaces(s: Seq<char>, i: int)
    requires
        0 <= i < s.len(),
    ensures
        spaced(s).len() == s.len(),
        s[i] == '-' ==> spaced(s)[i] == ' ',
        s[i] != '-' ==> spaced(s)[i] == s[i],
        !spaced(s).contains('-'),
{
}

/// A word is written lowest byte first, and its bytes weigh 256 times as much from one to the next.
pub proof fn words_are_written_lowest_byte_first(x: u32, h: u16, s: Seq<u8>, k: int)
    requires
        0 <= k,
        k + 4 <= s.len(),
    ensures
        le32(x).len() == 4,
        le32(x)[0] + 256 * le32(x)[1] + 65536 * le32(x)[2] + 16777216 * le32(x)[3] == x,
        le16(h).len() == 2,
        le16(h)[0] + 256 * le16(h)[1] == h,
        word_at(s, k) == s[k] + 256 * s[k + 1] + 65536 * s[k + 2] + 16777216 * s[k + 3],
        half_at(s, k) == s[k] + 256 * s[k + 1],
{
    let y = x as int;
    assert(y == y % 256 + 256 * ((y / 256) % 256) + 65536 * ((y / 65536) % 256) + 16777216 * (y / 16777216));
    assert(y / 16777216 < 256);
}

/// Floats of one sign are ordered as their bits, those below zero the other way round; both zeros are
/// equal, and nothing is compared with what is not a number.
pub proof fn floats_are_ordered_by_their_bits(a: F32, b: F32)
    ensures
        a.bits < 0x7f80_0001 && b.bits < 0x7f80_0001 ==> (a.lt(b) <==> a.bits < b.bits) && (a.le(b) <==> a.bits
            <= b.bits) && (a.eq(b) <==> a.bits == b.bits),
        0x8000_0000 <= a.bits < 0xff80_0001 && 0x8000_0000 <= b.bits < 0xff80_0001 ==> (a.lt(b) <==> a.bits > b.bits),
        0x8000_0000 < a.bits < 0xff80_0001 && b.bits < 0x7f80_0001 ==> a.lt(b) && !b.lt(a),
        float(0).eq(float(0x8000_0000)),
        a.nan() ==> !a.lt(b) && !b.lt(a) && !a.le(b) && !a.eq(b),
        a.nan() <==> (0x7f80_0000 < a.bits < 0x8000_0000 || a.bits > 0xff80_0000),
        a.finite() <==> (a.bits < 0x7f80_0000 || 0x8000_0000 <= a.bits < 0xff80_0000),
{
}

/// The larger of two numbers is one of them and not below either; a float that is kept between two
/// bounds is one of the three and not outside them.
pub proof fn larger_and_kept_floats_are_bounded(a: F32, b: F32, lo: F32, hi: F32)
    requires
        lo.le(hi),
    ensures
        a.larger(b) == a || a.larger(b) == b,
        !a.nan() && !b.nan() ==> a.le(a.larger(b)) && b.le(a.larger(b)),
        a.nan() ==> a.larger(b) == b,
        b.nan() && !a.nan() ==> a.larger(b) == a,
        !a.nan() ==> lo.le(a.kept_between(lo, hi)) && a.kept_between(lo, hi).le(hi),
        lo.le(a) && a.le(hi) ==> a.kept_between(lo, hi) == a,
        a.lt(lo) ==> a.kept_between(lo, hi) == lo,
        hi.lt(a) ==> a.kept_between(lo, hi) == hi,
        a.nan() ==> a.kept_between(lo, hi) == a,
{
}

/// In the total order every float has a place of its own; numbers stand as they are ordered, and the
/// negative zero below the positive one.
pub proof fn the_total_order_extends_that_of_numbers(a: F32, b: F32)
    ensures
        a.lt(b) ==> a.total_rank() < b.total_rank(),
        a != b ==> a.total_rank() != b.total_rank(),
        float(0x8000_0000).total_rank() < float(0).total_rank(),
        a.nan() && a.bits < 0x8000_0000 && !b.nan() ==> b.total_rank() < a.total_rank(),
{
}

/// The hash begins with the FNV offset; each byte is mixed in and the whole multiplied by the FNV prime,
/// modulo 2 to the 64.
pub proof fn bytes_are_mixed_in_one_by_one(a: Seq<u8>, b: u8)
    ensures
        fnv(Seq::empty()) == 0xcbf2_9ce4_8422_2325,
        fnv(a.push(b)) as int == ((fnv(a) ^ (b as u64)) * 0x100_0000_01b3) % 0x1_0000_0000_0000_0000,
{
    assert(a.push(b).drop_last() =~= a);
}

} // verus!
