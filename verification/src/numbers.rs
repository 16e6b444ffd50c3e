//! Whole numbers read from text.
use vstd::prelude::*;
use crate::text::chars_of;

verus! {

/// Whether `c` is a decimal digit.
pub open spec fn decimal_digit(c: char) -> bool {
    48 <= c as u32 <= 57
}

/// The number that a run of digits stands for; none where some character is no digit.
pub open spec fn digits_value(s: Seq<char>) -> Option<nat>
    decreases s.len(),
{
    if s.len() == 0 {
        Some(0nat)
    } else {
        match digits_value(s.drop_last()) {
            Some(v) if decimal_digit(s.last()) => Some((v * 10 + (s.last() as u32 - 48)) as nat),
            _ => None,
        }
    }
}

/// The number that a text without a minus stands for: a plus or nothing, then at least one digit.
pub open spec fn unsigned_value(s: Seq<char>) -> Option<nat> {
    let t = if s.len() > 0 && s[0] == '+' {
        s.drop_first()
    } else {
        s
    };
    if t.len() == 0 {
        None
    } else {
        digits_value(t)
    }
}

/// The number that a text stands for: a sign or nothing, then at least one digit.
pub open spec fn signed_value(s: Seq<char>) -> Option<int> {
    if s.len() > 0 && s[0] == '-' {
        if s.len() == 1 {
            None
        } else {
            match digits_value(s.drop_first()) {
                Some(v) => Some(-(v as int)),
                None => None,
            }
        }
    } else {
        match unsigned_value(s) {
            Some(v) => Some(v as int),
            None => None,
        }
    }
}

/// Beyond this all values are read alike: as too large.
pub const TOO_LARGE: u128 = 0x1_0000_0000_0000_0000;

/// The value of the digits `v[from..]`, at most [`TOO_LARGE`]; none where one is no digit or where
/// there is none.
fn read_digits(v: &Vec<char>, from: usize) -> (r: Option<u128>)
    requires
        from <= v@.len(),
    ensures
        match r {
            Some(n) => from < v@.len() && digits_value(v@.skip(from as int)) is Some && n == (if digits_value(
                v@.skip(from as int),
            )->0 < TOO_LARGE {
                digits_value(v@.skip(from as int))->0 as int
            } else {
                TOO_LARGE as int
            }),
            None => from == v@.len() || digits_value(v@.skip(from as int)) is None,
        },
{
    let n: usize = v.len();
    if from == n {
        return None;
    }
    let mut i: usize = from;
    let mut acc: u128 = 0;
    let ghost all = v@.skip(from as int);
    while i < n
        invariant
            from <= i <= n,
            from < n,
            n == v@.len(),
            all == v@.skip(from as int),
            digits_value(all.take(i - from)) is Some,
            acc <= TOO_LARGE,
            acc == (if digits_value(all.take(i - from))->0 < TOO_LARGE {
                digits_value(all.take(i - from))->0 as int
            } else {
                TOO_LARGE as int
            }),
        decreases n - i,
    {
        let u: u32 = v[i] as u32;
        let ghost t = all.take(i + 1 - from);
        proof {
            assert(t.drop_last() =~= all.take(i - from));
            assert(t.last() == v@[i as int]);
        }
        if u < 48 || u > 57 {
            proof {
                assert(digits_value(t) is None);
                prefix_without_value(all, i + 1 - from);
            }
            return None;
        }
        acc = acc * 10 + (u - 48) as u128;
        if acc > TOO_LARGE {
            acc = TOO_LARGE;
        }
        i = i + 1;
    }
    proof {
        assert(all.take(n - from) =~= all);
    }
    Some(acc)
}

/// Digits behind something that has no value give no value.
proof fn prefix_without_value(s: Seq<char>, k: int)
    requires
        0 <= k <= s.len(),
        digits_value(s.take(k)) is None,
    ensures
        digits_value(s) is None,
    decreases s.len(),
{
    if k == s.len() {
        assert(s.take(k) =~= s);
    } else {
        assert(s.drop_last().take(k) =~= s.take(k));
        prefix_without_value(s.drop_last(), k);
    }
}

/// Read a number that is not negative.
pub fn parse_unsigned(s: &str) -> (r: Option<u64>)
    ensures
        r == (match unsigned_value(s@) {
            Some(v) => if v <= u64::MAX {
                Some(v as u64)
            } else {
                None
            },
            None => None,
        }),
{
    let v = chars_of(s);
    let from: usize = if v.len() > 0 && v[0] == '+' {
        1
    } else {
        0
    };
    proof {
        assert(v@.skip(0) =~= v@);
        assert(v@.len() > 0 ==> v@.skip(1) =~= v@.drop_first());
    }
    match read_digits(&v, from) {
        Some(n) => if n < TOO_LARGE {
            Some(n as u64)
        } else {
            None
        },
        None => None,
    }
}

/// Read a number of 32 bits with a sign.
pub fn parse_i32(s: &str) -> (r: Option<i32>)
    ensures
        r == (match signed_value(s@) {
            Some(v) => if i32::MIN <= v <= i32::MAX {
                Some(v as i32)
            } else {
                None
            },
            None => None,
        }),
{
    let v = chars_of(s);
    let from: usize = if v.len() > 0 && (v[0] == '+' || v[0] == '-') {
        1
    } else {
        0
    };
    proof {
        assert(v@.skip(0) =~= v@);
        assert(v@.len() > 0 ==> v@.skip(1) =~= v@.drop_first());
    }
    match read_digits(&v, from) {
        Some(n) => {
            if v[0] == '-' {
                if n <= 0x8000_0000 {
                    Some((-(n as i64)) as i32)
                } else {
                    None
                }
            } else if n <= 0x7fff_ffff {
                Some(n as i32)
            } else {
                None
            }
        },
        None => None,
    }
}

} // verus!
