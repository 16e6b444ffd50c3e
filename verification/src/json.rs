//! Parsed JSON as the library reads it. Numbers are held as 32-bit floats; those that are written as
//! whole numbers are held as such too.
use crate::f32bits::F32;
use crate::text::same;
use vstd::prelude::*;

verus! {

/// A number: its value, and the whole number that it was written as, where it was one.
#[derive(Clone, Copy, Debug, PartialEq, Eq, Structural)]
pub struct Number {
    pub value: F32,
    /// None for a number with a sign, a fraction or an exponent, or beyond 64 bits.
    pub whole: Option<u64>,
}

/// A JSON value.
pub enum Json {
    Null,
    Bool(bool),
    Num(Number),
    Str(String),
    Arr(Vec<Json>),
    /// The members in the order in which they stand.
    Obj(Vec<Member>),
}

/// One member of an object.
pub struct Member {
    pub key: String,
    pub value: Json,
}

/// The position of the last member among the first `n` with the given key, if any: a later member
/// takes the place of an earlier one.
pub open spec fn member_at(members: Seq<Member>, key: Seq<char>, n: nat) -> Option<int>
    decreases n,
{
    if n == 0 {
        None
    } else if members[n - 1].key@ == key {
        Some(n - 1)
    } else {
        member_at(members, key, (n - 1) as nat)
    }
}

/// An optional value behind a reference.
pub open spec fn target(r: Option<&Json>) -> Option<Json> {
    match r {
        Some(j) => Some(*j),
        None => None,
    }
}

/// Item `i` of an optional array where it is a number, else `d`.
pub open spec fn number_or(j: Option<Json>, i: int, d: F32) -> F32 {
    match j {
        Some(Json::Arr(a)) => match a@[i] {
            Json::Num(x) => if i < a@.len() {
                x.value
            } else {
                d
            },
            _ => d,
        },
        _ => d,
    }
}

/// Item `i` of an optional array where it is a number, else `d`.
pub fn number_at(j: Option<&Json>, i: usize, d: F32) -> (r: F32)
    ensures
        r == number_or(target(j), i as int, d),
{
    match j {
        Some(v) => match v {
            Json::Arr(a) => if i < a.len() {
                match &a[i] {
                    Json::Num(x) => x.value,
                    _ => d,
                }
            } else {
                d
            },
            _ => d,
        },
        None => d,
    }
}

impl Json {
    /// The member of an object with the given key.
    pub open spec fn field(self, key: Seq<char>) -> Option<Json> {
        match self {
            Json::Obj(m) => match member_at(m@, key, m@.len()) {
                Some(i) => Some(m@[i].value),
                None => None,
            },
            _ => None,
        }
    }

    /// The items of an array.
    pub open spec fn items(self) -> Option<Seq<Json>> {
        match self {
            Json::Arr(v) => Some(v@),
            _ => None,
        }
    }

    /// The value of a number.
    pub open spec fn num(self) -> Option<F32> {
        match self {
            Json::Num(x) => Some(x.value),
            _ => None,
        }
    }

    /// The whole number that a number is written as.
    pub open spec fn whole(self) -> Option<u64> {
        match self {
            Json::Num(x) => x.whole,
            _ => None,
        }
    }

    /// The text of a string.
    pub open spec fn text(self) -> Option<Seq<char>> {
        match self {
            Json::Str(s) => Some(s@),
            _ => None,
        }
    }

    /// The member of an object with the given key.
    pub fn get(&self, key: &str) -> (r: Option<&Json>)
        ensures
            target(r) == self.field(key@),
    {
        match self {
            Json::Obj(m) => {
                let mut i: usize = m.len();
                while i > 0
                    invariant
                        i <= m@.len(),
                        *self == Json::Obj(*m),
                        member_at(m@, key@, m@.len()) == member_at(m@, key@, i as nat),
                    decreases i,
                {
                    if same(m[i - 1].key.as_str(), key) {
                        return Some(&m[i - 1].value);
                    }
                    i = i - 1;
                }
                None
            },
            _ => None,
        }
    }

    /// The items of an array.
    pub fn as_array(&self) -> (r: Option<&Vec<Json>>)
        ensures
            match r {
                Some(v) => self.items() == Some(v@),
                None => self.items() is None,
            },
    {
        match self {
            Json::Arr(v) => Some(v),
            _ => None,
        }
    }

    /// The value of a number.
    pub fn as_num(&self) -> (r: Option<F32>)
        ensures
            r == self.num(),
    {
        match self {
            Json::Num(x) => Some(x.value),
            _ => None,
        }
    }

    /// The whole number that a number is written as.
    pub fn as_whole(&self) -> (r: Option<u64>)
        ensures
            r == self.whole(),
    {
        match self {
            Json::Num(x) => x.whole,
            _ => None,
        }
    }

    /// The text of a string.
    pub fn as_text(&self) -> (r: Option<&str>)
        ensures
            match r {
                Some(s) => self.text() == Some(s@),
                None => self.text() is None,
            },
    {
        match self {
            Json::Str(s) => Some(s.as_str()),
            _ => None,
        }
    }
}

} // verus!
