//! Which textures the bounce needs, and which material each entry of its tables comes from.
use vstd::prelude::*;
use crate::compose::maybe_text;
use crate::gpu::paths::{with_path, PathTable};
use crate::text::texts;

verus! {

/// A material, as far as the bounce looks at it.
#[derive(Debug)]
pub struct BounceMaterial {
    pub id: u32,
    pub albedo: Option<String>,
    /// Whether it glows.
    pub emissive: bool,
    /// The texture of its glow.
    pub emissive_texture: Option<String>,
}

/// The texture of a material's glow, where it glows.
pub open spec fn glow_texture(m: BounceMaterial) -> Option<Seq<char>> {
    if m.emissive {
        maybe_text(m.emissive_texture)
    } else {
        None
    }
}

/// The textures that the first `n` materials need, each once.
pub open spec fn wanted(mats: Seq<BounceMaterial>, n: nat) -> Seq<Seq<char>>
    decreases n,
{
    if n == 0 {
        seq![]
    } else {
        let m = mats[n - 1];
        with_path(
            with_path(wanted(mats, (n - 1) as nat), maybe_text(m.albedo)),
            glow_texture(m),
        )
    }
}

/// The textures that the materials need, each once.
pub fn wanted_textures(mats: &Vec<BounceMaterial>) -> (r: Vec<String>)
    requires
        mats@.len() < 0x7fff_ffff,
    ensures
        texts(r@) == wanted(mats@, mats@.len()),
{
    let mut t = PathTable::new();
    let n: usize = mats.len();
    let mut i: usize = 0;
    while i < n
        invariant
            i <= n,
            n == mats@.len(),
            n < 0x7fff_ffff,
            t@ == wanted(mats@, i as nat),
            t@.len() <= 2 * i,
        decreases n - i,
    {
        let m = &mats[i];
        if let Some(a) = &m.albedo {
            t.intern(a.as_str());
        }
        if m.emissive {
            if let Some(e) = &m.emissive_texture {
                t.intern(e.as_str());
            }
        }
        i = i + 1;
    }
    t.paths
}

/// The largest id among the first `n` materials; 0 where there are none.
pub open spec fn largest_id(mats: Seq<BounceMaterial>, n: nat) -> u32
    decreases n,
{
    if n == 0 {
        0
    } else {
        let rest = largest_id(mats, (n - 1) as nat);
        if mats[n - 1].id > rest {
            mats[n - 1].id
        } else {
            rest
        }
    }
}

/// The last of the first `n` materials with an id, among all or among those that glow.
pub open spec fn last_with(mats: Seq<BounceMaterial>, id: int, glowing: bool, n: nat) -> Option<int>
    decreases n,
{
    if n == 0 {
        None
    } else if mats[n - 1].id == id && (!glowing || mats[n - 1].emissive) {
        Some(n - 1)
    } else {
        last_with(mats, id, glowing, (n - 1) as nat)
    }
}

/// Which material an entry of the tables comes from: the albedo from the last one with its id, the
/// glow from the last one with its id that glows. An entry without a material is neutral.
#[derive(Clone, Copy, Debug, PartialEq, Eq, Structural)]
pub struct LutEntry {
    pub albedo: Option<usize>,
    pub glow: Option<usize>,
}

/// The same place, as a mathematical number.
pub open spec fn place_of(v: Option<usize>) -> Option<int> {
    match v {
        Some(k) => Some(k as int),
        None => None,
    }
}

fn find_largest_id(mats: &Vec<BounceMaterial>) -> (r: u32)
    ensures
        r == largest_id(mats@, mats@.len()),
{
    let n: usize = mats.len();
    let mut r: u32 = 0;
    let mut i: usize = 0;
    while i < n
        invariant
            i <= n,
            n == mats@.len(),
            r == largest_id(mats@, i as nat),
        decreases n - i,
    {
        if mats[i].id > r {
            r = mats[i].id;
        }
        i = i + 1;
    }
    r
}

/// Every id is at most the largest.
proof fn largest_id_bounds(mats: Seq<BounceMaterial>, n: nat, i: int)
    requires
        0 <= i < n <= mats.len(),
    ensures
        mats[i].id <= largest_id(mats, n),
    decreases n,
{
    if i < n - 1 {
        largest_id_bounds(mats, (n - 1) as nat, i);
    }
}

/// The entries of the tables, by material id.
pub fn build_material_luts(mats: &Vec<BounceMaterial>) -> (r: Vec<LutEntry>)
    requires
        largest_id(mats@, mats@.len()) < usize::MAX,
    ensures
        r@.len() == largest_id(mats@, mats@.len()) + 1,
        forall|id: int|
            0 <= id < r@.len() ==> place_of((#[trigger] r@[id]).albedo) == last_with(
                mats@,
                id,
                false,
                mats@.len(),
            ) && place_of(r@[id].glow) == last_with(mats@, id, true, mats@.len()),
{
    let max_id: u32 = find_largest_id(mats);
    let len: usize = max_id as usize + 1;
    let mut r: Vec<LutEntry> = Vec::new();
    let mut k: usize = 0;
    while k < len
        invariant
            k <= len,
            r@.len() == k,
            forall|id: int| 0 <= id < k ==> (#[trigger] r@[id]) == (LutEntry { albedo: None, glow: None }),
        decreases len - k,
    {
        r.push(LutEntry { albedo: None, glow: None });
        k = k + 1;
    }
    let n: usize = mats.len();
    let mut i: usize = 0;
    while i < n
        invariant
            i <= n,
            n == mats@.len(),
            max_id == largest_id(mats@, mats@.len()),
            len == max_id + 1,
            r@.len() == len,
            forall|id: int|
                0 <= id < len ==> place_of((#[trigger] r@[id]).albedo) == last_with(
                    mats@,
                    id,
                    false,
                    i as nat,
                ) && place_of(r@[id].glow) == last_with(mats@, id, true, i as nat),
        decreases n - i,
    {
        proof {
            largest_id_bounds(mats@, mats@.len(), i as int);
        }
        let id: usize = mats[i].id as usize;
        let before: LutEntry = r[id];
        let entry = LutEntry {
            albedo: Some(i),
            glow: if mats[i].emissive {
                Some(i)
            } else {
                before.glow
            },
        };
        r.set(id, entry);
        i = i + 1;
    }
    r
}

} // verus!
