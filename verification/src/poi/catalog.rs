//! The keys of a map, each with the locks that it opens.
use vstd::prelude::*;
use crate::compose::is_blank;
use crate::gpu::materials::V3;
use crate::poi::records::{Key, Lock};
use crate::text::same;

verus! {

/// A key, and where the locks are that it opens.
#[derive(Debug)]
pub struct KeyUse {
    pub name: String,
    pub price: Option<i64>,
    pub card: bool,
    pub lock_positions: Vec<V3>,
}

/// The keys of the map, the most expensive first.
#[derive(Debug)]
pub struct KeyCatalog {
    pub keys: Vec<KeyUse>,
}

/// A key with its locks, as a value to speak of.
#[verifier::ext_equal]
pub struct UseView {
    pub name: Seq<char>,
    pub price: Option<i64>,
    pub card: bool,
    pub locks: Seq<V3>,
}

/// What a key with its locks stands for.
pub open spec fn use_view(u: KeyUse) -> UseView {
    UseView { name: u.name@, price: u.price, card: u.card, locks: u.lock_positions@ }
}

/// What a list of keys stands for.
pub open spec fn use_views(v: Seq<KeyUse>) -> Seq<UseView> {
    Seq::new(v.len(), |i: int| use_view(v[i]))
}

/// The price of a key.
pub open spec fn key_price(k: Key) -> Option<i64> {
    match k.pr {
        Some(p) => Some(p.roubles),
        None => None,
    }
}

/// Where the key of a name stands in a list; the length of the list where it does not.
pub open spec fn use_at(v: Seq<UseView>, name: Seq<char>) -> int
    decreases v.len(),
{
    if v.len() == 0 {
        0
    } else if v[0].name == name {
        0
    } else {
        1 + use_at(v.drop_first(), name)
    }
}

/// The list with one more lock for a key: a key that is there gets the lock, a new one comes last, and
/// a key without a name is passed over.
pub open spec fn with_lock(v: Seq<UseView>, k: Key, pos: V3) -> Seq<UseView> {
    let i = use_at(v, k.n@);
    if k.n@.len() == 0 {
        v
    } else if i < v.len() {
        v.update(i, UseView { locks: v[i].locks.push(pos), ..v[i] })
    } else {
        v.push(UseView { name: k.n@, price: key_price(k), card: k.card == 1, locks: seq![pos] })
    }
}

/// The list with the first `n` keys of a lock.
pub open spec fn with_keys(v: Seq<UseView>, keys: Seq<Key>, pos: V3, n: nat) -> Seq<UseView>
    decreases n,
{
    if n == 0 {
        v
    } else {
        with_lock(with_keys(v, keys, pos, (n - 1) as nat), keys[n - 1], pos)
    }
}

/// The keys of the first `n` locks.
pub open spec fn key_uses(locks: Seq<Lock>, n: nat) -> Seq<UseView>
    decreases n,
{
    if n == 0 {
        seq![]
    } else {
        let l = locks[n - 1];
        with_keys(key_uses(locks, (n - 1) as nat), l.keys@, l.pos, l.keys@.len())
    }
}

/// The price that a key is sorted by.
pub open spec fn sort_price(u: UseView) -> int {
    match u.price {
        Some(p) => p as int,
        None => 0,
    }
}

/// The list with a key put before all that are not more expensive.
pub open spec fn placed(u: UseView, v: Seq<UseView>) -> Seq<UseView>
    decreases v.len(),
{
    if v.len() == 0 {
        seq![u]
    } else if sort_price(v[0]) <= sort_price(u) {
        seq![u] + v
    } else {
        seq![v[0]] + placed(u, v.drop_first())
    }
}

/// The list by falling price; keys of one price keep their order.
pub open spec fn by_price(v: Seq<UseView>) -> Seq<UseView>
    decreases v.len(),
{
    if v.len() == 0 {
        seq![]
    } else {
        placed(v[0], by_price(v.drop_first()))
    }
}

/// The place that is found is in the list or just behind it.
proof fn use_at_bound(v: Seq<UseView>, name: Seq<char>)
    ensures
        0 <= use_at(v, name) <= v.len(),
        use_at(v, name) < v.len() ==> v[use_at(v, name)].name == name,
    decreases v.len(),
{
    if v.len() > 0 && v[0].name != name {
        use_at_bound(v.drop_first(), name);
    }
}

fn find_use(v: &Vec<KeyUse>, name: &str) -> (r: usize)
    ensures
        r == use_at(use_views(v@), name@),
        r <= v@.len(),
{
    let n: usize = v.len();
    let mut i: usize = 0;
    proof {
        assert(use_views(v@).skip(0) =~= use_views(v@));
    }
    while i < n
        invariant
            i <= n,
            n == v@.len(),
            use_at(use_views(v@), name@) == i + use_at(use_views(v@).skip(i as int), name@),
        decreases n - i,
    {
        let ghost t = use_views(v@).skip(i as int);
        proof {
            assert(t[0] == use_view(v@[i as int]));
            assert(t.drop_first() =~= use_views(v@).skip(i + 1));
        }
        if same(v[i].name.as_str(), name) {
            return i;
        }
        i = i + 1;
    }
    proof {
        assert(use_views(v@).skip(n as int).len() == 0);
    }
    n
}

fn add_lock(v: &mut Vec<KeyUse>, k: &Key, pos: V3)
    ensures
        use_views(final(v)@) == with_lock(use_views(old(v)@), *k, pos),
{
    let ghost before = v@;
    if is_blank(k.n.as_str()) {
        return;
    }
    let i: usize = find_use(v, k.n.as_str());
    if i < v.len() {
        let mut u = v.remove(i);
        u.lock_positions.push(pos);
        v.insert(i, u);
        proof {
            assert(use_views(v@) =~= with_lock(use_views(before), *k, pos));
        }
    } else {
        let mut lock_positions: Vec<V3> = Vec::new();
        lock_positions.push(pos);
        proof {
            assert(lock_positions@ =~= seq![pos]);
        }
        let price: Option<i64> = match &k.pr {
            Some(p) => Some(p.roubles),
            None => None,
        };
        v.push(KeyUse { name: k.n.as_str().to_owned(), price, card: k.card == 1, lock_positions });
        proof {
            assert(use_views(v@) =~= with_lock(use_views(before), *k, pos));
        }
    }
}

fn gather_keys(locks: &Vec<Lock>) -> (r: Vec<KeyUse>)
    ensures
        use_views(r@) == key_uses(locks@, locks@.len()),
{
    let mut r: Vec<KeyUse> = Vec::new();
    let n: usize = locks.len();
    let mut i: usize = 0;
    proof {
        assert(use_views(r@) =~= key_uses(locks@, 0));
    }
    while i < n
        invariant
            i <= n,
            n == locks@.len(),
            use_views(r@) == key_uses(locks@, i as nat),
        decreases n - i,
    {
        let l = &locks[i];
        let m: usize = l.keys.len();
        let mut j: usize = 0;
        while j < m
            invariant
                j <= m,
                m == l.keys@.len(),
                use_views(r@) == with_keys(key_uses(locks@, i as nat), l.keys@, l.pos, j as nat),
            decreases m - j,
        {
            add_lock(&mut r, &l.keys[j], l.pos);
            j = j + 1;
        }
        i = i + 1;
    }
    r
}

fn price_of(u: &KeyUse) -> (r: i64)
    ensures
        r == sort_price(use_view(*u)),
{
    match u.price {
        Some(p) => p,
        None => 0,
    }
}

fn place_use(v: &mut Vec<KeyUse>, u: KeyUse)
    ensures
        use_views(final(v)@) == placed(use_view(u), use_views(old(v)@)),
{
    let ghost all = use_views(v@);
    let ghost x = use_view(u);
    let p: i64 = price_of(&u);
    let n: usize = v.len();
    let mut i: usize = 0;
    proof {
        assert(all.skip(0) =~= all);
        assert(all.take(0) + placed(x, all.skip(0)) =~= placed(x, all));
    }
    while i < n && price_of(&v[i]) > p
        invariant
            i <= n,
            n == v@.len(),
            all == use_views(v@),
            p == sort_price(x),
            placed(x, all) == all.take(i as int) + placed(x, all.skip(i as int)),
        decreases n - i,
    {
        proof {
            let t = all.skip(i as int);
            assert(t[0] == use_view(v@[i as int]));
            assert(t.drop_first() =~= all.skip(i + 1));
            assert(all.take(i as int) + (seq![t[0]] + placed(x, t.drop_first())) =~= all.take(i + 1)
                + placed(x, all.skip(i + 1)));
        }
        i = i + 1;
    }
    proof {
        let t = all.skip(i as int);
        if i < n {
            assert(t[0] == use_view(v@[i as int]));
        }
        assert(placed(x, t) =~= seq![x] + t);
    }
    v.insert(i, u);
    proof {
        assert(use_views(v@) =~= all.take(i as int) + (seq![x] + all.skip(i as int)));
    }
}

/// The keys of the map's locks, the most expensive first.
pub fn key_catalog(locks: &Vec<Lock>) -> (r: KeyCatalog)
    ensures
        use_views(r.keys@) == by_price(key_uses(locks@, locks@.len())),
{
    let mut rest = gather_keys(locks);
    let ghost all = use_views(rest@);
    let mut keys: Vec<KeyUse> = Vec::new();
    proof {
        assert(all.skip(rest@.len() as int) =~= Seq::<UseView>::empty());
        assert(use_views(keys@) =~= by_price(all.skip(rest@.len() as int)));
        assert(all.take(rest@.len() as int) =~= all);
    }
    while rest.len() > 0
        invariant
            rest@.len() <= all.len(),
            use_views(rest@) == all.take(rest@.len() as int),
            use_views(keys@) == by_price(all.skip(rest@.len() as int)),
        decreases rest@.len(),
    {
        let ghost k = rest@.len() as int;
        let ghost before = rest@;
        match rest.pop() {
            Some(u) => {
                proof {
                    assert(use_views(before)[k - 1] == use_view(u));
                    assert(all.skip(k - 1)[0] == use_view(u));
                    assert(all.skip(k - 1).drop_first() =~= all.skip(k));
                    assert(use_views(rest@) =~= all.take(k - 1));
                }
                place_use(&mut keys, u);
            },
            None => {},
        }
    }
    proof {
        assert(all.skip(0) =~= all);
    }
    KeyCatalog { keys }
}

/// Whether no two keys of a list have one name.
pub open spec fn names_distinct(v: Seq<UseView>) -> bool {
    forall|i: int, j: int| 0 <= i < j < v.len() ==> #[trigger] v[i].name != #[trigger] v[j].name
}

/// A name that is found nowhere is nowhere.
proof fn use_at_end(v: Seq<UseView>, name: Seq<char>, j: int)
    requires
        use_at(v, name) == v.len(),
        0 <= j < v.len(),
    ensures
        v[j].name != name,
    decreases v.len(),
{
    if j > 0 && v[0].name != name {
        use_at_bound(v.drop_first(), name);
        use_at_end(v.drop_first(), name, j - 1);
        assert(v.drop_first()[j - 1] == v[j]);
    }
}

/// A lock for a key leaves the names distinct.
proof fn with_lock_keeps_names(v: Seq<UseView>, k: Key, pos: V3)
    requires
        names_distinct(v),
    ensures
        names_distinct(with_lock(v, k, pos)),
{
    use_at_bound(v, k.n@);
    let r = with_lock(v, k, pos);
    if k.n@.len() > 0 && use_at(v, k.n@) == v.len() {
        assert forall|i: int, j: int| 0 <= i < j < r.len() implies #[trigger] r[i].name
            != #[trigger] r[j].name by {
            use_at_end(v, k.n@, i);
        }
    }
}

/// The keys of a lock leave the names distinct.
proof fn with_keys_keeps_names(v: Seq<UseView>, keys: Seq<Key>, pos: V3, n: nat)
    requires
        names_distinct(v),
    ensures
        names_distinct(with_keys(v, keys, pos, n)),
    decreases n,
{
    if n > 0 {
        with_keys_keeps_names(v, keys, pos, (n - 1) as nat);
        with_lock_keeps_names(with_keys(v, keys, pos, (n - 1) as nat), keys[n - 1], pos);
    }
}

/// Each key is listed once, however many locks it opens.
pub proof fn keys_are_listed_once(locks: Seq<Lock>, n: nat)
    ensures
        names_distinct(key_uses(locks, n)),
    decreases n,
{
    if n > 0 {
        keys_are_listed_once(locks, (n - 1) as nat);
        let l = locks[n - 1];
        with_keys_keeps_names(key_uses(locks, (n - 1) as nat), l.keys@, l.pos, l.keys@.len());
    }
}

/// Whether prices never rise along a list.
pub open spec fn falling(v: Seq<UseView>) -> bool {
    forall|i: int, j: int|
        0 <= i < j < v.len() ==> sort_price(#[trigger] v[i]) >= sort_price(#[trigger] v[j])
}

/// Whether no price of a list is above `x`.
spec fn at_most(v: Seq<UseView>, x: int) -> bool {
    forall|i: int| 0 <= i < v.len() ==> sort_price(#[trigger] v[i]) <= x
}

/// Putting a key into its place keeps the prices falling and adds just that key.
proof fn placed_is_falling(u: UseView, v: Seq<UseView>)
    requires
        falling(v),
    ensures
        falling(placed(u, v)),
        placed(u, v).to_multiset() == v.to_multiset().insert(u),
        placed(u, v).len() == v.len() + 1,
        forall|x: int| #[trigger] at_most(v, x) && sort_price(u) <= x ==> at_most(placed(u, v), x),
    decreases v.len(),
{
    broadcast use vstd::seq_lib::group_to_multiset_ensures;

    let r = placed(u, v);
    if v.len() == 0 {
        assert(r =~= v.push(u));
    } else if sort_price(v[0]) <= sort_price(u) {
        assert(r =~= v.insert(0, u));
        vstd::seq_lib::to_multiset_insert(v, 0, u);
        assert forall|i: int, j: int| 0 <= i < j < r.len() implies sort_price(#[trigger] r[i])
            >= sort_price(#[trigger] r[j]) by {
            assert(r[j] == v[j - 1]);
            if i > 0 {
                assert(r[i] == v[i - 1]);
            } else if j > 1 {
                assert(sort_price(v[0]) >= sort_price(v[j - 1]));
            }
        }
        assert forall|x: int| #[trigger] at_most(v, x) && sort_price(u) <= x implies at_most(r, x) by {
            assert forall|i: int| 0 <= i < r.len() implies sort_price(#[trigger] r[i]) <= x by {
                if i > 0 {
                    assert(r[i] == v[i - 1]);
                }
            }
        }
    } else {
        let w = v.drop_first();
        assert forall|i: int, j: int| 0 <= i < j < w.len() implies sort_price(#[trigger] w[i])
            >= sort_price(#[trigger] w[j]) by {
            assert(w[i] == v[i + 1] && w[j] == v[j + 1]);
        }
        placed_is_falling(u, w);
        let t = placed(u, w);
        assert(r =~= t.insert(0, v[0]));
        vstd::seq_lib::to_multiset_insert(t, 0, v[0]);
        vstd::seq_lib::to_multiset_insert(w, 0, v[0]);
        assert(w.insert(0, v[0]) =~= v);
        assert(r.to_multiset() =~= v.to_multiset().insert(u));
        assert(at_most(w, sort_price(v[0]))) by {
            assert forall|i: int| 0 <= i < w.len() implies sort_price(#[trigger] w[i]) <= sort_price(v[0]) by {
                assert(w[i] == v[i + 1]);
            }
        }
        assert(at_most(t, sort_price(v[0])));
        assert forall|i: int, j: int| 0 <= i < j < r.len() implies sort_price(#[trigger] r[i])
            >= sort_price(#[trigger] r[j]) by {
            assert(r[j] == t[j - 1]);
            if i > 0 {
                assert(r[i] == t[i - 1]);
            }
        }
        assert forall|x: int| #[trigger] at_most(v, x) && sort_price(u) <= x implies at_most(r, x) by {
            assert(at_most(w, x)) by {
                assert forall|i: int| 0 <= i < w.len() implies sort_price(#[trigger] w[i]) <= x by {
                    assert(w[i] == v[i + 1]);
                }
            }
            assert forall|i: int| 0 <= i < r.len() implies sort_price(#[trigger] r[i]) <= x by {
                if i > 0 {
                    assert(r[i] == t[i - 1]);
                }
            }
        }
    }
}

/// Sorting by price gives the same keys, the most expensive first.
pub proof fn catalog_is_sorted(v: Seq<UseView>)
    ensures
        falling(by_price(v)),
        by_price(v).to_multiset() == v.to_multiset(),
    decreases v.len(),
{
    broadcast use vstd::seq_lib::group_to_multiset_ensures;

    if v.len() > 0 {
        let w = v.drop_first();
        catalog_is_sorted(w);
        placed_is_falling(v[0], by_price(w));
        vstd::seq_lib::to_multiset_insert(w, 0, v[0]);
        assert(w.insert(0, v[0]) =~= v);
    } else {
        assert(v =~= Seq::<UseView>::empty());
    }
}

} // verus!
