//! What the baker reads from its command line and writes into its files.
use crate::bake::args::{
    count_or, read_from, ArgsView, Backend, BakeArgs, BakeEnv, BakeSettings, UsageView,
};
use crate::bake::grid::{in_the_open, none_open, ranks, split_at};
use crate::bake::half::half_of;
use crate::bake::volume::{
    half_bytes, probe_bytes, probe_bytes_len, probe_values, volume_bytes, volume_bytes_at, ProbeSh,
};
use crate::bytes::le16;
use crate::f32bits::{float, F32};
use crate::gpu::materials::V3;
use crate::numbers::unsigned_value;
use crate::text::{begins, trimmed};
use vstd::prelude::*;

verus! {

/// Coefficient `k` of a probe.
pub open spec fn coefficient(p: ProbeSh, k: int) -> V3 {
    if k == 0 {
        p.c0
    } else if k == 1 {
        p.c1
    } else if k == 2 {
        p.c2
    } else {
        p.c3
    }
}

/// The half float that stands in the file from place `at` on.
pub open spec fn half_in(bin: Seq<u8>, at: int) -> int {
    bin[at] + 256 * bin[at + 1]
}

/// The file has 24 bytes for each probe: its four coefficients one after the other, each with its red,
/// its green and its blue as half floats, low byte first.
pub proof fn coefficients_stand_in_their_order(probes: Seq<ProbeSh>, p: int, k: int)
    requires
        0 <= p < probes.len(),
        0 <= k < 4,
    ensures
        ({
            let bin = volume_bytes(probes, probes.len());
            let c = coefficient(probes[p], k);
            &&& bin.len() == 24 * probes.len()
            &&& half_in(bin, 24 * p + 6 * k) == half_of(c.x)
            &&& half_in(bin, 24 * p + 6 * k + 2) == half_of(c.y)
            &&& half_in(bin, 24 * p + 6 * k + 4) == half_of(c.z)
        }),
{
    let bin = volume_bytes(probes, probes.len());
    let own = probe_bytes(probes[p]);
    let v = probe_values(probes[p]);
    let c = coefficient(probes[p], k);
    volume_bytes_at(probes, probes.len(), p);
    probe_bytes_len(probes[p]);
    assert(v[3 * k] == c.x && v[3 * k + 1] == c.y && v[3 * k + 2] == c.z);
    half_reads_back(bin, own, 24 * p, 3 * k, c.x);
    half_reads_back(bin, own, 24 * p, 3 * k + 1, c.y);
    half_reads_back(bin, own, 24 * p, 3 * k + 2, c.z);
}

proof fn half_reads_back(bin: Seq<u8>, own: Seq<u8>, at: int, j: int, x: F32)
    requires
        0 <= at,
        at + 24 <= bin.len(),
        bin.subrange(at, at + 24) == own,
        0 <= j < 12,
        own[2 * j] == half_bytes(x)[0],
        own[2 * j + 1] == half_bytes(x)[1],
    ensures
        half_in(bin, at + 2 * j) == half_of(x),
{
    crate::bake::half::half_fits(x);
    assert(bin.subrange(at, at + 24)[2 * j] == bin[at + 2 * j]);
    assert(bin.subrange(at, at + 24)[2 * j + 1] == bin[at + 2 * j + 1]);
    let h = half_of(x) as u16;
    assert(le16(h)[0] + 256 * le16(h)[1] == h);
}

/// Arguments are read one by one: a number of rays and a backend take the word behind them, which must
/// be there and right; the two words for indirect light take none; any other word with a dash is
/// refused; and the first word without one names the pack, a second is too many.
pub proof fn arguments_are_read_one_by_one(args: Seq<Seq<char>>, i: int, a: ArgsView)
    requires
        0 <= i < args.len(),
    ensures
        ({
            let s = args[i];
            let r = read_from(args, i, a);
            let n = unsigned_value(args[i + 1]);
            let named = s == "--rays"@ || s == "--indirect"@ || s == "--indirect-only"@ || s == "--backend"@;
            &&& s == "--rays"@ && i + 1 < args.len() && n is Some && n->0 <= 0xffff_ffff_ffff_ffff ==> r == read_from(
                args,
                i + 2,
                ArgsView { rays: Some(n->0 as u64), ..a },
            )
            &&& s == "--rays"@ && (i + 1 == args.len() || n is None || n->0 > 0xffff_ffff_ffff_ffff) ==> r == Err::<
                ArgsView,
                UsageView,
            >(UsageView::RaysNeedInteger)
            &&& s == "--indirect"@ || s == "--indirect-only"@ ==> r == read_from(
                args,
                i + 1,
                ArgsView { indirect_only: true, ..a },
            )
            &&& s == "--backend"@ && i + 1 < args.len() && args[i + 1] == "gpu"@ ==> r == read_from(
                args,
                i + 2,
                ArgsView { backend: Backend::Gpu, ..a },
            )
            &&& s == "--backend"@ && i + 1 < args.len() && args[i + 1] == "cpu"@ ==> r == read_from(
                args,
                i + 2,
                ArgsView { backend: Backend::Cpu, ..a },
            )
            &&& s == "--backend"@ && i + 1 < args.len() && args[i + 1] == "auto"@ ==> r == read_from(
                args,
                i + 2,
                ArgsView { backend: Backend::Auto, ..a },
            )
            &&& s == "--backend"@ && i + 1 < args.len() && args[i + 1] != "gpu"@ && args[i + 1] != "cpu"@ && args[i
                + 1] != "auto"@ ==> r == Err::<ArgsView, UsageView>(UsageView::BackendNeedsChoice(Some(args[i + 1])))
            &&& s == "--backend"@ && i + 1 == args.len() ==> r == Err::<ArgsView, UsageView>(
                UsageView::BackendNeedsChoice(None),
            )
            &&& !named && begins(s, "-"@) ==> r == Err::<ArgsView, UsageView>(UsageView::UnknownFlag(s))
            &&& !named && !begins(s, "-"@) && a.pack_dir is Some ==> r == Err::<ArgsView, UsageView>(
                UsageView::ExtraArgument(s),
            )
            &&& !named && !begins(s, "-"@) && a.pack_dir is None ==> r == read_from(
                args,
                i + 1,
                ArgsView { pack_dir: Some(s), ..a },
            )
        }),
        read_from(args, args.len() as int, a) == Ok::<ArgsView, UsageView>(a),
{
    reveal_strlit("--rays");
    reveal_strlit("--indirect");
    reveal_strlit("--indirect-only");
    reveal_strlit("--backend");
    reveal_strlit("auto");
    reveal_strlit("gpu");
    reveal_strlit("cpu");
    assert("--rays"@.len() == 6 && "--indirect"@.len() == 10 && "--indirect-only"@.len() == 15 && "--backend"@.len()
        == 9);
    assert("auto"@.len() == 4 && "gpu"@.len() == 3 && "cpu"@.len() == 3 && "gpu"@[0] == 'g' && "cpu"@[0] == 'c');
}

/// Counts that the environment gives are taken where they are whole numbers: rays, those of the bounce,
/// and whether the bounce is tried on the GPU.
pub proof fn counts_of_the_environment_are_taken(env: BakeEnv, args: BakeArgs, v: Option<String>, d: u64)
    ensures
        ({
            let s = BakeSettings::given(env, args);
            let r = env.rays->0@;
            let b = env.bounce_rays->0@;
            let g = env.gpu_bounce->0@;
            &&& args.rays is None && env.rays is Some && unsigned_value(trimmed(r)) is Some && 8 <= unsigned_value(
                trimmed(r),
            )->0 <= u64::MAX ==> s.rays == unsigned_value(trimmed(r))->0
            &&& args.rays is None && env.rays is Some && unsigned_value(trimmed(r)) is None ==> s.rays == 256
            &&& env.bounce_rays is Some && unsigned_value(trimmed(b)) is Some && 1 <= unsigned_value(trimmed(b))->0
                <= 4096 ==> s.bounce_rays == unsigned_value(trimmed(b))->0
            &&& env.bounce_rays is Some && unsigned_value(trimmed(b)) is None ==> s.bounce_rays == 128
            &&& args.backend != Backend::Cpu && env.gpu_bounce is Some && unsigned_value(trimmed(g)) is Some && 1
                <= unsigned_value(trimmed(g))->0 <= u64::MAX ==> s.gpu_bounce
            &&& env.gpu_bounce is Some && unsigned_value(trimmed(g)) == Some(0nat) ==> !s.gpu_bounce
        }),
        v is None ==> count_or(v, d) == d,
{
}

/// A place lies in the open where less than a quarter of what its rays hit are back faces.
pub proof fn a_quarter_of_back_faces_is_inside(ratio: F32, v: Seq<F32>)
    ensures
        in_the_open(ratio) <==> ratio.lt(float(0x3e80_0000)),
        none_open(v) <==> forall|j: int| 0 <= j < v.len() ==> !(#[trigger] v[j]).lt(float(0x3e80_0000)),
        crate::bake::grid::NEAR_SHARE == 0x3f00_0000,
        crate::bake::grid::MAX_GROWTHS == 64,
{
    if none_open(v) {
        assert forall|j: int| 0 <= j < v.len() implies !(#[trigger] v[j]).lt(float(0x3e80_0000)) by {
            assert(!in_the_open(v[j]));
        }
    }
    if forall|j: int| 0 <= j < v.len() ==> !(#[trigger] v[j]).lt(float(0x3e80_0000)) {
        assert forall|j: int| 0 <= j < v.len() implies !in_the_open(#[trigger] v[j]) by {}
    }
}

/// How many entries a test holds of.
pub open spec fn count_of(s: Seq<i64>, p: spec_fn(i64) -> bool) -> nat
    decreases s.len(),
{
    if s.len() == 0 {
        0
    } else {
        count_of(s.drop_last(), p) + if p(s.last()) {
            1nat
        } else {
            0nat
        }
    }
}

proof fn count_without(s: Seq<i64>, j: int, p: spec_fn(i64) -> bool)
    requires
        0 <= j < s.len(),
    ensures
        count_of(s, p) == count_of(s.remove(j), p) + if p(s[j]) {
            1nat
        } else {
            0nat
        },
    decreases s.len(),
{
    if j == s.len() - 1 {
        assert(s.remove(j) =~= s.drop_last());
    } else {
        count_without(s.drop_last(), j, p);
        assert(s.remove(j).drop_last() =~= s.drop_last().remove(j));
        assert(s.remove(j).last() == s.last());
        assert(s.drop_last()[j] == s[j]);
    }
}

proof fn counts_of_one_multiset(a: Seq<i64>, b: Seq<i64>, p: spec_fn(i64) -> bool)
    requires
        a.to_multiset() == b.to_multiset(),
    ensures
        count_of(a, p) == count_of(b, p),
        a.len() == b.len(),
    decreases a.len(),
{
    broadcast use vstd::seq_lib::group_to_multiset_ensures;

    assert(a.len() == a.to_multiset().len() && b.len() == b.to_multiset().len());
    if a.len() > 0 {
        let x = a.last();
        assert(a.contains(x)) by {
            assert(a[a.len() - 1] == x);
        }
        assert(b.to_multiset().count(x) > 0);
        assert(b.contains(x));
        let j = choose|j: int| 0 <= j < b.len() && b[j] == x;
        let c = b.remove(j);
        assert(a.drop_last() =~= a.remove(a.len() - 1));
        assert(a.drop_last().to_multiset() =~= a.to_multiset().remove(x));
        assert(c.to_multiset() =~= b.to_multiset().remove(x));
        counts_of_one_multiset(a.drop_last(), c, p);
        count_without(b, j, p);
    }
}

proof fn none_counted(s: Seq<i64>, p: spec_fn(i64) -> bool, k: int)
    requires
        0 <= k <= s.len(),
        forall|i: int| k <= i < s.len() ==> !p(#[trigger] s[i]),
    ensures
        count_of(s, p) <= k,
    decreases s.len(),
{
    if s.len() > 0 {
        if k == s.len() {
            none_counted(s.drop_last(), p, k - 1);
        } else {
            assert(!p(s[s.len() - 1]));
            none_counted(s.drop_last(), p, k);
        }
    }
}

proof fn all_counted(s: Seq<i64>, p: spec_fn(i64) -> bool, k: int)
    requires
        0 <= k <= s.len(),
        forall|i: int| 0 <= i < k ==> p(#[trigger] s[i]),
    ensures
        count_of(s, p) >= k,
    decreases s.len(),
{
    if s.len() > 0 {
        if k == s.len() {
            assert(p(s[s.len() - 1]));
            all_counted(s.drop_last(), p, k - 1);
        } else {
            all_counted(s.drop_last(), p, k);
        }
    }
}

/// The value at place `k` of the rising order has at most `k` values below it and more than `k` that are
/// not above it.
pub proof fn the_value_at_a_place_has_its_rank(w: Seq<i64>, v: Seq<F32>, k: int)
    requires
        split_at(w, v, k),
    ensures
        count_of(ranks(v), |x: i64| x < w[k]) <= k,
        count_of(ranks(v), |x: i64| x <= w[k]) > k,
        ranks(v).len() == v.len(),
        forall|i: int| 0 <= i < v.len() ==> #[trigger] ranks(v)[i] == v[i].total_rank(),
{
    let below = |x: i64| x < w[k];
    let upto = |x: i64| x <= w[k];
    counts_of_one_multiset(w, ranks(v), below);
    counts_of_one_multiset(w, ranks(v), upto);
    none_counted(w, below, k);
    all_counted(w, upto, k + 1);
}

} // verus!
