//! Splatted terrain: the table of layers and control maps, and the materials that use it.
use crate::compose::maybe_text;
use crate::f32bits::{float, F32, ONE};
use crate::gpu::materials::{
    add_index, with_index, GpuMaterial, MatClass, NO_EMISSIVE,
};
use crate::gpu::paths::{interned, position, PathTable};
use crate::json::{member_at, Json, Member};
use crate::text::{
    chars_of, matches_at, occurs_at, same, sort_names, sorted_places, sorted_places_bound, texts,
};
use vstd::prelude::*;
use vstd::string::*;

verus! {

/// The number of slices that the table has room for.
pub const SLICES: usize = 16;

/// A layer of a tile with its texture looked up.
pub struct LayerIn {
    pub idx: u64,
    /// The path of the layer's texture.
    pub path: String,
    pub rep: F32,
    /// Whether the texture is there.
    pub present: bool,
}

/// A tile with its files looked up: its name, the paths of its control maps (`None` for an entry that
/// is no text), and its layers where it lists any.
pub struct TileIn {
    pub name: String,
    pub ctrl_maps: Vec<Option<String>>,
    pub layers: Option<Vec<LayerIn>>,
}

/// The splat table.
pub struct TerrainSplatGpu {
    pub layer_albedo: Vec<u32>,
    pub layer_rep: Vec<F32>,
    pub ctrl_idx: Vec<u32>,
}

/// What the splat table holds, and the texture list with the textures that it points at.
#[verifier::ext_equal]
pub struct SplatModel {
    pub albedo: Seq<Seq<char>>,
    pub linear: Seq<u32>,
    pub layer_albedo: Seq<u32>,
    pub layer_rep: Seq<F32>,
    pub ctrl_idx: Seq<u32>,
}

/// The file name of a layer's texture.
pub fn layer_file(name: &str) -> (r: String)
    ensures
        r@ == "layer_"@ + name@ + ".png"@,
{
    let mut r = "layer_".to_owned();
    r.append(name);
    r.append(".png");
    r
}

/// A layer of a tile as the sidecar lists it.
#[derive(Debug)]
pub struct LayerNames {
    pub idx: u64,
    /// The file name of the layer's texture.
    pub file: String,
    pub rep: F32,
}

/// What a layer stands for.
#[verifier::ext_equal]
pub struct LayerNamesView {
    pub idx: u64,
    pub file: Seq<char>,
    pub rep: F32,
}

impl View for LayerNames {
    type V = LayerNamesView;

    open spec fn view(&self) -> LayerNamesView {
        LayerNamesView { idx: self.idx, file: self.file@, rep: self.rep }
    }
}

/// A tile as the sidecar lists it, its files by their names.
#[derive(Debug)]
pub struct TileNames {
    pub name: String,
    pub ctrl_maps: Vec<Option<String>>,
    pub layers: Option<Vec<LayerNames>>,
}

/// What a tile stands for.
#[verifier::ext_equal]
pub struct TileNamesView {
    pub name: Seq<char>,
    pub ctrl_maps: Seq<Option<Seq<char>>>,
    pub layers: Option<Seq<LayerNamesView>>,
}

/// What layers stand for.
pub open spec fn layer_views(v: Seq<LayerNames>) -> Seq<LayerNamesView> {
    Seq::new(v.len(), |i: int| v[i]@)
}

/// What control maps stand for.
pub open spec fn ctrl_views(v: Seq<Option<String>>) -> Seq<Option<Seq<char>>> {
    Seq::new(v.len(), |i: int| maybe_text(v[i]))
}

impl View for TileNames {
    type V = TileNamesView;

    open spec fn view(&self) -> TileNamesView {
        TileNamesView {
            name: self.name@,
            ctrl_maps: ctrl_views(self.ctrl_maps@),
            layers: match self.layers {
                Some(l) => Some(layer_views(l@)),
                None => None,
            },
        }
    }
}

/// What tiles stand for.
pub open spec fn tile_views(v: Seq<TileNames>) -> Seq<TileNamesView> {
    Seq::new(v.len(), |i: int| v[i]@)
}

/// The number of a layer that gives none: beyond the table, so that the layer is passed over.
pub const NO_LAYER: u64 = 99;

/// A layer as the sidecar writes it. Without a number it is passed over, without a name its name is
/// empty, and without a repetition its texture repeats once.
pub open spec fn layer_of(l: Json) -> LayerNamesView {
    LayerNamesView {
        idx: match l.field("idx"@) {
            Some(j) => match j.whole() {
                Some(n) => n,
                None => NO_LAYER,
            },
            None => NO_LAYER,
        },
        file: "layer_"@ + (match l.field("name"@) {
            Some(j) => match j.text() {
                Some(t) => t,
                None => Seq::empty(),
            },
            None => Seq::empty(),
        }) + ".png"@,
        rep: match l.field("rep"@) {
            Some(j) => match j.num() {
                Some(x) => x,
                None => float(ONE),
            },
            None => float(ONE),
        },
    }
}

/// A tile as the sidecar writes it under its name. Control maps that are no list are none, and
/// layers that are no list are not listed.
pub open spec fn tile_of(name: Seq<char>, t: Json) -> TileNamesView {
    TileNamesView {
        name,
        ctrl_maps: match t.field("ctrl_maps"@) {
            Some(Json::Arr(a)) => Seq::new(a@.len(), |i: int| a@[i].text()),
            _ => Seq::empty(),
        },
        layers: match t.field("layers"@) {
            Some(Json::Arr(a)) => Some(Seq::new(a@.len(), |i: int| layer_of(a@[i]))),
            _ => None,
        },
    }
}

/// The tiles among the first `n` members; of members with one name the last counts.
pub open spec fn tiles_among(members: Seq<Member>, n: nat) -> Seq<TileNamesView>
    decreases n,
{
    if n == 0 {
        Seq::empty()
    } else {
        let rest = tiles_among(members, (n - 1) as nat);
        let m = members[n - 1];
        if member_at(members, m.key@, members.len()) == Some(n - 1) {
            rest.push(tile_of(m.key@, m.value))
        } else {
            rest
        }
    }
}

/// The tiles of a sidecar; none where it lists none.
pub open spec fn tiles_of(sidecar: Json) -> Option<Seq<TileNamesView>> {
    match sidecar.field("tiles"@) {
        Some(Json::Obj(m)) => Some(tiles_among(m@, m@.len())),
        _ => None,
    }
}

fn read_layer(l: &Json) -> (r: LayerNames)
    ensures
        r@ == layer_of(*l),
{
    let idx: u64 = match l.get("idx") {
        Some(j) => match j.as_whole() {
            Some(n) => n,
            None => NO_LAYER,
        },
        None => NO_LAYER,
    };
    let rep = match l.get("rep") {
        Some(j) => match j.as_num() {
            Some(x) => x,
            None => F32 { bits: ONE },
        },
        None => F32 { bits: ONE },
    };
    proof {
        reveal_strlit("");
        assert(""@ =~= Seq::<char>::empty());
    }
    let file = match l.get("name") {
        Some(j) => match j.as_text() {
            Some(t) => layer_file(t),
            None => layer_file(""),
        },
        None => layer_file(""),
    };
    LayerNames { idx, file, rep }
}

fn read_tile(name: &str, t: &Json) -> (r: TileNames)
    ensures
        r@ == tile_of(name@, *t),
{
    let mut ctrl_maps: Vec<Option<String>> = Vec::new();
    if let Some(Json::Arr(a)) = t.get("ctrl_maps") {
        let mut i: usize = 0;
        while i < a.len()
            invariant
                i <= a@.len(),
                ctrl_maps@.len() == i,
                forall|k: int| 0 <= k < i ==> maybe_text(#[trigger] ctrl_maps@[k]) == a@[k].text(),
            decreases a@.len() - i,
        {
            ctrl_maps.push(
                match a[i].as_text() {
                    Some(s) => Some(s.to_owned()),
                    None => None,
                },
            );
            i = i + 1;
        }
    }
    let layers = match t.get("layers") {
        Some(Json::Arr(a)) => {
            let mut v: Vec<LayerNames> = Vec::new();
            let mut i: usize = 0;
            while i < a.len()
                invariant
                    i <= a@.len(),
                    v@.len() == i,
                    forall|k: int| 0 <= k < i ==> (#[trigger] v@[k])@ == layer_of(a@[k]),
                decreases a@.len() - i,
            {
                v.push(read_layer(&a[i]));
                i = i + 1;
            }
            Some(v)
        },
        _ => None,
    };
    let r = TileNames { name: name.to_owned(), ctrl_maps, layers };
    proof {
        assert(r@ =~~= tile_of(name@, *t));
    }
    r
}

/// The tiles of the terrain sidecar; none where it lists none.
pub fn read_tiles(sidecar: &Json) -> (r: Option<Vec<TileNames>>)
    ensures
        match r {
            Some(v) => tiles_of(*sidecar) == Some(tile_views(v@)),
            None => tiles_of(*sidecar) is None,
        },
{
    let m = match sidecar.get("tiles") {
        Some(Json::Obj(m)) => m,
        _ => return None,
    };
    let n: usize = m.len();
    let mut v: Vec<TileNames> = Vec::new();
    proof {
        assert(tile_views(v@) =~= tiles_among(m@, 0));
    }
    let mut i: usize = 0;
    while i < n
        invariant
            i <= n,
            n == m@.len(),
            tile_views(v@) == tiles_among(m@, i as nat),
        decreases n - i,
    {
        let key = m[i].key.as_str();
        let mut last: usize = n;
        while last > i + 1 && !same(m[last - 1].key.as_str(), key)
            invariant
                i < last <= n,
                n == m@.len(),
                key@ == m@[i as int].key@,
                member_at(m@, key@, n as nat) == member_at(m@, key@, last as nat),
            decreases last,
        {
            last = last - 1;
        }
        if last == i + 1 {
            v.push(read_tile(key, &m[i].value));
        }
        i = i + 1;
        proof {
            assert(tile_views(v@) =~= tiles_among(m@, i as nat));
        }
    }
    Some(v)
}

/// The table before any tile is read.
pub open spec fn empty_splat(albedo: Seq<Seq<char>>, linear: Seq<u32>) -> SplatModel {
    SplatModel {
        albedo,
        linear,
        layer_albedo: Seq::new(12, |i: int| 0u32),
        layer_rep: Seq::new(12, |i: int| float(ONE)),
        ctrl_idx: Seq::new(48, |i: int| 0u32),
    }
}

/// The table with the first `k` control maps of slice `si` in it.
pub open spec fn with_ctrl(m: SplatModel, maps: Seq<Option<String>>, si: int, k: nat) -> SplatModel
    decreases k,
{
    if k == 0 {
        m
    } else {
        let p = with_ctrl(m, maps, si, (k - 1) as nat);
        match maps[k - 1] {
            Some(c) => SplatModel {
                albedo: interned(p.albedo, c@),
                linear: with_index(p.linear, position(p.albedo, c@) as u32),
                ctrl_idx: p.ctrl_idx.update(si * 3 + k - 1, position(p.albedo, c@) as u32),
                ..p
            },
            None => p,
        }
    }
}

/// How many control maps of a tile count: at most three.
pub open spec fn ctrl_count(t: TileIn) -> nat {
    if t.ctrl_maps@.len() < 3 {
        t.ctrl_maps@.len()
    } else {
        3
    }
}

/// Where the layers of a tile have been read so far: the table, the places whose texture is missing,
/// and the first texture that is there.
#[verifier::ext_equal]
pub struct LayerScan {
    pub m: SplatModel,
    pub missing: Seq<int>,
    pub first: Option<u32>,
}

/// The scan of the first `k` layers.
pub open spec fn scan_layers(m: SplatModel, layers: Seq<LayerIn>, k: nat) -> LayerScan
    decreases k,
{
    if k == 0 {
        LayerScan { m, missing: Seq::empty(), first: None }
    } else {
        let p = scan_layers(m, layers, (k - 1) as nat);
        let l = layers[k - 1];
        if l.idx >= 12 {
            p
        } else if l.present {
            let t = position(p.m.albedo, l.path@) as u32;
            LayerScan {
                m: SplatModel {
                    albedo: interned(p.m.albedo, l.path@),
                    layer_albedo: p.m.layer_albedo.update(l.idx as int, t),
                    layer_rep: p.m.layer_rep.update(l.idx as int, l.rep),
                    ..p.m
                },
                missing: p.missing,
                first: match p.first {
                    Some(f) => Some(f),
                    None => Some(t),
                },
            }
        } else {
            LayerScan {
                m: SplatModel {
                    layer_rep: p.m.layer_rep.update(l.idx as int, l.rep),
                    ..p.m
                },
                missing: p.missing.push(l.idx as int),
                first: p.first,
            }
        }
    }
}

/// The list with `v` at the first `k` of the given places.
pub open spec fn filled(s: Seq<u32>, places: Seq<int>, v: u32, k: nat) -> Seq<u32>
    decreases k,
{
    if k == 0 {
        s
    } else {
        filled(s, places, v, (k - 1) as nat).update(places[k - 1], v)
    }
}

/// The table with the layers of a tile in it: a missing layer shows the first one that is there.
pub open spec fn with_layers(m: SplatModel, layers: Seq<LayerIn>) -> SplatModel {
    let s = scan_layers(m, layers, layers.len());
    let fallback = match s.first {
        Some(f) => f,
        None => 0,
    };
    SplatModel {
        layer_albedo: filled(s.m.layer_albedo, s.missing, fallback, s.missing.len()),
        ..s.m
    }
}

/// The table with one more tile in it, as slice `si`. The layers are those of the first tile that
/// lists any.
pub open spec fn with_tile(m: SplatModel, done: bool, t: TileIn, si: int) -> SplatModel {
    let c = with_ctrl(m, t.ctrl_maps@, si, ctrl_count(t));
    match t.layers {
        Some(l) => if done {
            c
        } else {
            with_layers(c, l@)
        },
        None => c,
    }
}

/// Whether one of the first `k` tiles in the given order lists layers.
pub open spec fn layers_done(tiles: Seq<TileIn>, order: Seq<int>, k: nat) -> bool
    decreases k,
{
    if k == 0 {
        false
    } else {
        layers_done(tiles, order, (k - 1) as nat) || tiles[order[k - 1]].layers is Some
    }
}

/// The table with the first `k` tiles in the given order in it.
pub open spec fn with_tiles(m: SplatModel, tiles: Seq<TileIn>, order: Seq<int>, k: nat) -> SplatModel
    decreases k,
{
    if k == 0 {
        m
    } else {
        with_tile(
            with_tiles(m, tiles, order, (k - 1) as nat),
            layers_done(tiles, order, (k - 1) as nat),
            tiles[order[k - 1]],
            k - 1,
        )
    }
}

/// The names of the tiles.
pub open spec fn tile_names(tiles: Seq<TileIn>) -> Seq<Seq<char>> {
    Seq::new(tiles.len(), |i: int| tiles[i].name@)
}

/// How many slices the tiles make: at most sixteen.
pub open spec fn slice_count(tiles: Seq<TileIn>) -> nat {
    if tiles.len() < 16 {
        tiles.len()
    } else {
        16
    }
}

/// The tiles in slice order: sorted by name.
pub open spec fn slice_order(tiles: Seq<TileIn>) -> Seq<int> {
    sorted_places(tile_names(tiles), tiles.len())
}

/// The splat table of a sidecar.
pub open spec fn splat_of(albedo: Seq<Seq<char>>, linear: Seq<u32>, tiles: Seq<TileIn>) -> SplatModel {
    with_tiles(empty_splat(albedo, linear), tiles, slice_order(tiles), slice_count(tiles))
}

/// How many textures the tiles name at most.
pub open spec fn texture_count(tiles: Seq<TileIn>, k: nat) -> nat
    decreases k,
{
    if k == 0 {
        0
    } else {
        texture_count(tiles, (k - 1) as nat) + 3 + match tiles[k - 1].layers {
            Some(l) => l@.len(),
            None => 0,
        }
    }
}

/// The sum of one tile's textures is part of the whole.
pub proof fn texture_count_covers(tiles: Seq<TileIn>, k: nat, i: int)
    requires
        0 <= i < k <= tiles.len(),
    ensures
        3 + (match tiles[i].layers {
            Some(l) => l@.len(),
            None => 0,
        }) <= texture_count(tiles, k),
        3 * k <= texture_count(tiles, k),
    decreases k,
{
    if i < k - 1 {
        texture_count_covers(tiles, (k - 1) as nat, i);
    } else if k > 1 {
        texture_count_covers(tiles, (k - 1) as nat, 0);
    }
}

/// Build state of the table.
pub struct Splat {
    pub albedo: PathTable,
    pub linear: Vec<u32>,
    pub terrain: TerrainSplatGpu,
}

impl View for Splat {
    type V = SplatModel;

    open spec fn view(&self) -> SplatModel {
        SplatModel {
            albedo: self.albedo@,
            linear: self.linear@,
            layer_albedo: self.terrain.layer_albedo@,
            layer_rep: self.terrain.layer_rep@,
            ctrl_idx: self.terrain.ctrl_idx@,
        }
    }
}

impl Splat {
    /// Twelve layers and three control maps for each of sixteen slices.
    pub open spec fn wf(&self) -> bool {
        self@.layer_albedo.len() == 12 && self@.layer_rep.len() == 12 && self@.ctrl_idx.len() == 48
    }
}

/// An empty table over given texture lists.
pub fn new_splat(albedo: PathTable, linear: Vec<u32>) -> (s: Splat)
    ensures
        s@ == empty_splat(albedo@, linear@),
        s.wf(),
{
    let s = Splat {
        albedo,
        linear,
        terrain: TerrainSplatGpu {
            layer_albedo: vec![0;12],
            layer_rep: vec![F32 { bits: ONE };12],
            ctrl_idx: vec![0;48],
        },
    };
    proof {
        assert(s@ =~= empty_splat(albedo@, linear@));
    }
    s
}

fn add_ctrl(s: &mut Splat, t: &TileIn, si: usize)
    requires
        old(s).wf(),
        si < 16,
        old(s)@.albedo.len() + 3 < 0xffff_ffff,
    ensures
        final(s)@ == with_ctrl(old(s)@, t.ctrl_maps@, si as int, ctrl_count(*t)),
        final(s).wf(),
        final(s)@.albedo.len() <= old(s)@.albedo.len() + 3,
{
    let n: usize = if t.ctrl_maps.len() < 3 {
        t.ctrl_maps.len()
    } else {
        3
    };
    let mut k: usize = 0;
    while k < n
        invariant
            k <= n,
            n == ctrl_count(*t),
            si < 16,
            s.wf(),
            s@ == with_ctrl(old(s)@, t.ctrl_maps@, si as int, k as nat),
            s@.albedo.len() <= old(s)@.albedo.len() + k,
            old(s)@.albedo.len() + 3 < 0xffff_ffff,
        decreases n - k,
    {
        match &t.ctrl_maps[k] {
            Some(c) => {
                let idx: u32 = s.albedo.intern(c.as_str());
                s.terrain.ctrl_idx.set(si * 3 + k, idx);
                add_index(&mut s.linear, idx);
            },
            None => {},
        }
        k = k + 1;
        proof {
            assert(s@ =~= with_ctrl(old(s)@, t.ctrl_maps@, si as int, k as nat));
        }
    }
}

proof fn scan_keeps_shape(m: SplatModel, layers: Seq<LayerIn>, k: nat)
    requires
        k <= layers.len(),
        m.layer_albedo.len() == 12,
        m.layer_rep.len() == 12,
    ensures
        ({
            let s = scan_layers(m, layers, k);
            &&& s.m.layer_albedo.len() == 12
            &&& s.m.layer_rep.len() == 12
            &&& s.m.ctrl_idx == m.ctrl_idx
            &&& s.m.linear == m.linear
            &&& forall|i: int| 0 <= i < s.missing.len() ==> 0 <= #[trigger] s.missing[i] < 12
        }),
    decreases k,
{
    if k > 0 {
        scan_keeps_shape(m, layers, (k - 1) as nat);
    }
}

fn add_layers(s: &mut Splat, layers: &Vec<LayerIn>)
    requires
        old(s).wf(),
        old(s)@.albedo.len() + layers@.len() < 0xffff_ffff,
    ensures
        final(s)@ == with_layers(old(s)@, layers@),
        final(s).wf(),
        final(s)@.albedo.len() <= old(s)@.albedo.len() + layers@.len(),
{
    let mut missing: Vec<usize> = Vec::new();
    let mut first: Option<u32> = None;
    let mut k: usize = 0;
    while k < layers.len()
        invariant
            k <= layers@.len(),
            s.wf(),
            s@ == scan_layers(old(s)@, layers@, k as nat).m,
            first == scan_layers(old(s)@, layers@, k as nat).first,
            missing@.len() == scan_layers(old(s)@, layers@, k as nat).missing.len(),
            forall|i: int|
                0 <= i < missing@.len() ==> missing@[i] == #[trigger] scan_layers(
                    old(s)@,
                    layers@,
                    k as nat,
                ).missing[i],
            forall|i: int| 0 <= i < missing@.len() ==> #[trigger] missing@[i] < 12,
            s@.albedo.len() <= old(s)@.albedo.len() + k,
            old(s)@.albedo.len() + layers@.len() < 0xffff_ffff,
        decreases layers@.len() - k,
    {
        let l = &layers[k];
        if l.idx < 12 {
            let idx: usize = l.idx as usize;
            if l.present {
                let t: u32 = s.albedo.intern(l.path.as_str());
                s.terrain.layer_albedo.set(idx, t);
                if first.is_none() {
                    first = Some(t);
                }
            } else {
                missing.push(idx);
            }
            s.terrain.layer_rep.set(idx, l.rep);
        }
        k = k + 1;
        proof {
            assert(s@ =~= scan_layers(old(s)@, layers@, k as nat).m);
        }
    }
    let ghost scan = scan_layers(old(s)@, layers@, layers@.len());
    let fallback: u32 = match first {
        Some(f) => f,
        None => 0,
    };
    let mut j: usize = 0;
    while j < missing.len()
        invariant
            j <= missing@.len(),
            s.wf(),
            missing@.len() == scan.missing.len(),
            forall|i: int| 0 <= i < missing@.len() ==> missing@[i] == #[trigger] scan.missing[i],
            forall|i: int| 0 <= i < missing@.len() ==> #[trigger] missing@[i] < 12,
            s@ == (SplatModel {
                layer_albedo: filled(scan.m.layer_albedo, scan.missing, fallback, j as nat),
                ..scan.m
            }),
        decreases missing@.len() - j,
    {
        s.terrain.layer_albedo.set(missing[j], fallback);
        j = j + 1;
        proof {
            assert(s@ =~= (SplatModel {
                layer_albedo: filled(scan.m.layer_albedo, scan.missing, fallback, j as nat),
                ..scan.m
            }));
        }
    }
}

/// Read the tiles of a sidecar into the splat table. Returns the slice order as well: the names of
/// the slices are those of the tiles in that order.
pub fn build_splat(s: &mut Splat, tiles: &Vec<TileIn>) -> (slices: Vec<usize>)
    requires
        old(s)@ == empty_splat(old(s)@.albedo, old(s)@.linear),
        old(s).wf(),
        old(s)@.albedo.len() + 16 * texture_count(tiles@, tiles@.len()) < 0xffff_ffff,
    ensures
        final(s)@ == splat_of(old(s)@.albedo, old(s)@.linear, tiles@),
        final(s).wf(),
        slices@.len() == slice_count(tiles@),
        forall|i: int|
            0 <= i < slices@.len() ==> #[trigger] slices@[i] == slice_order(tiles@)[i] && slices@[i]
                < tiles@.len(),
        final(s)@.albedo.len() <= old(s)@.albedo.len() + 16 * texture_count(tiles@, tiles@.len()),
{
    let mut names: Vec<String> = Vec::new();
    let mut i: usize = 0;
    while i < tiles.len()
        invariant
            i <= tiles@.len(),
            names@.len() == i,
            forall|k: int| 0 <= k < i ==> #[trigger] names@[k]@ == tiles@[k].name@,
        decreases tiles@.len() - i,
    {
        names.push(tiles[i].name.clone());
        i = i + 1;
    }
    proof {
        assert(texts(names@) =~= tile_names(tiles@));
        sorted_places_bound(tile_names(tiles@), tiles@.len());
    }
    let mut order = sort_names(&names);
    if order.len() > SLICES {
        order.truncate(SLICES);
    }
    let ghost places = slice_order(tiles@);
    let ghost m0 = s@;
    let ghost total = texture_count(tiles@, tiles@.len());
    let mut done = false;
    let mut k: usize = 0;
    while k < order.len()
        invariant
            k <= order@.len(),
            order@.len() == slice_count(tiles@),
            forall|i: int|
                0 <= i < order@.len() ==> #[trigger] order@[i] == places[i] && order@[i]
                    < tiles@.len(),
            s.wf(),
            s@ == with_tiles(m0, tiles@, places, k as nat),
            done == layers_done(tiles@, places, k as nat),
            total == texture_count(tiles@, tiles@.len()),
            s@.albedo.len() <= m0.albedo.len() + k * total,
            m0.albedo.len() + 16 * total < 0xffff_ffff,
        decreases order@.len() - k,
    {
        let t = &tiles[order[k]];
        proof {
            texture_count_covers(tiles@, tiles@.len(), order@[k as int] as int);
            assert((k + 1) * total == k * total + total) by (nonlinear_arith);
            assert((k + 1) * total <= 16 * total) by (nonlinear_arith)
                requires
                    k + 1 <= 16,
                    total >= 0,
            ;
        }
        add_ctrl(s, t, k);
        match &t.layers {
            Some(l) => {
                if !done {
                    add_layers(s, l);
                }
                done = true;
            },
            None => {},
        }
        k = k + 1;
    }
    proof {
        assert(order@.len() * total <= 16 * total) by (nonlinear_arith)
            requires
                order@.len() <= 16,
                total >= 0,
        ;
    }
    order
}

/// The first place from `from` on where `s` stands in `name`, if any.
pub open spec fn next_match(name: Seq<char>, s: Seq<char>, from: int) -> Option<int>
    decreases name.len() + 1 - from,
{
    if from < 0 || from > name.len() {
        None
    } else if occurs_at(name, s, from) {
        Some(from)
    } else {
        next_match(name, s, from + 1)
    }
}

/// Whether the character behind position `k` is a decimal digit.
pub open spec fn digit_at(name: Seq<char>, k: int) -> bool {
    k < name.len() && '0' <= name[k] && name[k] <= '9'
}

/// Whether one of the matches of `s` in `name` from `from` on, taken from left to right without
/// overlap, is not followed by a digit.
pub open spec fn whole_match(name: Seq<char>, s: Seq<char>, from: int) -> bool
    decreases name.len() + 1 - from,
    via whole_match_decreases
{
    match next_match(name, s, from) {
        None => false,
        Some(i) => !digit_at(name, i + s.len()) || whole_match(
            name,
            s,
            if s.len() == 0 {
                i + 1
            } else {
                i + s.len()
            },
        ),
    }
}

proof fn next_match_bound(name: Seq<char>, s: Seq<char>, from: int)
    ensures
        next_match(name, s, from) matches Some(i) ==> from <= i && 0 <= from && occurs_at(name, s, i),
    decreases name.len() + 1 - from,
{
    if 0 <= from <= name.len() && !occurs_at(name, s, from) {
        next_match_bound(name, s, from + 1);
    }
}

#[via_fn]
proof fn whole_match_decreases(name: Seq<char>, s: Seq<char>, from: int) {
    next_match_bound(name, s, from);
}

/// Whether `name` holds `s` as a whole token: a slice name with a longer number behind it is another
/// slice.
pub fn token_match(name: &str, s: &str) -> (r: bool)
    ensures
        r == whole_match(name@, s@, 0),
{
    let n = chars_of(name);
    let p = chars_of(s);
    let mut from: usize = 0;
    let mut i: usize = 0;
    while i <= n.len()
        invariant
            from <= i <= n@.len() + 1,
            n@ == name@,
            p@ == s@,
            whole_match(n@, p@, 0) == whole_match(n@, p@, from as int),
            next_match(n@, p@, from as int) == next_match(n@, p@, i as int),
        decreases n@.len() + 1 - i,
    {
        if matches_at(&n, &p, i) {
            let e: usize = i + p.len();
            let digit = e < n.len() && '0' <= n[e] && n[e] <= '9';
            if !digit {
                return true;
            }
            from = if p.len() == 0 {
                i + 1
            } else {
                e
            };
            i = from;
        } else {
            if i == n.len() {
                assert(next_match(n@, p@, (n@.len() + 1) as int) is None);
                return false;
            }
            i = i + 1;
        }
    }
    false
}

/// A record turned into that of a terrain tile of the given slice: matte, without detail maps, glow or
/// roughness of its own.
pub open spec fn tagged(r: GpuMaterial, slice: u32) -> GpuMaterial {
    GpuMaterial {
        flags: MatClass { terrain: true, detail: false, rfa: false, ..r.flags },
        detail_flags: 0,
        emissive_index: NO_EMISSIVE,
        slot: slice,
        roughness: float(0x3f73_3333),
        ..r
    }
}

/// A mesh of a terrain instance: its name and the materials of its parts.
pub struct TerrainMesh {
    pub name: String,
    pub materials: Vec<u32>,
}

/// The first of the slices `from..n` whose name the mesh name holds as a whole token.
pub open spec fn slice_of(name: Seq<char>, names: Seq<Seq<char>>, from: int) -> Option<int>
    decreases names.len() - from,
{
    if from < 0 || from >= names.len() {
        None
    } else if whole_match(name, names[from], 0) {
        Some(from)
    } else {
        slice_of(name, names, from + 1)
    }
}

/// The records with the first `k` of the given materials tagged.
pub open spec fn tagged_parts(recs: Seq<GpuMaterial>, mats: Seq<u32>, slice: u32, k: nat) -> Seq<GpuMaterial>
    decreases k,
{
    if k == 0 {
        recs
    } else {
        let p = tagged_parts(recs, mats, slice, (k - 1) as nat);
        let m = mats[k - 1];
        if m < p.len() {
            p.update(m as int, tagged(p[m as int], slice))
        } else {
            p
        }
    }
}

/// The records once the first `k` terrain instances, given by their meshes, are tagged. A mesh whose
/// name holds no slice name is passed over.
pub open spec fn tagged_all(
    recs: Seq<GpuMaterial>,
    meshes: Seq<TerrainMesh>,
    names: Seq<Seq<char>>,
    k: nat,
) -> Seq<GpuMaterial>
    decreases k,
{
    if k == 0 {
        recs
    } else {
        let p = tagged_all(recs, meshes, names, (k - 1) as nat);
        let m = meshes[k - 1];
        match slice_of(m.name@, names, 0) {
            Some(s) => tagged_parts(p, m.materials@, s as u32, m.materials@.len()),
            None => p,
        }
    }
}

/// Tag the materials of terrain instances.
pub fn tag_terrain(recs: &mut Vec<GpuMaterial>, meshes: &Vec<TerrainMesh>, names: &Vec<String>)
    requires
        names@.len() <= 16,
    ensures
        final(recs)@ == tagged_all(old(recs)@, meshes@, texts(names@), meshes@.len()),
        final(recs)@.len() == old(recs)@.len(),
{
    let ghost ns = texts(names@);
    let mut k: usize = 0;
    while k < meshes.len()
        invariant
            k <= meshes@.len(),
            names@.len() <= 16,
            ns == texts(names@),
            recs@ == tagged_all(old(recs)@, meshes@, ns, k as nat),
            recs@.len() == old(recs)@.len(),
        decreases meshes@.len() - k,
    {
        let m = &meshes[k];
        let ghost p = recs@;
        let mut s: usize = 0;
        while s < names.len() && !token_match(m.name.as_str(), names[s].as_str())
            invariant
                s <= names@.len(),
                ns == texts(names@),
                slice_of(m.name@, ns, 0) == slice_of(m.name@, ns, s as int),
            decreases names@.len() - s,
        {
            s = s + 1;
        }
        if s < names.len() {
            let mut j: usize = 0;
            while j < m.materials.len()
                invariant
                    j <= m.materials@.len(),
                    s < 16,
                    recs@ == tagged_parts(p, m.materials@, s as u32, j as nat),
                    recs@.len() == old(recs)@.len(),
                decreases m.materials@.len() - j,
            {
                let mid: usize = m.materials[j] as usize;
                if mid < recs.len() {
                    let r = recs[mid];
                    recs.set(
                        mid,
                        GpuMaterial {
                            flags: MatClass { terrain: true, detail: false, rfa: false, ..r.flags },
                            detail_flags: 0,
                            emissive_index: NO_EMISSIVE,
                            slot: s as u32,
                            roughness: F32 { bits: 0x3f73_3333 },
                            ..r
                        },
                    );
                }
                j = j + 1;
            }
        }
        k = k + 1;
    }
}

/// Terrain never enters the detail path, never glows and never takes its roughness from its texture.
pub open spec fn terrain_is_plain(r: GpuMaterial) -> bool {
    r.flags.terrain ==> !r.flags.detail && !r.flags.rfa && r.detail_flags == 0 && r.emissive_index
        == NO_EMISSIVE
}

proof fn tagged_parts_plain(recs: Seq<GpuMaterial>, mats: Seq<u32>, slice: u32, k: nat, i: int)
    requires
        0 <= i < recs.len(),
        terrain_is_plain(recs[i]),
        k <= mats.len(),
    ensures
        tagged_parts(recs, mats, slice, k).len() == recs.len(),
        terrain_is_plain(tagged_parts(recs, mats, slice, k)[i]),
    decreases k,
{
    if k > 0 {
        tagged_parts_plain(recs, mats, slice, (k - 1) as nat, i);
    }
}

/// Tagging keeps every record that is a terrain tile plain: whatever was a detail map, a glow or a
/// roughness of its own is gone from it.
pub proof fn tagged_terrain_is_plain(
    recs: Seq<GpuMaterial>,
    meshes: Seq<TerrainMesh>,
    names: Seq<Seq<char>>,
    k: nat,
    i: int,
)
    requires
        0 <= i < recs.len(),
        terrain_is_plain(recs[i]),
        k <= meshes.len(),
    ensures
        tagged_all(recs, meshes, names, k).len() == recs.len(),
        terrain_is_plain(tagged_all(recs, meshes, names, k)[i]),
    decreases k,
{
    if k > 0 {
        tagged_terrain_is_plain(recs, meshes, names, (k - 1) as nat, i);
        let p = tagged_all(recs, meshes, names, (k - 1) as nat);
        let m = meshes[k - 1];
        match slice_of(m.name@, names, 0) {
            Some(s) => {
                tagged_parts_plain(p, m.materials@, s as u32, m.materials@.len(), i);
            },
            None => {},
        }
    }
}

} // verus!
