//! The instanced render path: one draw for each mesh that has instances.
use vstd::prelude::*;
use crate::gpu::draw::Attribute;
use crate::gpu::materials::V4;

verus! {

/// An instance of a pack: its transform by rows, its flags, and whether it is the shell that is shown
/// without a choice of detail.
#[derive(Clone, Copy, Debug, PartialEq, Eq, Structural)]
pub struct PackInstance {
    pub m0: V4,
    pub m1: V4,
    pub m2: V4,
    pub flags: u32,
    pub default_lod: bool,
}

/// The record of an instance on the GPU. The last three words are reserved.
#[derive(Clone, Copy, Debug, PartialEq, Eq, Structural)]
pub struct InstanceData {
    pub m0: V4,
    pub m1: V4,
    pub m2: V4,
    pub flags: u32,
}

/// The bytes of a record.
pub const INSTANCE_STRIDE: u32 = 64;

/// A mesh, as far as this path looks at it.
#[derive(Clone, Copy, Debug, PartialEq, Eq, Structural)]
pub struct MeshSize {
    /// Whether it can be decoded.
    pub decoded: bool,
    pub positions: usize,
    pub indices: usize,
}

/// A draw: a mesh, and the records of its instances.
#[derive(Debug)]
pub struct InstancedMesh {
    pub mesh: usize,
    pub data: Vec<InstanceData>,
}

/// What draws stand for.
pub open spec fn draw_views(v: Seq<InstancedMesh>) -> Seq<(int, Seq<InstanceData>)> {
    Seq::new(v.len(), |i: int| (v[i].mesh as int, v[i].data@))
}

/// The record of an instance.
pub open spec fn record_of(p: PackInstance) -> InstanceData {
    InstanceData { m0: p.m0, m1: p.m1, m2: p.m2, flags: p.flags }
}

/// The records of the first `n` instances of a list, those of the default shell.
pub open spec fn records(ids: Seq<u32>, all: Seq<PackInstance>, n: nat) -> Seq<InstanceData>
    decreases n,
{
    if n == 0 {
        seq![]
    } else {
        let rest = records(ids, all, (n - 1) as nat);
        let p = all[ids[n - 1] as int];
        if p.default_lod {
            rest.push(record_of(p))
        } else {
            rest
        }
    }
}

/// Whether a mesh is drawn: it has instances, can be decoded and is not empty.
pub open spec fn drawn(ids: Seq<u32>, m: MeshSize) -> bool {
    ids.len() > 0 && m.decoded && m.positions > 0 && m.indices > 0
}

/// The draws of the first `n` meshes.
pub open spec fn draws(by_mesh: Seq<Vec<u32>>, meshes: Seq<MeshSize>, all: Seq<PackInstance>, n: nat) -> Seq<
    (int, Seq<InstanceData>),
>
    decreases n,
{
    if n == 0 {
        seq![]
    } else {
        let rest = draws(by_mesh, meshes, all, (n - 1) as nat);
        let ids = by_mesh[n - 1]@;
        if drawn(ids, meshes[n - 1]) {
            rest.push((n - 1, records(ids, all, ids.len())))
        } else {
            rest
        }
    }
}

fn collect_records(ids: &Vec<u32>, all: &Vec<PackInstance>) -> (r: Vec<InstanceData>)
    requires
        forall|i: int| 0 <= i < ids@.len() ==> (#[trigger] ids@[i]) < all@.len(),
    ensures
        r@ == records(ids@, all@, ids@.len()),
{
    let mut r: Vec<InstanceData> = Vec::new();
    let n: usize = ids.len();
    let mut i: usize = 0;
    while i < n
        invariant
            i <= n,
            n == ids@.len(),
            forall|k: int| 0 <= k < ids@.len() ==> (#[trigger] ids@[k]) < all@.len(),
            r@ == records(ids@, all@, i as nat),
        decreases n - i,
    {
        assert(all@.len() == all.len());
        let p = all[ids[i] as usize];
        if p.default_lod {
            r.push(InstanceData { m0: p.m0, m1: p.m1, m2: p.m2, flags: p.flags });
        }
        i = i + 1;
    }
    r
}

/// The draws of a pack: `by_mesh` lists the instances of each mesh.
pub fn spawn_pack_entities(by_mesh: &Vec<Vec<u32>>, meshes: &Vec<MeshSize>, all: &Vec<PackInstance>) -> (r: Vec<
    InstancedMesh,
>)
    requires
        by_mesh@.len() == meshes@.len(),
        forall|k: int, i: int|
            0 <= k < by_mesh@.len() && 0 <= i < by_mesh@[k]@.len() ==> (#[trigger] by_mesh@[k]@[i]) < all@.len(),
    ensures
        draw_views(r@) == draws(by_mesh@, meshes@, all@, meshes@.len()),
{
    let mut r: Vec<InstancedMesh> = Vec::new();
    let n: usize = meshes.len();
    let mut k: usize = 0;
    proof {
        assert(draw_views(r@) =~= draws(by_mesh@, meshes@, all@, 0));
    }
    while k < n
        invariant
            k <= n,
            n == meshes@.len(),
            by_mesh@.len() == n,
            forall|m: int, i: int|
                0 <= m < by_mesh@.len() && 0 <= i < by_mesh@[m]@.len() ==> (#[trigger] by_mesh@[m]@[i])
                    < all@.len(),
            draw_views(r@) == draws(by_mesh@, meshes@, all@, k as nat),
        decreases n - k,
    {
        let m = meshes[k];
        let ids = &by_mesh[k];
        if ids.len() > 0 && m.decoded && m.positions > 0 && m.indices > 0 {
            proof {
                assert forall|i: int| 0 <= i < ids@.len() implies (#[trigger] ids@[i]) < all@.len() by {
                    assert(by_mesh@[k as int]@[i] == ids@[i]);
                }
            }
            let data = collect_records(ids, all);
            let ghost before = r@;
            let ghost found = data@;
            r.push(InstancedMesh { mesh: k, data });
            proof {
                assert(draw_views(r@) =~= draw_views(before).push((k as int, found)));
            }
        }
        k = k + 1;
    }
    r
}

/// The attributes of a record: the three rows of the transform, and the flags.
pub open spec fn instance_attributes() -> Seq<Attribute> {
    seq![
        Attribute { words: 4, offset: 0, location: 3, integer: false },
        Attribute { words: 4, offset: 16, location: 4, integer: false },
        Attribute { words: 4, offset: 32, location: 5, integer: false },
        Attribute { words: 4, offset: 48, location: 6, integer: true },
    ]
}

/// The attributes of a record.
pub fn instance_layout() -> (r: Vec<Attribute>)
    ensures
        r@ == instance_attributes(),
{
    let r = vec![
        Attribute { words: 4, offset: 0, location: 3, integer: false },
        Attribute { words: 4, offset: 16, location: 4, integer: false },
        Attribute { words: 4, offset: 32, location: 5, integer: false },
        Attribute { words: 4, offset: 48, location: 6, integer: true },
    ];
    proof {
        assert(r@ =~= instance_attributes());
    }
    r
}

/// The attributes follow each other without gap and fill the record.
pub proof fn attributes_fill_the_record(i: int)
    requires
        0 <= i < 4,
    ensures
        instance_attributes()[0].offset == 0,
        i < 3 ==> instance_attributes()[i].offset + 4 * instance_attributes()[i].words
            == instance_attributes()[i + 1].offset,
        instance_attributes()[3].offset + 4 * instance_attributes()[3].words == INSTANCE_STRIDE,
{
}

} // verus!
