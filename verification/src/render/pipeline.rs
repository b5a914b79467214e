use std::collections::HashMap;
use vstd::prelude::*;

verus! {

broadcast use vstd::std_specs::hash::group_hash_axioms;

/// The meshes that share one pipeline: the key that stands for the
/// pipeline's settings, and the positions of the meshes in load order.
pub struct PipelineGroup {
    pub key: u64,
    pub meshes: Vec<usize>,
}

/// The distinct values of `s`, each at its first occurrence, in order.
pub open spec fn first_occurrences(s: Seq<u64>) -> Seq<u64>
    decreases s.len(),
{
    if s.len() == 0 {
        Seq::empty()
    } else {
        let d = first_occurrences(s.drop_last());
        if d.contains(s.last()) {
            d
        } else {
            d.push(s.last())
        }
    }
}

/// The positions in `s` that hold `k`, in increasing order.
pub open spec fn positions_of(s: Seq<u64>, k: u64) -> Seq<usize>
    decreases s.len(),
{
    if s.len() == 0 {
        Seq::empty()
    } else {
        let p = positions_of(s.drop_last(), k);
        if s.last() == k {
            p.push((s.len() - 1) as usize)
        } else {
            p
        }
    }
}

/// The distinct values are those of the sequence, each once.
proof fn lemma_first_occurrences(s: Seq<u64>)
    ensures
        forall|x: u64| #[trigger] first_occurrences(s).contains(x) <==> s.contains(x),
        first_occurrences(s).no_duplicates(),
    decreases s.len(),
{
    if s.len() > 0 {
        let init = s.drop_last();
        lemma_first_occurrences(init);
        assert(s == init.push(s.last()));
        let d = first_occurrences(init);
        let l = s.last();
        assert forall|x: u64| #[trigger] first_occurrences(s).contains(x) <==> s.contains(x) by {
            if s.contains(x) {
                if x == l {
                    if !d.contains(l) {
                        assert(d.push(l)[d.len() as int] == l);
                    }
                } else {
                    let i = choose|i: int| 0 <= i < s.len() && s[i] == x;
                    assert(init[i] == x);
                    assert(d.contains(x));
                    let j = choose|j: int| 0 <= j < d.len() && d[j] == x;
                    if !d.contains(l) {
                        assert(d.push(l)[j] == x);
                    }
                }
            }
            if first_occurrences(s).contains(x) {
                let j = choose|j: int| 0 <= j < first_occurrences(s).len() && first_occurrences(s)[j] == x;
                if j < d.len() {
                    assert(d[j] == x);
                    assert(d.contains(x));
                    assert(init.contains(x));
                    let i = choose|i: int| 0 <= i < init.len() && init[i] == x;
                    assert(s[i] == x);
                } else {
                    assert(x == l);
                    assert(s[s.len() - 1] == x);
                }
            }
        }
    }
}

/// A value that does not occur has no positions.
proof fn lemma_no_positions(s: Seq<u64>, k: u64)
    requires
        !s.contains(k),
    ensures
        positions_of(s, k) == Seq::<usize>::empty(),
    decreases s.len(),
{
    if s.len() > 0 {
        let init = s.drop_last();
        assert(!init.contains(k)) by {
            if init.contains(k) {
                let i = choose|i: int| 0 <= i < init.len() && init[i] == k;
                assert(s[i] == k);
            }
        }
        assert(s[s.len() - 1] != k);
        lemma_no_positions(init, k);
    }
}

/// How a model's primitives are assembled from their vertices.
#[derive(Clone, Copy, PartialEq, Eq, Structural, Debug)]
pub enum PrimitiveMode {
    Points,
    Lines,
    LineLoop,
    LineStrip,
    Triangles,
    TriangleStrip,
    TriangleFan,
}

/// The primitive topology of a pipeline.
#[derive(Clone, Copy, PartialEq, Eq, Structural, Debug)]
pub enum PrimitiveTopology {
    PointList,
    LineList,
    LineStrip,
    TriangleList,
    TriangleStrip,
    TriangleFan,
}

/// The topology for a primitive mode; a line loop is drawn as a line list.
pub open spec fn topology_spec(mode: PrimitiveMode) -> PrimitiveTopology {
    match mode {
        PrimitiveMode::Points => PrimitiveTopology::PointList,
        PrimitiveMode::Lines => PrimitiveTopology::LineList,
        PrimitiveMode::LineLoop => PrimitiveTopology::LineList,
        PrimitiveMode::LineStrip => PrimitiveTopology::LineStrip,
        PrimitiveMode::Triangles => PrimitiveTopology::TriangleList,
        PrimitiveMode::TriangleStrip => PrimitiveTopology::TriangleStrip,
        PrimitiveMode::TriangleFan => PrimitiveTopology::TriangleFan,
    }
}

/// The topology for a primitive mode.
pub fn conv_primitive_mode(mode: PrimitiveMode) -> (r: PrimitiveTopology)
    ensures
        r == topology_spec(mode),
{
    match mode {
        PrimitiveMode::Points => PrimitiveTopology::PointList,
        PrimitiveMode::Lines => PrimitiveTopology::LineList,
        PrimitiveMode::LineLoop => PrimitiveTopology::LineList,
        PrimitiveMode::LineStrip => PrimitiveTopology::LineStrip,
        PrimitiveMode::Triangles => PrimitiveTopology::TriangleList,
        PrimitiveMode::TriangleStrip => PrimitiveTopology::TriangleStrip,
        PrimitiveMode::TriangleFan => PrimitiveTopology::TriangleFan,
    }
}

/// Which faces a pipeline discards.
#[derive(Clone, Copy, PartialEq, Eq, Structural, Debug)]
pub enum CullMode {
    /// Every face is drawn.
    Off,
    /// Faces turned away from the viewer are discarded.
    Back,
}

/// The cull mode of a material's pipeline: a double-sided material is seen
/// from both sides, so nothing is culled; otherwise back faces are.
pub fn cull_mode_for(double_sided: bool) -> (r: CullMode)
    ensures
        r == (if double_sided {
            CullMode::Off
        } else {
            CullMode::Back
        }),
{
    if double_sided {
        CullMode::Off
    } else {
        CullMode::Back
    }
}

/// The stage a shader entry point is written for.
#[derive(Clone, Copy, PartialEq, Eq, Structural, Debug)]
pub enum ExecutionModel {
    Vertex,
    TessellationControl,
    TessellationEvaluation,
    Geometry,
    Fragment,
    GLCompute,
    Kernel,
    TaskNV,
    MeshNV,
    RayGenerationNV,
    IntersectionNV,
    AnyHitNV,
    ClosestHitNV,
    MissNV,
    CallableNV,
    TaskEXT,
    MeshEXT,
}

/// Pipeline stage flag bits.
pub const STAGE_VERTEX: u32 = 0x1;
pub const STAGE_TESSELLATION_CONTROL: u32 = 0x2;
pub const STAGE_TESSELLATION_EVALUATION: u32 = 0x4;
pub const STAGE_GEOMETRY: u32 = 0x8;
pub const STAGE_FRAGMENT: u32 = 0x10;
pub const STAGE_COMPUTE: u32 = 0x20;
pub const STAGE_TASK: u32 = 0x40;
pub const STAGE_MESH: u32 = 0x80;
pub const STAGE_RAYGEN: u32 = 0x100;
pub const STAGE_ANY_HIT: u32 = 0x200;
pub const STAGE_CLOSEST_HIT: u32 = 0x400;
pub const STAGE_MISS: u32 = 0x800;
pub const STAGE_INTERSECTION: u32 = 0x1000;
pub const STAGE_CALLABLE: u32 = 0x2000;

/// The pipeline stage flag for a shader's execution model (kernels have
/// none).
pub open spec fn stage_spec(model: ExecutionModel) -> u32 {
    match model {
        ExecutionModel::Vertex => STAGE_VERTEX,
        ExecutionModel::TessellationControl => STAGE_TESSELLATION_CONTROL,
        ExecutionModel::TessellationEvaluation => STAGE_TESSELLATION_EVALUATION,
        ExecutionModel::Geometry => STAGE_GEOMETRY,
        ExecutionModel::Fragment => STAGE_FRAGMENT,
        ExecutionModel::GLCompute => STAGE_COMPUTE,
        ExecutionModel::Kernel => 0,
        ExecutionModel::TaskNV => STAGE_TASK,
        ExecutionModel::MeshNV => STAGE_MESH,
        ExecutionModel::RayGenerationNV => STAGE_RAYGEN,
        ExecutionModel::IntersectionNV => STAGE_INTERSECTION,
        ExecutionModel::AnyHitNV => STAGE_ANY_HIT,
        ExecutionModel::ClosestHitNV => STAGE_CLOSEST_HIT,
        ExecutionModel::MissNV => STAGE_MISS,
        ExecutionModel::CallableNV => STAGE_CALLABLE,
        ExecutionModel::TaskEXT => STAGE_TASK,
        ExecutionModel::MeshEXT => STAGE_MESH,
    }
}

/// The place of a graphics stage in the order in which the graphics
/// pipeline runs them; other stages have none.
pub open spec fn graphics_order(model: ExecutionModel) -> Option<int> {
    match model {
        ExecutionModel::Vertex => Some(0),
        ExecutionModel::TessellationControl => Some(1),
        ExecutionModel::TessellationEvaluation => Some(2),
        ExecutionModel::Geometry => Some(3),
        ExecutionModel::Fragment => Some(4),
        _ => None,
    }
}

/// Task shaders, in either of their two names.
pub open spec fn is_task(model: ExecutionModel) -> bool {
    model == ExecutionModel::TaskNV || model == ExecutionModel::TaskEXT
}

/// Mesh shaders, in either of their two names.
pub open spec fn is_mesh(model: ExecutionModel) -> bool {
    model == ExecutionModel::MeshNV || model == ExecutionModel::MeshEXT
}

/// Each stage has a flag of its own: two execution models get the same flag
/// only where they are one stage under two names (task or mesh shaders),
/// and the flags of the graphics stages grow in the order in which the
/// pipeline runs the stages, as the device's stage bits do.
pub proof fn lemma_stage_flags_distinct(m1: ExecutionModel, m2: ExecutionModel)
    requires
        m1 != ExecutionModel::Kernel,
        m2 != ExecutionModel::Kernel,
    ensures
        stage_spec(m1) == stage_spec(m2) ==> m1 == m2 || (is_task(m1) && is_task(m2)) || (is_mesh(m1)
            && is_mesh(m2)),
        (graphics_order(m1) matches Some(o1) && graphics_order(m2) matches Some(o2) && o1 < o2)
            ==> stage_spec(m1) < stage_spec(m2),
        stage_spec(m1) != 0,
{
}

/// The pipeline stage flag for a shader's execution model.
pub fn conv_shader_stage(model: ExecutionModel) -> (r: u32)
    requires
        model != ExecutionModel::Kernel,
    ensures
        r == stage_spec(model),
{
    match model {
        ExecutionModel::Vertex => STAGE_VERTEX,
        ExecutionModel::TessellationControl => STAGE_TESSELLATION_CONTROL,
        ExecutionModel::TessellationEvaluation => STAGE_TESSELLATION_EVALUATION,
        ExecutionModel::Geometry => STAGE_GEOMETRY,
        ExecutionModel::Fragment => STAGE_FRAGMENT,
        ExecutionModel::GLCompute => STAGE_COMPUTE,
        ExecutionModel::Kernel => 0,
        ExecutionModel::TaskNV => STAGE_TASK,
        ExecutionModel::MeshNV => STAGE_MESH,
        ExecutionModel::RayGenerationNV => STAGE_RAYGEN,
        ExecutionModel::IntersectionNV => STAGE_INTERSECTION,
        ExecutionModel::AnyHitNV => STAGE_ANY_HIT,
        ExecutionModel::ClosestHitNV => STAGE_CLOSEST_HIT,
        ExecutionModel::MissNV => STAGE_MISS,
        ExecutionModel::CallableNV => STAGE_CALLABLE,
        ExecutionModel::TaskEXT => STAGE_TASK,
        ExecutionModel::MeshEXT => STAGE_MESH,
    }
}

/// The groups describe `s`: one group per distinct key, in order of first
/// occurrence, each with the positions of its key.
pub open spec fn groups_match(groups: Seq<PipelineGroup>, s: Seq<u64>) -> bool {
    &&& groups.len() == first_occurrences(s).len()
    &&& forall|g: int|
        0 <= g < groups.len() ==> #[trigger] groups[g].key == first_occurrences(s)[g]
            && groups[g].meshes@ == positions_of(s, groups[g].key)
}

/// The positions of `k` are exactly the indices that hold `k`.
proof fn lemma_positions(s: Seq<u64>, k: u64)
    requires
        s.len() <= usize::MAX,
    ensures
        forall|j: usize| #[trigger]
            positions_of(s, k).contains(j) <==> (j < s.len() && s[j as int] == k),
    decreases s.len(),
{
    if s.len() > 0 {
        let init = s.drop_last();
        lemma_positions(init, k);
        let p = positions_of(init, k);
        assert forall|j: usize| #[trigger]
            positions_of(s, k).contains(j) <==> (j < s.len() && s[j as int] == k) by {
            if j < init.len() {
                assert(init[j as int] == s[j as int]);
            }
            if positions_of(s, k).contains(j) {
                let t = choose|t: int|
                    0 <= t < positions_of(s, k).len() && positions_of(s, k)[t] == j;
                if t < p.len() {
                    assert(p[t] == j);
                    assert(p.contains(j));
                }
            }
            if j < s.len() && s[j as int] == k {
                if j < init.len() {
                    assert(p.contains(j));
                    let t = choose|t: int| 0 <= t < p.len() && p[t] == j;
                    if s.last() == k {
                        assert(p.push((s.len() - 1) as usize)[t] == j);
                    }
                } else {
                    assert(j == s.len() - 1);
                    assert(positions_of(s, k) == p.push(j));
                    assert(positions_of(s, k)[p.len() as int] == j);
                }
            }
        }
    }
}

/// Every mesh is in exactly one group, the group of its own key.
pub proof fn lemma_each_mesh_in_one_group(groups: Seq<PipelineGroup>, keys: Seq<u64>, i: usize)
    requires
        groups_match(groups, keys),
        keys.len() <= usize::MAX,
        i < keys.len(),
    ensures
        exists|g: int|
            0 <= g < groups.len() && #[trigger] groups[g].key == keys[i as int]
                && groups[g].meshes@.contains(i),
        forall|g: int|
            0 <= g < groups.len() && #[trigger] groups[g].meshes@.contains(i) ==> groups[g].key
                == keys[i as int],
        forall|g1: int, g2: int|
            0 <= g1 < groups.len() && 0 <= g2 < groups.len() && #[trigger] groups[g1].meshes@.contains(
                i,
            ) && #[trigger] groups[g2].meshes@.contains(i) ==> g1 == g2,
{
    lemma_first_occurrences(keys);
    let k = keys[i as int];
    assert(keys.contains(k));
    assert(first_occurrences(keys).contains(k));
    let g = choose|g: int| 0 <= g < first_occurrences(keys).len() && first_occurrences(keys)[g] == k;
    assert(groups[g].key == k);
    lemma_positions(keys, k);
    assert(groups[g].meshes@.contains(i));
    assert forall|h: int|
        0 <= h < groups.len() && #[trigger] groups[h].meshes@.contains(i) implies groups[h].key
        == keys[i as int] by {
        lemma_positions(keys, groups[h].key);
    }
    assert forall|g1: int, g2: int|
        0 <= g1 < groups.len() && 0 <= g2 < groups.len() && #[trigger] groups[g1].meshes@.contains(i)
            && #[trigger] groups[g2].meshes@.contains(i) implies g1 == g2 by {
        lemma_positions(keys, groups[g1].key);
        lemma_positions(keys, groups[g2].key);
        assert(first_occurrences(keys)[g1] == first_occurrences(keys)[g2]);
    }
}

/// Groups meshes by the pipeline they need: `keys[i]` stands for the pipeline
/// settings of mesh `i`. Meshes with equal keys share a group; a group is
/// made when its key first occurs, and each mesh is appended to its key's
/// group in load order.
pub fn group_meshes_by_pipeline(keys: &[u64]) -> (r: Vec<PipelineGroup>)
    ensures
        groups_match(r@, keys@),
{
    let mut groups: Vec<PipelineGroup> = Vec::new();
    let mut cached_pipeline: HashMap<u64, usize> = HashMap::new();
    let mut i: usize = 0;
    while i < keys.len()
        invariant
            i <= keys@.len(),
            groups_match(groups@, keys@.take(i as int)),
            forall|k: u64|
                #[trigger] cached_pipeline@.contains_key(k) <==> first_occurrences(
                    keys@.take(i as int),
                ).contains(k),
            forall|g: int|
                0 <= g < groups@.len() ==> #[trigger] cached_pipeline@[groups@[g].key] == g,
        decreases keys@.len() - i,
    {
        let key = keys[i];
        let ghost prefix = keys@.take(i as int);
        let ghost next = keys@.take(i + 1);
        proof {
            assert(next == prefix.push(key));
            assert(next.drop_last() == prefix);
            lemma_first_occurrences(prefix);
        }
        match cached_pipeline.get(&key) {
            Some(index) => {
                let g = *index;
                proof {
                    let j = choose|j: int|
                        0 <= j < first_occurrences(prefix).len() && first_occurrences(prefix)[j]
                            == key;
                    assert(groups@[j].key == key);
                    assert(g == j);
                }
                groups[g].meshes.push(i);
                proof {
                    assert forall|h: int| 0 <= h < groups@.len() implies #[trigger] groups@[h].key
                        == first_occurrences(next)[h] && groups@[h].meshes@ == positions_of(
                        next,
                        groups@[h].key,
                    ) by {
                        if h != g {
                            assert(groups@[h].key != key) by {
                                lemma_first_occurrences(prefix);
                                assert(first_occurrences(prefix)[h] != first_occurrences(prefix)[g as int]);
                            }
                        }
                    }
                }
            },
            None => {
                let g = groups.len();
                cached_pipeline.insert(key, g);
                let mut meshes = Vec::new();
                meshes.push(i);
                groups.push(PipelineGroup { key, meshes });
                proof {
                    lemma_no_positions(prefix, key);
                    assert(first_occurrences(next) == first_occurrences(prefix).push(key));
                    assert forall|h: int| 0 <= h < groups@.len() implies #[trigger] groups@[h].key
                        == first_occurrences(next)[h] && groups@[h].meshes@ == positions_of(
                        next,
                        groups@[h].key,
                    ) by {
                        if h < g {
                            assert(groups@[h].key != key);
                        } else {
                            assert(groups@[h].meshes@ =~= seq![i]);
                        }
                    }
                    assert forall|k: u64| #[trigger]
                        cached_pipeline@.contains_key(k) <==> first_occurrences(next).contains(k) by {
                        if k == key {
                            assert(first_occurrences(next)[g as int] == key);
                        } else if first_occurrences(next).contains(k) {
                            let j = choose|j: int|
                                0 <= j < first_occurrences(next).len() && first_occurrences(
                                    next,
                                )[j] == k;
                            assert(first_occurrences(prefix)[j] == k);
                        } else if first_occurrences(prefix).contains(k) {
                            let j = choose|j: int|
                                0 <= j < first_occurrences(prefix).len() && first_occurrences(
                                    prefix,
                                )[j] == k;
                            assert(first_occurrences(next)[j] == k);
                        }
                    }
                    assert forall|h: int| 0 <= h < groups@.len() implies #[trigger] cached_pipeline@[
                        groups@[h].key
                    ] == h by {
                        if h < g {
                            assert(groups@[h].key != key);
                        }
                    }
                }
            },
        }
        i = i + 1;
    }
    proof {
        assert(keys@.take(keys@.len() as int) == keys@);
    }
    groups
}

} // verus!
