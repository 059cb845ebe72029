//! What holds of every picture and of every way back: who gets which gradient, how much
//! work each kernel is given, and what the kernels are told.

use crate::camera::{CameraView, UVec2};
use crate::config::SplatRenderMode;
use crate::gpu::{bindings, groups_of, Buffer, Dispatch, GpuOp, GroupLayout, Kernel, Shape};
use crate::message::Vec3Bits;
use crate::num::{lemma_bit_length, lemma_ceil_div};
use crate::render::{
    defers_project, defers_rasterize, project_ops, projects, rasterize_ops, rasterizes, sh_coeffs,
    sh_degree, tile_bounds, tile_count, ProjectHandles, ProjectOp, ProjectPlan, ProjectUniforms,
    RasterizeMode, RasterizeOp, RasterizePlan, ShaderLayout, SplatShapes,
};
use crate::render_aux::{
    first_tile_fault, first_unknown, intersections, tile_depth, Fault, ProjectOutput,
};
use crate::render_bwd::{
    backward_launches, backward_ops, backward_state, backward_steps, clear_ops, defers_project_bwd,
    defers_rasterize_bwd, first_steps, gather_ops, last_steps, parents, registrations, saved,
    split_ops, BackwardInputs, BackwardStep, Parent, ProjectBwdOp, RasterizeBwdOp, RasterizeGrads,
    RenderStep,
};
use vstd::arithmetic::power2::pow2;
use vstd::prelude::*;

verus! {

/// Every input that wants a gradient is handed the one that was computed for it, and an
/// input that wants none is handed nothing. Everything is computed before anything is
/// handed out, no input is handed two gradients, and no gradient goes to two inputs.
pub proof fn law_own_gradient(wanted: Seq<bool>)
    requires
        wanted.len() == 6,
    ensures
        ({
            let steps = backward_steps(wanted);
            &&& wanted[0] <==> steps.contains(
                BackwardStep::Register { parent: Parent::Means, gradient: Buffer::VMeans },
            )
            &&& wanted[1] <==> steps.contains(
                BackwardStep::Register {
                    parent: Parent::RefineWeight,
                    gradient: Buffer::VRefineWeight,
                },
            )
            &&& wanted[2] <==> steps.contains(
                BackwardStep::Register { parent: Parent::LogScales, gradient: Buffer::VScales },
            )
            &&& wanted[3] <==> steps.contains(
                BackwardStep::Register { parent: Parent::Quats, gradient: Buffer::VQuats },
            )
            &&& wanted[4] <==> steps.contains(
                BackwardStep::Register { parent: Parent::Coeffs, gradient: Buffer::VCoeffs },
            )
            &&& wanted[5] <==> steps.contains(
                BackwardStep::Register { parent: Parent::RawOpacity, gradient: Buffer::VRawOpac },
            )
            &&& forall|i: int|
                3 <= i < steps.len() ==> match #[trigger] steps[i] {
                    BackwardStep::Register { parent, gradient } => match parent {
                        Parent::Means => gradient is VMeans,
                        Parent::RefineWeight => gradient is VRefineWeight,
                        Parent::LogScales => gradient is VScales,
                        Parent::Quats => gradient is VQuats,
                        Parent::Coeffs => gradient is VCoeffs,
                        Parent::RawOpacity => gradient is VRawOpac,
                    },
                    _ => false,
                }
            &&& forall|i: int, j: int|
                3 <= i < j < steps.len() ==> (#[trigger] steps[i])->parent != (
                #[trigger] steps[j])->parent && steps[i]->gradient != steps[j]->gradient
            &&& steps.len() >= 3
            &&& steps[0] is ConsumeOutput
            &&& steps[1] is RasterizeBwd
            &&& steps[2] is ProjectBwd
        }),
{
    let steps = backward_steps(wanted);
    let list = registrations(wanted, 6);
    lemma_registered(wanted, 6);
    assert forall|i: int| 3 <= i < steps.len() implies #[trigger] steps[i] == list[i - 3] by {}
    assert forall|i: int, j: int| 3 <= i < j < steps.len() implies (#[trigger] steps[i])->parent
        != (#[trigger] steps[j])->parent && steps[i]->gradient != steps[j]->gradient by {
        let a = list[i - 3];
        let b = list[j - 3];
        assert(place_of(a->parent) < place_of(b->parent));
    }
    assert forall|k: int| 0 <= k < 6 implies (wanted[k] <==> steps.contains(
        #[trigger] own_step(k),
    )) by {
        if wanted[k] {
            let i = choose|i: int| 0 <= i < list.len() && list[i] == own_step(k);
            assert(list[i] == own_step(k));
            assert(steps[i + 3] == own_step(k));
        }
        if steps.contains(own_step(k)) {
            let i = choose|i: int| 0 <= i < steps.len() && steps[i] == own_step(k);
            assert(i >= 3);
            assert(list[i - 3] == own_step(k));
        }
    }
    assert(wanted[0] <==> steps.contains(own_step(0)));
    assert(wanted[1] <==> steps.contains(own_step(1)));
    assert(wanted[2] <==> steps.contains(own_step(2)));
    assert(wanted[3] <==> steps.contains(own_step(3)));
    assert(wanted[4] <==> steps.contains(own_step(4)));
    assert(wanted[5] <==> steps.contains(own_step(5)));
}

/// Where an input stands in the list of inputs.
spec fn place_of(parent: Parent) -> int {
    match parent {
        Parent::Means => 0,
        Parent::RefineWeight => 1,
        Parent::LogScales => 2,
        Parent::Quats => 3,
        Parent::Coeffs => 4,
        Parent::RawOpacity => 5,
    }
}

/// How the input at a place gets its gradient.
spec fn own_step(k: int) -> BackwardStep {
    if k == 0 {
        BackwardStep::Register { parent: Parent::Means, gradient: Buffer::VMeans }
    } else if k == 1 {
        BackwardStep::Register { parent: Parent::RefineWeight, gradient: Buffer::VRefineWeight }
    } else if k == 2 {
        BackwardStep::Register { parent: Parent::LogScales, gradient: Buffer::VScales }
    } else if k == 3 {
        BackwardStep::Register { parent: Parent::Quats, gradient: Buffer::VQuats }
    } else if k == 4 {
        BackwardStep::Register { parent: Parent::Coeffs, gradient: Buffer::VCoeffs }
    } else {
        BackwardStep::Register { parent: Parent::RawOpacity, gradient: Buffer::VRawOpac }
    }
}

proof fn lemma_registered(wanted: Seq<bool>, n: int)
    requires
        wanted.len() == 6,
        0 <= n <= 6,
    ensures
        ({
            let list = registrations(wanted, n);
            &&& forall|i: int|
                0 <= i < list.len() ==> {
                    &&& (#[trigger] list[i]) is Register
                    &&& 0 <= place_of(list[i]->parent) < n
                    &&& wanted[place_of(list[i]->parent)]
                    &&& list[i] == own_step(place_of(list[i]->parent))
                }
            &&& forall|i: int, j: int|
                0 <= i < j < list.len() ==> place_of((#[trigger] list[i])->parent) < place_of(
                    (#[trigger] list[j])->parent,
                )
            &&& forall|k: int|
                0 <= k < n && #[trigger] wanted[k] ==> exists|i: int|
                    0 <= i < list.len() && list[i] == own_step(k)
        }),
    decreases n,
{
    if n > 0 {
        lemma_registered(wanted, n - 1);
        let before = registrations(wanted, n - 1);
        let list = registrations(wanted, n);
        let parent = parents()[n - 1];
        assert(place_of(parent) == n - 1);
        assert forall|k: int| 0 <= k < n && #[trigger] wanted[k] implies exists|i: int|
            0 <= i < list.len() && list[i] == own_step(k) by {
            if k < n - 1 {
                let i = choose|i: int| 0 <= i < before.len() && before[i] == own_step(k);
                assert(list[i] == own_step(k));
            } else {
                assert(list[list.len() - 1] == own_step(k));
            }
        }
    }
}

/// The kernels write each gradient where the parameter that it belongs to says: the one
/// that goes back through the projection gets means, scales and rotations, and the places
/// of their gradients in the same order; the one that goes back through the tiles gets the
/// places for opacities and for the wish to be refined. No kernel gets a buffer twice.
pub proof fn law_kernels_of_the_way_back(
    hard_float: bool,
    webgpu: bool,
    render_depth: bool,
    i: int,
    j: int,
)
    ensures
        ({
            let project = bindings(Kernel::ProjectBackwards { render_depth });
            let tiles = bindings(Kernel::RasterizeBackwards { hard_float, webgpu, render_depth });
            &&& project[1] is Means && project[6] is VMeans
            &&& project[2] is LogScales && project[7] is VScales
            &&& project[3] is Quats && project[8] is VQuats
            &&& project[9] is VCoeffs
            &&& project[5] is VGrads && tiles[7] is VGrads
            &&& tiles[8] is VRawOpac
            &&& tiles[9] is VRefineWeight
            &&& project[0] is Uniforms && tiles[0] is Uniforms
            &&& project[4] is GlobalFromCompactGid && tiles[2] is GlobalFromCompactGid
            &&& tiles[1] is SortedCompactGids
            &&& tiles[3] is TileOffsets
            &&& tiles[4] is ProjectedSplats
            &&& render_depth ==> {
                &&& project.len() == 12 && tiles.len() == 14
                &&& project[10] is VNormals && project[11] is VPlaneDistances
                &&& tiles[5] is OutColor && tiles[6] is VOutColor
                &&& tiles[10] is OutNormal && tiles[12] is VOutNormal
                &&& tiles[11] is OutDistance && tiles[13] is VOutDepth
            }
            &&& !render_depth ==> {
                &&& project.len() == 10 && tiles.len() == 10
                &&& tiles[5] is OutImg && tiles[6] is VOutput
            }
            &&& 0 <= i < j < project.len() ==> project[i] != project[j]
            &&& 0 <= i < j < tiles.len() ==> tiles[i] != tiles[j]
        }),
{
}

/// The kernels of the way there: culling gets the parameters and writes numbers, depths
/// and a count; projecting works on the splats in their sorted order; listing writes the
/// pairs that are sorted next; and the tiles are drawn from the sorted lists. What only
/// the way back needs is bound only for it, and the mask only where errors are counted.
pub proof fn law_kernels_of_the_way_there(
    mip: bool,
    bwd_info: bool,
    high_error_info: bool,
    i: int,
    j: int,
)
    ensures
        ({
            let cull = bindings(Kernel::ProjectSplats { mip });
            let project = bindings(Kernel::ProjectVisible { mip });
            let list = bindings(Kernel::MapGaussiansToIntersect);
            let offsets = bindings(Kernel::GetTileOffsets);
            let draw = bindings(Kernel::Rasterize { bwd_info, high_error_info });
            &&& cull.len() == 7
            &&& cull[0] is Means && cull[1] is Quats && cull[2] is LogScales
            &&& cull[3] is RawOpacities && cull[4] is GlobalFromPresortGid
            &&& cull[5] is Depths && cull[6] is NumVisible
            &&& project.len() == 9
            &&& project[0] is NumVisible && project[1] is Means && project[2] is LogScales
            &&& project[3] is Quats && project[4] is ShCoeffs && project[5] is RawOpacities
            &&& project[6] is GlobalFromCompactGid && project[7] is ProjectedSplats
            &&& project[8] is SplatIntersectCounts
            &&& list.len() == 5
            &&& list[0] is NumVisible && list[1] is ProjectedSplats && list[2] is CumTilesHit
            &&& list[3] is TileIdFromIsect && list[4] is CompactGidFromIsect
            &&& offsets.len() == 3
            &&& offsets[0] is SortedTileIds && offsets[1] is TileOffsets
            &&& offsets[2] is NumIntersections
            &&& draw[0] is SortedCompactGids && draw[1] is TileOffsets
            &&& draw[2] is ProjectedSplats && draw[3] is OutImg
            &&& draw.len() == 4 + (if bwd_info {
                2int
            } else {
                0
            }) + (if bwd_info && high_error_info {
                2int
            } else {
                0
            })
            &&& bwd_info ==> draw[4] is GlobalFromCompactGid && draw[5] is Visible
            &&& bwd_info && high_error_info ==> draw[6] is HighErrorMask && draw[7]
                is HighErrorCount
        }),
{
}

/// A pass that goes back through the projection is told where every gradient goes: each
/// under its own name, with the shape of the parameter that it belongs to.
pub proof fn law_way_back_is_told(
    op: ProjectBwdOp,
    n: usize,
    project_uniforms: ProjectUniforms,
    degree: u32,
    render_mode: SplatRenderMode,
    incoming: RasterizeGrads,
)
    requires
        defers_project_bwd(op, n, project_uniforms, degree, render_mode, incoming),
        (degree + 1) * (degree + 1) <= u32::MAX,
    ensures
        ({
            let call = op.call();
            let out = op.desc.outputs@;
            &&& call.means is Means && call.log_scales is LogScales && call.quats is Quats
            &&& call.raw_opac is RawOpacities && call.num_visible is NumVisible
            &&& call.global_from_compact_gid is GlobalFromCompactGid
            &&& call.project_uniforms == project_uniforms
            &&& call.sh_degree == degree
            &&& call.render_mode == render_mode
            &&& call.rasterize_grads == incoming
            &&& call.grads.v_means is VMeans && call.grads.v_quats is VQuats
            &&& call.grads.v_scales is VScales && call.grads.v_coeffs is VCoeffs
            &&& call.grads.v_raw_opac is VRawOpac && call.grads.v_refine_weight is VRefineWeight
            &&& call.grads.v_normals is None && call.grads.v_plane_distances is None
            &&& out.len() == 6
            &&& forall|i: int| 0 <= i < 6 ==> (#[trigger] out[i]).1.dtype is F32
            &&& out[0].1.shape == (Shape::D2 { a: n, b: 3 })
            &&& out[1].1.shape == (Shape::D2 { a: n, b: 4 })
            &&& out[2].1.shape == (Shape::D2 { a: n, b: 3 })
            &&& out[3].1.shape matches Shape::D3 { a, b, c } && a == n && b == (degree + 1) * (
            degree + 1) && c == 3
            &&& out[4].1.shape == (Shape::D1 { a: n })
            &&& out[5].1.shape == (Shape::D1 { a: n })
        }),
{
}

/// A pass that goes back through the tiles is told what was drawn, what it was drawn from
/// and what was wanted instead; its gradients are for all projected splats.
pub proof fn law_way_back_through_tiles_is_told(
    op: RasterizeBwdOp,
    n: usize,
    background: Vec3Bits,
    img_size: UVec2,
)
    requires
        defers_rasterize_bwd(op, n, background, img_size),
    ensures
        ({
            let call = op.call();
            let out = op.desc.outputs@;
            &&& call.v_output is VOutput && call.out_img is OutImg
            &&& call.projected_splats is ProjectedSplats
            &&& call.global_from_compact_gid is GlobalFromCompactGid
            &&& call.compact_gid_from_isect is SortedCompactGids
            &&& call.tile_offsets is TileOffsets
            &&& call.background == background
            &&& call.img_size == img_size
            &&& call.grads.v_projected_splats is VProjectedSplats
            &&& call.grads.v_raw_opac is VRawOpacIn
            &&& call.grads.v_refine_weight is VRefineWeightIn
            &&& out.len() == 3
            &&& forall|i: int| 0 <= i < 3 ==> (#[trigger] out[i]).1.dtype is F32
            &&& out[0].1.shape == (Shape::D2 { a: n, b: 8 })
            &&& out[1].1.shape == (Shape::D1 { a: n })
            &&& out[2].1.shape == (Shape::D1 { a: n })
        }),
{
}

/// Whether so many tiles are as many as it takes to cover so many pixels.
pub open spec fn just_covers(tiles: int, tile_width: u32, pixels: u32) -> bool {
    (tiles - 1) * tile_width < pixels <= tiles * tile_width
}

proof fn lemma_just_covers(img_size: UVec2, tile_width: u32)
    requires
        tile_width > 0,
    ensures
        just_covers(tile_bounds(img_size, tile_width).x as int, tile_width, img_size.x),
        just_covers(tile_bounds(img_size, tile_width).y as int, tile_width, img_size.y),
        tile_bounds(img_size, tile_width).x <= img_size.x,
        tile_bounds(img_size, tile_width).y <= img_size.y,
{
    lemma_ceil_div(img_size.x as int, tile_width as int);
    lemma_ceil_div(img_size.y as int, tile_width as int);
    assert((0 - 1) * tile_width < 0) by (nonlinear_arith)
        requires
            tile_width > 0,
    ;
}

/// The work that is given to the kernels of the second pass, whatever the picture. Where
/// tiles begin and end is looked for among all intersections, which is what the kernel is
/// told, and how many the sorted list holds; each splat that can be seen is listed; and
/// there is a group for each tile.
pub proof fn law_second_pass_work(
    n: usize,
    img_size: UVec2,
    num_intersections: u32,
    mode: RasterizeMode,
    layout: ShaderLayout,
    i: int,
)
    requires
        layout.tile_width > 0,
        tile_count(img_size, layout.tile_width) <= u32::MAX,
        0 <= i < rasterize_ops(n, img_size, num_intersections, mode, layout).len(),
    ensures
        match rasterize_ops(n, img_size, num_intersections, mode, layout)[i] {
            GpuOp::Launch { kernel, dispatch } => match kernel {
                Kernel::GetTileOffsets => dispatch == (Dispatch::Items {
                    count: num_intersections,
                }),
                Kernel::MapGaussiansToIntersect => dispatch == (Dispatch::Counted {
                    by: Buffer::NumVisible,
                }),
                Kernel::Rasterize { bwd_info, high_error_info } => {
                    &&& bwd_info == mode.bwd_info
                    &&& high_error_info == mode.high_error_info
                    &&& dispatch matches Dispatch::Groups { count } && exists|
                        across: int,
                        down: int,
                    |
                        {
                            &&& #[trigger] just_covers(across, layout.tile_width, img_size.x)
                            &&& #[trigger] just_covers(down, layout.tile_width, img_size.y)
                            &&& count == across * down
                        }
                },
                _ => false,
            },
            GpuOp::Constant { buffer, value } => buffer is NumIntersections && value
                == num_intersections,
            GpuOp::Sort { keys, values, sorted_keys, sorted_values, bits, limit } => {
                &&& keys is TileIdFromIsect && sorted_keys is SortedTileIds
                &&& values is CompactGidFromIsect && sorted_values is SortedCompactGids
                &&& limit is None
                &&& bits <= 32
                &&& tile_count(img_size, layout.tile_width) < pow2(bits as nat)
                &&& bits > 0 ==> pow2((bits - 1) as nat) <= tile_count(img_size, layout.tile_width)
            },
            GpuOp::Zeros { buffer, spec } => match buffer {
                Buffer::TileOffsets => spec.dtype is U32 && (spec.shape matches Shape::D3 {
                    a,
                    b,
                    c,
                } && c == 2 && just_covers(a as int, layout.tile_width, img_size.y) && just_covers(
                    b as int,
                    layout.tile_width,
                    img_size.x,
                )),
                Buffer::Visible => mode.bwd_info && spec.dtype is F32 && spec.shape
                    == (Shape::D1 { a: n }),
                Buffer::HighErrorCount => mode.bwd_info && mode.high_error_info && spec.dtype
                    is U32 && spec.shape == (Shape::D1 { a: n }),
                _ => false,
            },
            GpuOp::Empty { buffer, spec } => match buffer {
                Buffer::TileIdFromIsect | Buffer::CompactGidFromIsect => spec.dtype is U32 && (
                spec.shape matches Shape::D1 { a } && (num_intersections > 0 ==> a
                    == num_intersections) && (num_intersections == 0 ==> a == 1)),
                Buffer::OutImg => spec.dtype is F32 && spec.shape == (Shape::D3 {
                    a: img_size.y as usize,
                    b: img_size.x as usize,
                    c: if mode.bwd_info {
                        4
                    } else {
                        1
                    },
                }),
                Buffer::Visible => !mode.bwd_info && spec.dtype is F32 && spec.shape
                    == (Shape::D1 { a: 1 }),
                Buffer::HighErrorCount => !(mode.bwd_info && mode.high_error_info) && spec.dtype
                    is U32 && spec.shape == (Shape::D1 { a: 1 }),
                _ => false,
            },
            _ => false,
        },
{
    lemma_just_covers(img_size, layout.tile_width);
    let t = tile_bounds(img_size, layout.tile_width);
    let num_tiles = (t.x * t.y) as u32;
    assert(0 <= t.x * t.y) by (nonlinear_arith)
        requires
            t.x >= 0,
            t.y >= 0,
    ;
    assert(num_tiles == tile_count(img_size, layout.tile_width));
    lemma_bit_length(num_tiles as nat);
    if num_tiles > 0 {
        crate::render::law_tile_ids_fit(num_tiles, 0);
    }
    assert(just_covers(t.x as int, layout.tile_width, img_size.x) && just_covers(
        t.y as int,
        layout.tile_width,
        img_size.y,
    ));
}

/// The order of the second pass: splats are listed in lists that are there, the lists are
/// sorted, the number of intersections is written, where tiles begin and end is looked for,
/// and the tiles are drawn last. Nothing is done twice.
pub proof fn law_second_pass_order(
    n: usize,
    img_size: UVec2,
    num_intersections: u32,
    mode: RasterizeMode,
    layout: ShaderLayout,
)
    ensures
        ({
            let ops = rasterize_ops(n, img_size, num_intersections, mode, layout);
            &&& ops.len() == 11
            &&& ops[0] matches GpuOp::Empty { buffer, .. } && buffer is TileIdFromIsect
            &&& ops[1] matches GpuOp::Empty { buffer, .. } && buffer is CompactGidFromIsect
            &&& ops[2] matches GpuOp::Launch { kernel, .. } && kernel is MapGaussiansToIntersect
            &&& ops[3] is Sort
            &&& ops[4] matches GpuOp::Zeros { buffer, .. } && buffer is TileOffsets
            &&& ops[5] is Constant
            &&& ops[6] matches GpuOp::Launch { kernel, .. } && kernel is GetTileOffsets
            &&& ops[7] matches GpuOp::Empty { buffer, .. } && buffer is OutImg
            &&& ops[8] matches GpuOp::Zeros { buffer, .. } ==> buffer is Visible
            &&& ops[8] matches GpuOp::Empty { buffer, .. } ==> buffer is Visible
            &&& ops[9] matches GpuOp::Zeros { buffer, .. } ==> buffer is HighErrorCount
            &&& ops[9] matches GpuOp::Empty { buffer, .. } ==> buffer is HighErrorCount
            &&& ops[10] matches GpuOp::Launch { kernel, .. } && kernel is Rasterize
        }),
{
}

/// The work that is given to the kernels of the first pass: culling looks at every splat,
/// and projecting at every splat that can be seen, counted where culling counted them.
/// Splats are sorted by all of their depth, only those that can be seen, and the numbers of
/// tiles that they touch are added up.
pub proof fn law_first_pass_work(n: usize, use_mip: bool, layout: ShaderLayout, i: int)
    requires
        0 <= i < project_ops(n, use_mip, layout).len(),
    ensures
        match project_ops(n, use_mip, layout)[i] {
            GpuOp::Launch { kernel, dispatch } => match kernel {
                Kernel::ProjectSplats { mip } => mip == use_mip && (dispatch
                    matches Dispatch::Items { count } && count == n as int % 0x1_0000_0000),
                Kernel::ProjectVisible { mip } => mip == use_mip && dispatch
                    == (Dispatch::Counted { by: Buffer::NumVisible }),
                _ => false,
            },
            GpuOp::Sort { keys, values, sorted_keys, sorted_values, bits, limit } => {
                &&& keys is Depths && sorted_keys is SortedDepths
                &&& values is GlobalFromPresortGid && sorted_values is GlobalFromCompactGid
                &&& limit == Some(Buffer::NumVisible)
                &&& bits == 32
            },
            GpuOp::PrefixSum { from, to } => from is SplatIntersectCounts && to is CumTilesHit,
            GpuOp::Zeros { buffer, spec } => match buffer {
                Buffer::NumVisible => spec.dtype is U32 && spec.shape == (Shape::D1 { a: 1 }),
                Buffer::GlobalFromPresortGid | Buffer::SplatIntersectCounts => spec.dtype is U32
                    && spec.shape == (Shape::D1 { a: n }),
                _ => false,
            },
            GpuOp::Empty { buffer, spec } => match buffer {
                Buffer::Depths => spec.dtype is F32 && spec.shape == (Shape::D1 { a: n }),
                Buffer::ProjectedSplats => spec.dtype is F32 && spec.shape == (Shape::D2 {
                    a: n,
                    b: layout.proj_size,
                }),
                _ => false,
            },
            GpuOp::Contiguous { buffer } => buffer is Means || buffer is LogScales || buffer
                is Quats || buffer is ShCoeffs || buffer is RawOpacities,
            _ => false,
        },
{
}

/// The order of the first pass: culling, sorting, projecting, adding up.
pub proof fn law_first_pass_order(n: usize, mip: bool, layout: ShaderLayout)
    ensures
        ({
            let ops = project_ops(n, mip, layout);
            &&& ops.len() == 14
            &&& forall|i: int| 0 <= i < 5 ==> (#[trigger] ops[i]) is Contiguous
            &&& forall|i: int, j: int|
                0 <= i < j < 5 ==> #[trigger] ops[i] != #[trigger] ops[j]
            &&& ops[5] matches GpuOp::Zeros { buffer, .. } && buffer is NumVisible
            &&& ops[6] matches GpuOp::Zeros { buffer, .. } && buffer is GlobalFromPresortGid
            &&& ops[7] matches GpuOp::Empty { buffer, .. } && buffer is Depths
            &&& ops[8] matches GpuOp::Launch { kernel, .. } && kernel is ProjectSplats
            &&& ops[9] is Sort
            &&& ops[10] matches GpuOp::Empty { buffer, .. } && buffer is ProjectedSplats
            &&& ops[11] matches GpuOp::Zeros { buffer, .. } && buffer is SplatIntersectCounts
            &&& ops[12] matches GpuOp::Launch { kernel, .. } && kernel is ProjectVisible
            &&& ops[13] is PrefixSum
        }),
{
}

/// Whether a launch gives work to a group for every tile of a picture.
pub open spec fn group_per_tile(dispatch: Dispatch, img_size: UVec2, tile_width: u32) -> bool {
    dispatch matches Dispatch::Groups { count } && exists|across: int, down: int|
        {
            &&& #[trigger] just_covers(across, tile_width, img_size.x)
            &&& #[trigger] just_covers(down, tile_width, img_size.y)
            &&& count == across * down
        }
}

/// The work of the way back: a group for each tile of the picture, and every splat. All
/// that kernels add to is cleared before, and has the shape of what it is the gradient of.
pub proof fn law_way_back_work(inputs: BackwardInputs, tile_width: u32, i: int)
    requires
        tile_width > 0,
        inputs.tiles(tile_width) <= u32::MAX,
        (inputs.sh_degree + 1) * (inputs.sh_degree + 1) <= u32::MAX,
        0 <= i < backward_ops(inputs, tile_width).len(),
    ensures
        match backward_ops(inputs, tile_width)[i] {
            GpuOp::Launch { kernel, dispatch } => match kernel {
                Kernel::RasterizeBackwards { hard_float, webgpu, render_depth } => {
                    &&& hard_float == inputs.hard_floats
                    &&& webgpu == inputs.webgpu
                    &&& render_depth == inputs.render_depth
                    &&& group_per_tile(
                        dispatch,
                        UVec2 {
                            x: (inputs.cols as int % 0x1_0000_0000) as u32,
                            y: (inputs.rows as int % 0x1_0000_0000) as u32,
                        },
                        tile_width,
                    )
                },
                Kernel::ProjectBackwards { render_depth } => {
                    &&& render_depth == inputs.render_depth
                    &&& dispatch matches Dispatch::Items { count } && count
                        == inputs.num_points as int % 0x1_0000_0000
                },
                _ => false,
            },
            GpuOp::Zeros { buffer, spec } => spec.dtype is F32 && match buffer {
                Buffer::VMeans | Buffer::VScales | Buffer::VNormals => spec.shape == (Shape::D2 {
                    a: inputs.num_points,
                    b: 3,
                }),
                Buffer::VQuats => spec.shape == (Shape::D2 { a: inputs.num_points, b: 4 }),
                Buffer::VCoeffs => spec.shape matches Shape::D3 { a, b, c } && a
                    == inputs.num_points && b == (inputs.sh_degree + 1) * (inputs.sh_degree + 1)
                    && c == 3,
                Buffer::VGrads => spec.shape == (Shape::D2 { a: inputs.num_points, b: 12 }),
                Buffer::VRawOpac | Buffer::VPlaneDistances | Buffer::VRefineWeight => spec.shape
                    == (Shape::D1 { a: inputs.num_points }),
                _ => false,
            },
            GpuOp::Channels { from, to, rows, cols, start, end } => {
                &&& inputs.render_depth
                &&& rows == inputs.rows
                &&& cols == inputs.cols
                &&& match to {
                    Buffer::OutColor => from is OutImg && start == 0 && end == 4,
                    Buffer::OutNormal => from is OutImg && start == 4 && end == 8,
                    Buffer::OutDepth => from is OutImg && start == 8 && end == 9,
                    Buffer::OutDistance => from is OutImg && start == 9 && end == 10,
                    Buffer::VOutColor => from is VOutput && start == 0 && end == 4,
                    Buffer::VOutNormal => from is VOutput && start == 4 && end == 7,
                    Buffer::VOutDepth => from is VOutput && start == 8 && end == 9,
                    Buffer::VOutDistance => from is VOutput && start == 9 && end == 10,
                    _ => false,
                }
            },
            GpuOp::Contiguous { buffer } => buffer is VOutput || buffer is Means || buffer
                is LogScales || buffer is Quats || buffer is ProjectedSplats || buffer is Uniforms
                || buffer is SortedCompactGids || buffer is GlobalFromCompactGid || buffer
                is TileOffsets,
            _ => false,
        },
{
    let ops = backward_ops(inputs, tile_width);
    let a = gather_ops();
    let b = clear_ops(inputs.num_points, sh_coeffs(inputs.sh_degree as int) as usize);
    let c = split_ops(inputs);
    let d = backward_launches(inputs, tile_width);
    let size = inputs.img_size();
    lemma_just_covers(size, tile_width);
    let t = tile_bounds(size, tile_width);
    assert(0 <= t.x * t.y) by (nonlinear_arith)
        requires
            t.x >= 0,
            t.y >= 0,
    ;
    assert(just_covers(t.x as int, tile_width, size.x) && just_covers(
        t.y as int,
        tile_width,
        size.y,
    ));
    if i < 9 {
        assert(ops[i] == a[i]);
    } else if i < 18 {
        assert(ops[i] == b[i - 9]);
    } else if i < 18 + c.len() {
        assert(ops[i] == c[i - 18]);
    } else {
        assert(ops[i] == d[i - 18 - c.len()]);
        assert(d[0]->dispatch->Groups_count == t.x * t.y);
        assert(group_per_tile(d[0]->dispatch, size, tile_width));
    }
}

/// The order of the way back: inputs are brought into one piece, gradients are cleared, a
/// picture with depth is taken apart, and the kernels are run: first through the tiles,
/// and after that through the projection. Nothing is done twice.
pub proof fn law_way_back_order(inputs: BackwardInputs, tile_width: u32)
    ensures
        ({
            let ops = backward_ops(inputs, tile_width);
            let parts = if inputs.render_depth {
                8int
            } else {
                0
            };
            &&& ops.len() == 20 + parts
            &&& forall|i: int| 0 <= i < 9 ==> (#[trigger] ops[i]) is Contiguous
            &&& forall|i: int| 9 <= i < 18 ==> (#[trigger] ops[i]) is Zeros
            &&& forall|i: int| 18 <= i < 18 + parts ==> (#[trigger] ops[i]) is Channels
            &&& ops[18 + parts] matches GpuOp::Launch { kernel, .. } && kernel
                is RasterizeBackwards
            &&& ops[19 + parts] matches GpuOp::Launch { kernel, .. } && kernel is ProjectBackwards
            &&& forall|i: int, j: int|
                0 <= i < j < 9 ==> (#[trigger] ops[i])->Contiguous_buffer != (
                #[trigger] ops[j])->Contiguous_buffer
            &&& forall|i: int, j: int|
                9 <= i < j < 18 ==> (#[trigger] ops[i])->Zeros_buffer != (
                #[trigger] ops[j])->Zeros_buffer
            &&& forall|i: int, j: int|
                18 <= i < j < 18 + parts ==> (#[trigger] ops[i])->Channels_to != (
                #[trigger] ops[j])->Channels_to
        }),
{
    let ops = backward_ops(inputs, tile_width);
    let a = gather_ops();
    let b = clear_ops(inputs.num_points, sh_coeffs(inputs.sh_degree as int) as usize);
    let c = split_ops(inputs);
    let d = backward_launches(inputs, tile_width);
    assert forall|i: int| 0 <= i < 9 implies #[trigger] ops[i] == a[i] by {}
    assert forall|i: int| 9 <= i < 18 implies #[trigger] ops[i] == b[i - 9] by {}
    assert forall|i: int| 18 <= i < 18 + c.len() implies #[trigger] ops[i] == c[i - 18] by {}
    assert(ops[18 + c.len() as int] == d[0]);
    assert(ops[19 + c.len() as int] == d[1]);
}

/// Splats can be drawn exactly if there are as many of each parameter, each with its own
/// number of values, and the coefficients are those of harmonics up to some degree that is
/// at most four.
pub proof fn law_drawable(shapes: SplatShapes)
    ensures
        shapes.drawable() <==> exists|n: usize, degree: int|
            {
                &&& 0 <= degree <= 4
                &&& shapes.means == (Shape::D2 { a: n, b: 3 })
                &&& shapes.log_scales == (Shape::D2 { a: n, b: 3 })
                &&& #[trigger] fits_degree(shapes, n, degree)
                &&& shapes.quats == (Shape::D2 { a: n, b: 4 })
                &&& shapes.raw_opacities == (Shape::D1 { a: n })
            },
{
    if shapes.drawable() {
        let degree = shapes.degree()->0 as int;
        crate::render::law_sh_degree(shapes.coeffs() as int % 0x1_0000_0000);
        assert(fits_degree(shapes, shapes.total(), degree));
    }
    assert forall|n: usize, degree: int|
        0 <= degree <= 4 && #[trigger] fits_degree(shapes, n, degree) implies sh_degree(
        shapes.coeffs() as int % 0x1_0000_0000,
    ) == Some(degree as u32) by {
        lemma_square(degree);
    }
}

/// Whether there are coefficients for harmonics up to `degree`, of three colors, for `n`
/// splats.
pub open spec fn fits_degree(shapes: SplatShapes, n: usize, degree: int) -> bool {
    shapes.sh_coeffs matches Shape::D3 { a, b, c } && a == n && b as int % 0x1_0000_0000 == (degree
        + 1) * (degree + 1) && c == 3
}

/// The degree of harmonics is found from their number exactly where that is the square of
/// the degree and one, and the degree is at most four.
pub proof fn law_degree_of_coefficients(coeffs: int, degree: u32)
    ensures
        sh_degree(coeffs) == Some(degree) <==> degree <= 4 && (degree + 1) * (degree + 1)
            == coeffs,
{
    if degree <= 4 {
        lemma_square(degree as int);
    }
    if let Some(d) = sh_degree(coeffs) {
        lemma_square(d as int);
    }
}

proof fn lemma_square(d: int)
    requires
        0 <= d <= 4,
    ensures
        d == 0 ==> (d + 1) * (d + 1) == 1,
        d == 1 ==> (d + 1) * (d + 1) == 4,
        d == 2 ==> (d + 1) * (d + 1) == 9,
        d == 3 ==> (d + 1) * (d + 1) == 16,
        d == 4 ==> (d + 1) * (d + 1) == 25,
{
    assert(d == 0 ==> (d + 1) * (d + 1) == 1) by (nonlinear_arith);
    assert(d == 1 ==> (d + 1) * (d + 1) == 4) by (nonlinear_arith);
    assert(d == 2 ==> (d + 1) * (d + 1) == 9) by (nonlinear_arith);
    assert(d == 3 ==> (d + 1) * (d + 1) == 16) by (nonlinear_arith);
    assert(d == 4 ==> (d + 1) * (d + 1) == 25) by (nonlinear_arith);
}

/// What the first pass hands on: the camera as it was given, the size of the picture, the
/// number of splats and the degree of their harmonics, and the buffers that it fills.
pub proof fn law_first_pass_hands_on(
    plan: ProjectPlan,
    shapes: SplatShapes,
    camera: CameraView,
    img_size: UVec2,
    render_mode: SplatRenderMode,
    layout: ShaderLayout,
)
    requires
        projects(plan, shapes, camera, img_size, render_mode, layout),
        shapes.drawable(),
        layout.tile_width > 0,
    ensures
        ({
            let u = plan.output.project_uniforms;
            &&& u.viewmat == camera.viewmat
            &&& u.camera_position.x == camera.position.x
            &&& u.camera_position.y == camera.position.y
            &&& u.camera_position.z == camera.position.z
            &&& u.camera_position.w.bits == 0
            &&& u.focal == camera.focal
            &&& u.pixel_center == camera.center
            &&& u.img_size == img_size
            &&& just_covers(u.tile_bounds.x as int, layout.tile_width, img_size.x)
            &&& just_covers(u.tile_bounds.y as int, layout.tile_width, img_size.y)
            &&& u.sh_degree <= 4
            &&& shapes.sh_coeffs matches Shape::D3 { b, .. } && b as int % 0x1_0000_0000 == (
            u.sh_degree + 1) * (u.sh_degree + 1)
            &&& shapes.means matches Shape::D2 { a, .. } && plan.output.total_splats == a
                && u.total_splats == a as int % 0x1_0000_0000
            &&& u.pad_a == 0 && u.pad_b == 0
            &&& plan.output.img_size == img_size
            &&& plan.output.projected_splats is ProjectedSplats
            &&& plan.output.num_visible is NumVisible
            &&& plan.output.global_from_compact_gid is GlobalFromCompactGid
            &&& plan.output.cum_tiles_hit is CumTilesHit
            &&& forall|i: int|
                0 <= i < plan.ops@.len() ==> ((#[trigger] plan.ops@[i]) matches GpuOp::Launch {
                    kernel: Kernel::ProjectSplats { mip },
                    ..
                } ==> mip == (render_mode is Mip))
            &&& forall|i: int|
                0 <= i < plan.ops@.len() ==> ((#[trigger] plan.ops@[i]) matches GpuOp::Launch {
                    kernel: Kernel::ProjectVisible { mip },
                    ..
                } ==> mip == (render_mode is Mip))
        }),
{
    lemma_just_covers(img_size, layout.tile_width);
    crate::render::law_sh_degree(shapes.coeffs() as int % 0x1_0000_0000);
}

/// What the second pass gives, and what its kernels are told: the tiles that cover the
/// picture, its size, and the color behind all splats with full opacity.
pub proof fn law_second_pass_gives(
    plan: RasterizePlan,
    output: ProjectHandles,
    num_intersections: u32,
    background: Vec3Bits,
    mode: RasterizeMode,
    layout: ShaderLayout,
)
    requires
        rasterizes(plan, output, num_intersections, background, mode, layout),
        layout.tile_width > 0,
    ensures
        plan.map_uniforms.tile_bounds == plan.uniforms.tile_bounds,
        just_covers(
            plan.uniforms.tile_bounds.x as int,
            layout.tile_width,
            output.img_size.x,
        ),
        just_covers(
            plan.uniforms.tile_bounds.y as int,
            layout.tile_width,
            output.img_size.y,
        ),
        plan.uniforms.img_size == output.img_size,
        plan.uniforms.background.x == background.x,
        plan.uniforms.background.y == background.y,
        plan.uniforms.background.z == background.z,
        plan.uniforms.background.w.bits == 0x3f80_0000,
        plan.out_img is OutImg,
        plan.isects is SortedCompactGids,
        plan.aux.num_visible == output.num_visible,
        plan.aux.num_intersections == num_intersections,
        plan.aux.visible is Visible,
        plan.aux.tile_offsets is TileOffsets,
        plan.aux.img_size == output.img_size,
        plan.aux.high_error_count is HighErrorCount,
        exists|i: int|
            0 <= i < plan.ops@.len() && #[trigger] plan.ops@[i] == (GpuOp::Launch {
                kernel: Kernel::GetTileOffsets,
                dispatch: Dispatch::Items { count: num_intersections },
            }),
{
    lemma_just_covers(output.img_size, layout.tile_width);
    assert(plan.ops@[6] == (GpuOp::Launch {
        kernel: Kernel::GetTileOffsets,
        dispatch: Dispatch::Items { count: num_intersections },
    }));
}

/// A pass that is put off keeps what it was asked with, takes what the pass before it
/// gave, and says of every buffer that it will give what it will be like.
pub proof fn law_deferred_passes_declare(
    first: ProjectOp,
    second: RasterizeOp,
    shapes: SplatShapes,
    camera: CameraView,
    img_size: UVec2,
    render_mode: SplatRenderMode,
    output: ProjectHandles,
    num_intersections: u32,
    background: Vec3Bits,
    mode: RasterizeMode,
    layout: ShaderLayout,
)
    requires
        defers_project(first, shapes, camera, img_size, render_mode, layout),
        defers_rasterize(second, output, num_intersections, background, mode, layout),
        layout.tile_width > 0,
    ensures
        first.camera == camera,
        first.img_size == img_size,
        first.render_mode == render_mode,
        first.desc.inputs@.len() == 5,
        first.desc.inputs@[0] is Means,
        first.desc.inputs@[1] is LogScales,
        first.desc.inputs@[2] is Quats,
        first.desc.inputs@[3] is ShCoeffs,
        first.desc.inputs@[4] is RawOpacities,
        first.desc.outputs@.len() == 4,
        first.desc.outputs@[0].0 is ProjectedSplats,
        first.desc.outputs@[1].0 is NumVisible,
        first.desc.outputs@[2].0 is GlobalFromCompactGid,
        first.desc.outputs@[3].0 is CumTilesHit,
        forall|i: int|
            0 <= i < 4 ==> second.desc.inputs@[i] == (#[trigger] first.desc.outputs@[i]).0,
        second.desc.inputs@.len() == 5,
        second.desc.inputs@[4] is HighErrorMask,
        second.img_size == output.img_size,
        second.num_intersections == num_intersections,
        second.background == background,
        second.mode == mode,
        second.project_uniforms == output.project_uniforms,
        second.desc.outputs@.len() == 5,
        second.desc.outputs@[0].0 is OutImg,
        second.desc.outputs@[0].1.dtype is F32 <==> mode.bwd_info,
        second.desc.outputs@[0].1.shape == (Shape::D3 {
            a: output.img_size.y as usize,
            b: output.img_size.x as usize,
            c: if mode.bwd_info {
                4
            } else {
                1
            },
        }),
        second.desc.outputs@[1].0 is TileOffsets,
        second.desc.outputs@[1].1.shape matches Shape::D3 { a, b, c } && c == 2 && just_covers(
            a as int,
            layout.tile_width,
            output.img_size.y,
        ) && just_covers(b as int, layout.tile_width, output.img_size.x),
        second.desc.outputs@[2].0 is SortedCompactGids,
        second.desc.outputs@[2].1.shape matches Shape::D1 { a } && (num_intersections > 0 ==> a
            == num_intersections) && (num_intersections == 0 ==> a == 1),
        second.desc.outputs@[3].0 is Visible,
        second.desc.outputs@[3].1.shape matches Shape::D1 { a } && a == (if mode.bwd_info {
            output.total_splats
        } else {
            1
        }),
        second.desc.outputs@[4].0 is HighErrorCount,
        second.desc.outputs@[4].1.shape matches Shape::D1 { a } && a == (if mode.bwd_info
            && mode.high_error_info {
            output.total_splats
        } else {
            1
        }),
{
    lemma_just_covers(output.img_size, layout.tile_width);
}

/// What is kept of a picture is what it was drawn from and what it was asked with, each
/// under its own name.
pub proof fn law_kept_state(
    output: ProjectHandles,
    render_mode: SplatRenderMode,
    degree: u32,
    background: Vec3Bits,
)
    requires
        output.valid(),
    ensures
        ({
            let state = backward_state(output, render_mode, degree, background);
            &&& state.means is Means && state.quats is Quats && state.log_scales is LogScales
            &&& state.raw_opac is RawOpacities && state.out_img is OutImg
            &&& state.projected_splats is ProjectedSplats && state.num_visible is NumVisible
            &&& state.global_from_compact_gid is GlobalFromCompactGid
            &&& state.compact_gid_from_isect is SortedCompactGids
            &&& state.tile_offsets is TileOffsets
            &&& state.project_uniforms == output.project_uniforms
            &&& state.render_mode == render_mode
            &&& state.sh_degree == degree
            &&& state.background == background
            &&& state.img_size == output.img_size
            &&& saved(state).len() == 10
            &&& forall|i: int, j: int|
                0 <= i < j < 10 ==> #[trigger] saved(state)[i] != #[trigger] saved(state)[j]
        }),
{
}

/// How a picture is drawn: parameters are looked at first, the number of intersections is
/// read behind the first pass and before the second one, from the last of all splats, and
/// something is kept exactly if it can be gone back. The holder that collects the wish to
/// be refined starts with one zero that wants a gradient.
pub proof fn law_render_steps(total_splats: u32, differentiable: bool)
    ensures
        ({
            let steps = first_steps(total_splats) + last_steps(differentiable);
            let kept = if differentiable {
                1int
            } else {
                0
            };
            &&& steps.len() == 8 + kept
            &&& steps[0] is ValidateValues
            &&& steps[1] matches RenderStep::CreateRefineHolder { holder } && holder.requires_grad
                && holder.value.bits == 0 && holder.shape == (Shape::D1 { a: 1 })
            &&& steps[2] is PrepareNodes
            &&& steps[3] is Project
            &&& steps[4] matches RenderStep::ReadLastHit { at } && (total_splats == 0 <==> at
                is None) && (at matches Some(i) ==> i + 1 == total_splats)
            &&& steps[5] is Rasterize
            &&& differentiable ==> steps[6] is SaveState
            &&& steps[6 + kept] == (RenderStep::Finish { differentiable })
            &&& steps[7 + kept] is ValidateAux
        }),
{
}

/// Without splats there are no intersections, and otherwise there are as many as the last
/// splat and those before it touch.
pub proof fn law_intersections(total_splats: u32, hits: u32)
    ensures
        intersections(total_splats, None) == 0,
        intersections(0, Some(hits)) == 0,
        total_splats > 0 ==> intersections(total_splats, Some(hits)) == hits,
{
}

/// The outcome of the first pass passes exactly if no more splats can be seen than there
/// are and each of them is one of those that there are. Otherwise the fault names what is
/// wrong: the counts, or the first number that belongs to no splat.
pub proof fn law_first_pass_faults(output: ProjectOutput, i: int)
    requires
        output.complete(),
    ensures
        ({
            let total = output.project_uniforms.total_splats;
            let gids = output.global_from_compact_gid@;
            let seen = output.num_visible;
            &&& output.fault() is None <==> seen <= total && forall|k: int|
                0 <= k < seen ==> (#[trigger] gids[k]) < total
            &&& seen > total ==> output.fault() == Some(
                Fault::TooManyVisible { num_visible: seen, total_splats: total },
            )
            &&& seen <= total && 0 <= i < seen && gids[i] >= total && (forall|k: int|
                0 <= k < i ==> (#[trigger] gids[k]) < total) ==> output.fault() == Some(
                Fault::UnknownSplat { gid: gids[i], total_splats: total },
            )
        }),
{
    let total = output.project_uniforms.total_splats;
    let gids = output.global_from_compact_gid@;
    let seen = output.num_visible;
    if seen <= total {
        let list = gids.take(seen as int);
        lemma_first_unknown(list, total);
        if output.fault() is None {
            assert forall|k: int| 0 <= k < seen implies (#[trigger] gids[k]) < total by {
                assert(list[k] == gids[k]);
            }
        }
        if forall|k: int| 0 <= k < seen ==> (#[trigger] gids[k]) < total {
            if let Some(gid) = first_unknown(list, total) {
                let k = choose|k: int| 0 <= k < list.len() && list[k] == gid && gid >= total;
                assert(gids[k] >= total);
            }
        }
        if 0 <= i < seen && gids[i] >= total && (forall|k: int|
            0 <= k < i ==> (#[trigger] gids[k]) < total) {
            lemma_first_unknown_at(list, total, i);
        }
    }
}

proof fn lemma_first_unknown(gids: Seq<u32>, total: u32)
    ensures
        match first_unknown(gids, total) {
            None => forall|k: int| 0 <= k < gids.len() ==> (#[trigger] gids[k]) < total,
            Some(gid) => exists|k: int| 0 <= k < gids.len() && gids[k] == gid && gid >= total,
        },
    decreases gids.len(),
{
    if gids.len() > 0 && gids[0] < total {
        let rest = gids.skip(1);
        lemma_first_unknown(rest, total);
        match first_unknown(rest, total) {
            None => {
                assert forall|k: int| 0 <= k < gids.len() implies (#[trigger] gids[k]) < total by {
                    if k > 0 {
                        assert(rest[k - 1] == gids[k]);
                    }
                }
            },
            Some(gid) => {
                let k = choose|k: int| 0 <= k < rest.len() && rest[k] == gid && gid >= total;
                assert(gids[k + 1] == gid);
            },
        }
    }
}

proof fn lemma_first_unknown_at(gids: Seq<u32>, total: u32, i: int)
    requires
        0 <= i < gids.len(),
        gids[i] >= total,
        forall|k: int| 0 <= k < i ==> (#[trigger] gids[k]) < total,
    ensures
        first_unknown(gids, total) == Some(gids[i]),
    decreases i,
{
    if i > 0 {
        let rest = gids.skip(1);
        assert(gids[0] < total);
        assert forall|k: int| 0 <= k < i - 1 implies (#[trigger] rest[k]) < total by {
            assert(gids[k + 1] < total);
        }
        lemma_first_unknown_at(rest, total, i - 1);
    }
}

/// A picture passes exactly if each of its tiles ends no earlier than it begins and holds
/// no more splats than can be seen. Otherwise the fault is that of the first tile that is
/// not so, and gives its numbers.
pub proof fn law_tile_faults(offsets: Seq<u32>, num_visible: u32, tile: int)
    ensures
        first_tile_fault(offsets, 0, num_visible) is None <==> forall|t: int|
            0 <= 2 * t && 2 * t + 1 < offsets.len() ==> offsets[2 * t] <= #[trigger] offsets[2 * t
                + 1] <= offsets[2 * t] + num_visible,
        0 <= 2 * tile && 2 * tile + 1 < offsets.len() && (forall|t: int|
            0 <= t < tile ==> offsets[2 * t] <= #[trigger] offsets[2 * t + 1] <= offsets[2 * t]
                + num_visible) ==> {
            let start = offsets[2 * tile];
            let end = offsets[2 * tile + 1];
            &&& end < start ==> first_tile_fault(offsets, 0, num_visible) == Some(
                Fault::TileReversed { start, end },
            )
            &&& end > start + num_visible ==> first_tile_fault(offsets, 0, num_visible) == Some(
                Fault::TileTooFull { hits: (end - start) as u32, num_visible },
            )
        },
{
    lemma_tiles_pass(offsets, num_visible, 0);
    if 0 <= 2 * tile && 2 * tile + 1 < offsets.len() && (forall|t: int|
        0 <= t < tile ==> offsets[2 * t] <= #[trigger] offsets[2 * t + 1] <= offsets[2 * t]
            + num_visible) {
        lemma_tiles_before(offsets, num_visible, 0, tile);
    }
}

proof fn lemma_tiles_pass(offsets: Seq<u32>, num_visible: u32, from: int)
    requires
        from >= 0,
    ensures
        first_tile_fault(offsets, from, num_visible) is None <==> forall|t: int|
            from <= t && 2 * t + 1 < offsets.len() ==> offsets[2 * t] <= #[trigger] offsets[2 * t
                + 1] <= offsets[2 * t] + num_visible,
    decreases offsets.len() - 2 * from,
{
    if 2 * from + 1 < offsets.len() {
        lemma_tiles_pass(offsets, num_visible, from + 1);
        if offsets[2 * from] <= offsets[2 * from + 1] <= offsets[2 * from] + num_visible {
            if first_tile_fault(offsets, from + 1, num_visible) is None {
                assert forall|t: int| from <= t && 2 * t + 1 < offsets.len() implies offsets[2 * t]
                    <= #[trigger] offsets[2 * t + 1] <= offsets[2 * t] + num_visible by {
                    if t == from {
                    }
                }
            }
        }
    }
}

proof fn lemma_tiles_before(offsets: Seq<u32>, num_visible: u32, from: int, tile: int)
    requires
        0 <= from <= tile,
        2 * tile + 1 < offsets.len(),
        forall|t: int|
            0 <= t < tile ==> offsets[2 * t] <= #[trigger] offsets[2 * t + 1] <= offsets[2 * t]
                + num_visible,
    ensures
        first_tile_fault(offsets, from, num_visible) == first_tile_fault(
            offsets,
            tile,
            num_visible,
        ),
    decreases tile - from,
{
    if from < tile {
        assert(offsets[2 * from] <= offsets[2 * from + 1] <= offsets[2 * from] + num_visible);
        lemma_tiles_before(offsets, num_visible, from + 1, tile);
    }
}

/// Over a tile lie as many splats as there are places from its beginning to its end.
pub proof fn law_tile_depth(start: u32, end: u32)
    ensures
        start <= end ==> tile_depth(start, end) + start == end,
        end < start ==> tile_depth(start, end) + start == end + 0x1_0000_0000,
{
}

/// Each degree of harmonics has two coefficients more than the one before it; the first
/// one has one.
pub proof fn law_coefficients_by_degree(degree: int)
    ensures
        sh_coeffs(0) == 1,
        sh_coeffs(degree + 1) == sh_coeffs(degree) + (2 * (degree + 1) + 1),
{
    assert((degree + 2) * (degree + 2) == (degree + 1) * (degree + 1) + 2 * (degree + 1) + 1)
        by (nonlinear_arith);
}

/// A group of a kernel that looks at splats takes as many of them as it has threads; one
/// that looks for where tiles begin and end has 256 threads, each of which makes several
/// checks. The kernels that work on tiles are not run for items.
pub proof fn law_group_sizes(layout: GroupLayout, kernel: Kernel)
    ensures
        match kernel {
            Kernel::ProjectSplats { .. } => groups_of(kernel, layout)->0.total()
                == layout.project_splats && groups_of(kernel, layout)->0.threads
                == layout.project_splats,
            Kernel::ProjectVisible { .. } => groups_of(kernel, layout)->0.total()
                == layout.project_visible && groups_of(kernel, layout)->0.threads
                == layout.project_visible,
            Kernel::MapGaussiansToIntersect => groups_of(kernel, layout)->0.total()
                == layout.map_gaussians && groups_of(kernel, layout)->0.threads
                == layout.map_gaussians,
            Kernel::ProjectBackwards { .. } => groups_of(kernel, layout)->0.total()
                == layout.project_backwards && groups_of(kernel, layout)->0.threads
                == layout.project_backwards,
            Kernel::GetTileOffsets => groups_of(kernel, layout)->0.total() == 256
                * layout.checks_per_iter && groups_of(kernel, layout)->0.threads == 256,
            _ => groups_of(kernel, layout) is None,
        },
        !(kernel is Rasterize) && !(kernel is RasterizeBackwards) ==> groups_of(kernel, layout)
            is Some,
{
    if let Some(size) = groups_of(kernel, layout) {
        assert(size.threads * 1 == size.threads);
        assert(size.total() == size.threads * size.items_per_thread);
    }
}

} // verus!
