//! The way back: from what a picture should have been to what the splats should be.

use crate::camera::{CameraView, UVec2};
use crate::config::SplatRenderMode;
use crate::gpu::{
    bindings, fits_groups, makes, memory_after, performable, runs, takes_apart, Buffer, DType,
    Dispatch, GpuOp, GroupLayout, Kernel, Shape, TensorSpec,
};
use crate::message::Vec3Bits;
use crate::num::{low_u32, F32Bits};
use crate::render::{
    aux_plan, calc_tile_bounds, defers_project, defers_rasterize, delivers, floats, handles, ints,
    project_ops, rasterize_ops, sh_coeffs, sh_coeffs_for_degree, sh_degree, tile_bounds, uniforms,
    AuxPlan, CustomOp, Fusion, ProjectHandles, ProjectOp, ProjectUniforms, RasterizeMode,
    RasterizeOp, ShaderLayout, SplatShapes,
};
use crate::render_aux::{count_intersections, intersections};
use vstd::prelude::*;
use vstd::string::*;

verus! {

/// The number of inputs of the picture that get a gradient.
pub const NUM_BWD_ARGS: usize = 6;

/// What the way back through a picture works on: its rows, columns and channels, the
/// number of splats, and the degree of their harmonics.
#[derive(Clone, Copy, PartialEq, Eq, Structural, Debug)]
pub struct BackwardInputs {
    pub rows: usize,
    pub cols: usize,
    pub num_points: usize,
    pub sh_degree: u32,
    pub render_depth: bool,
    /// Whether the device adds floating-point numbers in one go.
    pub hard_floats: bool,
    /// Whether the device is that of a browser.
    pub webgpu: bool,
}

impl BackwardInputs {
    /// The size of the picture.
    pub open spec fn img_size(self) -> UVec2 {
        UVec2 {
            x: (self.cols as int % 0x1_0000_0000) as u32,
            y: (self.rows as int % 0x1_0000_0000) as u32,
        }
    }

    /// The number of tiles of the picture.
    pub open spec fn tiles(self, tile_width: u32) -> int {
        let t = tile_bounds(self.img_size(), tile_width);
        t.x * t.y
    }
}

/// The gradients of projected splats, as the buffers that hold them.
#[derive(Clone, Copy, PartialEq, Eq, Structural, Debug)]
pub struct RasterizeGrads {
    pub v_projected_splats: Buffer,
    pub v_raw_opac: Buffer,
    pub v_refine_weight: Buffer,
}

/// The gradients of the parameters of splats, as the buffers that hold them. Those of
/// normals and plane distances are there if the way back was gone at once.
#[derive(Clone, Copy, PartialEq, Eq, Structural, Debug)]
pub struct SplatGrads {
    pub v_means: Buffer,
    pub v_quats: Buffer,
    pub v_scales: Buffer,
    pub v_coeffs: Buffer,
    pub v_raw_opac: Buffer,
    pub v_normals: Option<Buffer>,
    pub v_plane_distances: Option<Buffer>,
    pub v_refine_weight: Buffer,
}

/// The gradients of projected splats.
pub open spec fn rasterize_grads() -> RasterizeGrads {
    RasterizeGrads {
        v_projected_splats: Buffer::VProjectedSplats,
        v_raw_opac: Buffer::VRawOpacIn,
        v_refine_weight: Buffer::VRefineWeightIn,
    }
}

/// The gradients of the parameters of splats; `with_planes` says whether those of normals
/// and plane distances are there.
pub open spec fn splat_grads(with_planes: bool) -> SplatGrads {
    SplatGrads {
        v_means: Buffer::VMeans,
        v_quats: Buffer::VQuats,
        v_scales: Buffer::VScales,
        v_coeffs: Buffer::VCoeffs,
        v_raw_opac: Buffer::VRawOpac,
        v_normals: if with_planes {
            Some(Buffer::VNormals)
        } else {
            None
        },
        v_plane_distances: if with_planes {
            Some(Buffer::VPlaneDistances)
        } else {
            None
        },
        v_refine_weight: Buffer::VRefineWeight,
    }
}

/// The way back through a picture: its operations, and the gradients that it gives.
#[derive(Debug)]
pub struct BackwardPlan {
    pub ops: Vec<GpuOp>,
    pub grads: SplatGrads,
}

/// A cleared buffer of floating-point numbers.
pub open spec fn cleared(buffer: Buffer, shape: Shape) -> GpuOp {
    GpuOp::Zeros { buffer, spec: floats(shape) }
}

fn clear(buffer: Buffer, shape: Shape) -> (r: GpuOp)
    ensures
        r == cleared(buffer, shape),
{
    GpuOp::Zeros { buffer, spec: TensorSpec { shape, dtype: DType::F32 } }
}

/// The inputs that are brought into one piece.
pub open spec fn gather_ops() -> Seq<GpuOp> {
    seq![
        GpuOp::Contiguous { buffer: Buffer::VOutput },
        GpuOp::Contiguous { buffer: Buffer::Means },
        GpuOp::Contiguous { buffer: Buffer::LogScales },
        GpuOp::Contiguous { buffer: Buffer::Quats },
        GpuOp::Contiguous { buffer: Buffer::ProjectedSplats },
        GpuOp::Contiguous { buffer: Buffer::Uniforms },
        GpuOp::Contiguous { buffer: Buffer::SortedCompactGids },
        GpuOp::Contiguous { buffer: Buffer::GlobalFromCompactGid },
        GpuOp::Contiguous { buffer: Buffer::TileOffsets },
    ]
}

/// The gradients, before anything is added to them.
pub open spec fn clear_ops(n: usize, coeffs: usize) -> Seq<GpuOp> {
    let row = Shape::D1 { a: n };
    let vectors = Shape::D2 { a: n, b: 3 };
    seq![
        cleared(Buffer::VMeans, vectors),
        cleared(Buffer::VScales, vectors),
        cleared(Buffer::VQuats, Shape::D2 { a: n, b: 4 }),
        cleared(Buffer::VCoeffs, Shape::D3 { a: n, b: coeffs, c: 3 }),
        cleared(Buffer::VRawOpac, row),
        cleared(Buffer::VGrads, Shape::D2 { a: n, b: 12 }),
        cleared(Buffer::VNormals, vectors),
        cleared(Buffer::VPlaneDistances, row),
        cleared(Buffer::VRefineWeight, row),
    ]
}

/// A part of the channels of a picture.
pub open spec fn channels(
    from: Buffer,
    to: Buffer,
    inputs: BackwardInputs,
    start: usize,
    end: usize,
) -> GpuOp {
    GpuOp::Channels { from, to, rows: inputs.rows, cols: inputs.cols, start, end }
}

/// The parts of a picture with depth: color, normal, depth and distance.
pub open spec fn split_ops(inputs: BackwardInputs) -> Seq<GpuOp> {
    if inputs.render_depth {
        seq![
            channels(Buffer::OutImg, Buffer::OutColor, inputs, 0, 4),
            channels(Buffer::OutImg, Buffer::OutNormal, inputs, 4, 8),
            channels(Buffer::OutImg, Buffer::OutDepth, inputs, 8, 9),
            channels(Buffer::OutImg, Buffer::OutDistance, inputs, 9, 10),
            channels(Buffer::VOutput, Buffer::VOutColor, inputs, 0, 4),
            channels(Buffer::VOutput, Buffer::VOutNormal, inputs, 4, 7),
            channels(Buffer::VOutput, Buffer::VOutDepth, inputs, 8, 9),
            channels(Buffer::VOutput, Buffer::VOutDistance, inputs, 9, 10),
        ]
    } else {
        Seq::empty()
    }
}

/// The kernels of the way back.
pub open spec fn backward_launches(inputs: BackwardInputs, tile_width: u32) -> Seq<GpuOp> {
    let render_depth = inputs.render_depth;
    seq![
        GpuOp::Launch {
            kernel: Kernel::RasterizeBackwards {
                hard_float: inputs.hard_floats,
                webgpu: inputs.webgpu,
                render_depth,
            },
            dispatch: Dispatch::Groups { count: inputs.tiles(tile_width) as u32 },
        },
        GpuOp::Launch {
            kernel: Kernel::ProjectBackwards { render_depth },
            dispatch: Dispatch::Items {
                count: (inputs.num_points as int % 0x1_0000_0000) as u32,
            },
        },
    ]
}

/// All operations of the way back.
pub open spec fn backward_ops(inputs: BackwardInputs, tile_width: u32) -> Seq<GpuOp> {
    gather_ops() + clear_ops(inputs.num_points, sh_coeffs(inputs.sh_degree as int) as usize)
        + split_ops(inputs) + backward_launches(inputs, tile_width)
}

fn push_all(out: &mut Vec<GpuOp>, more: Vec<GpuOp>)
    ensures
        final(out)@ == old(out)@ + more@,
{
    let mut i: usize = 0;
    while i < more.len()
        invariant
            i <= more.len(),
            out@ == old(out)@ + more@.take(i as int),
        decreases more.len() - i,
    {
        out.push(more[i]);
        i = i + 1;
        assert(more@.take(i as int) == more@.take(i - 1).push(more@[i - 1]));
    }
    assert(more@.take(more@.len() as int) == more@);
}

/// Lists the operations of the way back through a picture, and says where the gradients
/// are.
pub fn render_backward(inputs: BackwardInputs, tile_width: u32) -> (r: BackwardPlan)
    requires
        tile_width > 0,
        inputs.tiles(tile_width) <= u32::MAX,
        sh_coeffs(inputs.sh_degree as int) <= u32::MAX,
    ensures
        r.ops@ == backward_ops(inputs, tile_width),
        r.grads == splat_grads(true),
{
    let n: usize = inputs.num_points;
    let rows: usize = inputs.rows;
    let cols: usize = inputs.cols;
    let render_depth = inputs.render_depth;
    let img_size = UVec2 { x: low_u32(cols), y: low_u32(rows) };
    let coeffs: usize = sh_coeffs_for_degree(inputs.sh_degree) as usize;
    let row = Shape::D1 { a: n };
    let vectors = Shape::D2 { a: n, b: 3 };
    let mut out = vec![
        GpuOp::Contiguous { buffer: Buffer::VOutput },
        GpuOp::Contiguous { buffer: Buffer::Means },
        GpuOp::Contiguous { buffer: Buffer::LogScales },
        GpuOp::Contiguous { buffer: Buffer::Quats },
        GpuOp::Contiguous { buffer: Buffer::ProjectedSplats },
        GpuOp::Contiguous { buffer: Buffer::Uniforms },
        GpuOp::Contiguous { buffer: Buffer::SortedCompactGids },
        GpuOp::Contiguous { buffer: Buffer::GlobalFromCompactGid },
        GpuOp::Contiguous { buffer: Buffer::TileOffsets },
    ];
    assert(out@ =~= gather_ops());
    let clears = vec![
        clear(Buffer::VMeans, vectors),
        clear(Buffer::VScales, vectors),
        clear(Buffer::VQuats, Shape::D2 { a: n, b: 4 }),
        clear(Buffer::VCoeffs, Shape::D3 { a: n, b: coeffs, c: 3 }),
        clear(Buffer::VRawOpac, row),
        clear(Buffer::VGrads, Shape::D2 { a: n, b: 12 }),
        clear(Buffer::VNormals, vectors),
        clear(Buffer::VPlaneDistances, row),
        clear(Buffer::VRefineWeight, row),
    ];
    assert(clears@ =~= clear_ops(n, coeffs));
    push_all(&mut out, clears);
    let splits = if render_depth {
        let img = Buffer::OutImg;
        let v = Buffer::VOutput;
        vec![
            GpuOp::Channels { from: img, to: Buffer::OutColor, rows, cols, start: 0, end: 4 },
            GpuOp::Channels { from: img, to: Buffer::OutNormal, rows, cols, start: 4, end: 8 },
            GpuOp::Channels { from: img, to: Buffer::OutDepth, rows, cols, start: 8, end: 9 },
            GpuOp::Channels { from: img, to: Buffer::OutDistance, rows, cols, start: 9, end: 10 },
            GpuOp::Channels { from: v, to: Buffer::VOutColor, rows, cols, start: 0, end: 4 },
            GpuOp::Channels { from: v, to: Buffer::VOutNormal, rows, cols, start: 4, end: 7 },
            GpuOp::Channels { from: v, to: Buffer::VOutDepth, rows, cols, start: 8, end: 9 },
            GpuOp::Channels { from: v, to: Buffer::VOutDistance, rows, cols, start: 9, end: 10 },
        ]
    } else {
        Vec::new()
    };
    assert(splits@ =~= split_ops(inputs));
    push_all(&mut out, splits);
    let tiles = calc_tile_bounds(img_size, tile_width);
    let launches = vec![
        GpuOp::Launch {
            kernel: Kernel::RasterizeBackwards {
                hard_float: inputs.hard_floats,
                webgpu: inputs.webgpu,
                render_depth,
            },
            dispatch: Dispatch::Groups { count: tiles.x * tiles.y },
        },
        GpuOp::Launch {
            kernel: Kernel::ProjectBackwards { render_depth },
            dispatch: Dispatch::Items { count: low_u32(n) },
        },
    ];
    assert(launches@ =~= backward_launches(inputs, tile_width));
    push_all(&mut out, launches);
    let grads = SplatGrads {
        v_means: Buffer::VMeans,
        v_quats: Buffer::VQuats,
        v_scales: Buffer::VScales,
        v_coeffs: Buffer::VCoeffs,
        v_raw_opac: Buffer::VRawOpac,
        v_normals: Some(Buffer::VNormals),
        v_plane_distances: Some(Buffer::VPlaneDistances),
        v_refine_weight: Buffer::VRefineWeight,
    };
    BackwardPlan { ops: out, grads }
}

/// What the way back through the second pass takes.
pub open spec fn rasterize_bwd_inputs() -> Seq<Buffer> {
    seq![
        Buffer::VOutput,
        Buffer::OutImg,
        Buffer::ProjectedSplats,
        Buffer::GlobalFromCompactGid,
        Buffer::SortedCompactGids,
        Buffer::TileOffsets,
    ]
}

/// What the way back through the first pass takes.
pub open spec fn project_bwd_inputs(incoming: RasterizeGrads) -> Seq<Buffer> {
    seq![
        Buffer::Means,
        Buffer::LogScales,
        Buffer::Quats,
        Buffer::RawOpacities,
        Buffer::NumVisible,
        Buffer::GlobalFromCompactGid,
        incoming.v_projected_splats,
        incoming.v_raw_opac,
        incoming.v_refine_weight,
    ]
}

/// Gradients of projected splats: for eight values of each, for its opacity, and how
/// much it wants to be refined.
pub open spec fn rasterize_bwd_outputs(n: usize) -> Seq<(Buffer, TensorSpec)> {
    let row = Shape::D1 { a: n };
    seq![
        (Buffer::VProjectedSplats, floats(Shape::D2 { a: n, b: 8 })),
        (Buffer::VRawOpacIn, floats(row)),
        (Buffer::VRefineWeightIn, floats(row)),
    ]
}

/// Gradients of the normals of splats, and of the distances of the planes through them.
pub open spec fn plane_outputs(n: usize) -> Seq<(Buffer, TensorSpec)> {
    seq![
        (Buffer::VNormals, floats(Shape::D2 { a: n, b: 3 })),
        (Buffer::VPlaneDistances, floats(Shape::D1 { a: n })),
    ]
}

/// Gradients of the parameters of splats.
pub open spec fn project_bwd_outputs(n: usize, coeffs: usize) -> Seq<(Buffer, TensorSpec)> {
    let row = Shape::D1 { a: n };
    seq![
        (Buffer::VMeans, floats(Shape::D2 { a: n, b: 3 })),
        (Buffer::VQuats, floats(Shape::D2 { a: n, b: 4 })),
        (Buffer::VScales, floats(Shape::D2 { a: n, b: 3 })),
        (Buffer::VCoeffs, floats(Shape::D3 { a: n, b: coeffs, c: 3 })),
        (Buffer::VRawOpac, floats(row)),
        (Buffer::VRefineWeight, floats(row)),
    ]
}

fn f32_spec(shape: Shape) -> (r: TensorSpec)
    ensures
        r == floats(shape),
{
    TensorSpec { shape, dtype: DType::F32 }
}

/// The way back through the second pass, put off.
#[derive(Debug)]
pub struct RasterizeBwdOp {
    pub desc: CustomOp,
    pub background: Vec3Bits,
    pub img_size: UVec2,
}

/// What the device is asked for when the way back through the second pass is gone.
#[derive(Clone, Copy, PartialEq, Eq, Structural, Debug)]
pub struct RasterizeBwdCall {
    pub out_img: Buffer,
    pub projected_splats: Buffer,
    pub global_from_compact_gid: Buffer,
    pub compact_gid_from_isect: Buffer,
    pub tile_offsets: Buffer,
    pub background: Vec3Bits,
    pub img_size: UVec2,
    pub v_output: Buffer,
    /// Where the outcome goes.
    pub grads: RasterizeGrads,
}

/// What the device is asked for when the way back through the second pass is gone.
pub open spec fn rasterize_bwd_call(background: Vec3Bits, img_size: UVec2) -> RasterizeBwdCall {
    RasterizeBwdCall {
        out_img: Buffer::OutImg,
        projected_splats: Buffer::ProjectedSplats,
        global_from_compact_gid: Buffer::GlobalFromCompactGid,
        compact_gid_from_isect: Buffer::SortedCompactGids,
        tile_offsets: Buffer::TileOffsets,
        background,
        img_size,
        v_output: Buffer::VOutput,
        grads: rasterize_grads(),
    }
}

/// Whether `op` is the way back through the second pass over `n` splats, put off.
pub open spec fn defers_rasterize_bwd(
    op: RasterizeBwdOp,
    n: usize,
    background: Vec3Bits,
    img_size: UVec2,
) -> bool {
    &&& op.desc.name@ == "rasterize_bwd"@
    &&& op.desc.inputs@ == rasterize_bwd_inputs()
    &&& op.desc.outputs@ == rasterize_bwd_outputs(n)
    &&& op.background == background
    &&& op.img_size == img_size
}

impl RasterizeBwdOp {
    /// Whether the operation names as many buffers as it has to.
    pub open spec fn complete(self) -> bool {
        self.desc.inputs@.len() == 6 && self.desc.outputs@.len() == 3
    }

    /// What the device is asked for.
    pub open spec fn call(self) -> RasterizeBwdCall {
        RasterizeBwdCall {
            v_output: self.desc.inputs@[0],
            out_img: self.desc.inputs@[1],
            projected_splats: self.desc.inputs@[2],
            global_from_compact_gid: self.desc.inputs@[3],
            compact_gid_from_isect: self.desc.inputs@[4],
            tile_offsets: self.desc.inputs@[5],
            background: self.background,
            img_size: self.img_size,
            grads: RasterizeGrads {
                v_projected_splats: self.desc.outputs@[0].0,
                v_raw_opac: self.desc.outputs@[1].0,
                v_refine_weight: self.desc.outputs@[2].0,
            },
        }
    }

    /// Says what the device is asked for.
    pub fn execute(&self) -> (r: RasterizeBwdCall)
        requires
            self.complete(),
        ensures
            r == self.call(),
    {
        let inputs = &self.desc.inputs;
        let outputs = &self.desc.outputs;
        RasterizeBwdCall {
            v_output: inputs[0],
            out_img: inputs[1],
            projected_splats: inputs[2],
            global_from_compact_gid: inputs[3],
            compact_gid_from_isect: inputs[4],
            tile_offsets: inputs[5],
            background: self.background,
            img_size: self.img_size,
            grads: RasterizeGrads {
                v_projected_splats: outputs[0].0,
                v_raw_opac: outputs[1].0,
                v_refine_weight: outputs[2].0,
            },
        }
    }
}

/// The way back through the first pass, put off.
#[derive(Debug)]
pub struct ProjectBwdOp {
    pub desc: CustomOp,
    pub render_mode: SplatRenderMode,
    pub sh_degree: u32,
    pub project_uniforms: ProjectUniforms,
}

/// What the device is asked for when the way back through the first pass is gone.
#[derive(Clone, Copy, PartialEq, Eq, Structural, Debug)]
pub struct ProjectBwdCall {
    pub means: Buffer,
    pub log_scales: Buffer,
    pub quats: Buffer,
    pub raw_opac: Buffer,
    pub num_visible: Buffer,
    pub global_from_compact_gid: Buffer,
    pub project_uniforms: ProjectUniforms,
    pub sh_degree: u32,
    pub render_mode: SplatRenderMode,
    pub rasterize_grads: RasterizeGrads,
    /// Where the outcome goes.
    pub grads: SplatGrads,
}

/// What the device is asked for when the way back through the first pass is gone.
pub open spec fn project_bwd_call(
    project_uniforms: ProjectUniforms,
    sh_degree: u32,
    render_mode: SplatRenderMode,
    incoming: RasterizeGrads,
) -> ProjectBwdCall {
    ProjectBwdCall {
        means: Buffer::Means,
        log_scales: Buffer::LogScales,
        quats: Buffer::Quats,
        raw_opac: Buffer::RawOpacities,
        num_visible: Buffer::NumVisible,
        global_from_compact_gid: Buffer::GlobalFromCompactGid,
        project_uniforms,
        sh_degree,
        render_mode,
        rasterize_grads: incoming,
        grads: splat_grads(false),
    }
}

/// Whether `op` is the way back through the first pass over `n` splats, put off.
pub open spec fn defers_project_bwd(
    op: ProjectBwdOp,
    n: usize,
    project_uniforms: ProjectUniforms,
    sh_degree: u32,
    render_mode: SplatRenderMode,
    incoming: RasterizeGrads,
) -> bool {
    &&& op.desc.name@ == "project_bwd"@
    &&& op.desc.inputs@ == project_bwd_inputs(incoming)
    &&& op.desc.outputs@ == project_bwd_outputs(n, sh_coeffs(sh_degree as int) as usize)
    &&& op.project_uniforms == project_uniforms
    &&& op.sh_degree == sh_degree
    &&& op.render_mode == render_mode
}

impl ProjectBwdOp {
    /// Whether the operation names as many buffers as it has to.
    pub open spec fn complete(self) -> bool {
        self.desc.inputs@.len() == 9 && self.desc.outputs@.len() == 6
    }

    /// What the device is asked for.
    pub open spec fn call(self) -> ProjectBwdCall {
        ProjectBwdCall {
            means: self.desc.inputs@[0],
            log_scales: self.desc.inputs@[1],
            quats: self.desc.inputs@[2],
            raw_opac: self.desc.inputs@[3],
            num_visible: self.desc.inputs@[4],
            global_from_compact_gid: self.desc.inputs@[5],
            project_uniforms: self.project_uniforms,
            sh_degree: self.sh_degree,
            render_mode: self.render_mode,
            rasterize_grads: RasterizeGrads {
                v_projected_splats: self.desc.inputs@[6],
                v_raw_opac: self.desc.inputs@[7],
                v_refine_weight: self.desc.inputs@[8],
            },
            grads: SplatGrads {
                v_means: self.desc.outputs@[0].0,
                v_quats: self.desc.outputs@[1].0,
                v_scales: self.desc.outputs@[2].0,
                v_coeffs: self.desc.outputs@[3].0,
                v_raw_opac: self.desc.outputs@[4].0,
                v_normals: None,
                v_plane_distances: None,
                v_refine_weight: self.desc.outputs@[5].0,
            },
        }
    }

    /// Says what the device is asked for.
    pub fn execute(&self) -> (r: ProjectBwdCall)
        requires
            self.complete(),
        ensures
            r == self.call(),
    {
        let inputs = &self.desc.inputs;
        let outputs = &self.desc.outputs;
        ProjectBwdCall {
            means: inputs[0],
            log_scales: inputs[1],
            quats: inputs[2],
            raw_opac: inputs[3],
            num_visible: inputs[4],
            global_from_compact_gid: inputs[5],
            project_uniforms: self.project_uniforms,
            sh_degree: self.sh_degree,
            render_mode: self.render_mode,
            rasterize_grads: RasterizeGrads {
                v_projected_splats: inputs[6],
                v_raw_opac: inputs[7],
                v_refine_weight: inputs[8],
            },
            grads: SplatGrads {
                v_means: outputs[0].0,
                v_quats: outputs[1].0,
                v_scales: outputs[2].0,
                v_coeffs: outputs[3].0,
                v_raw_opac: outputs[4].0,
                v_normals: None,
                v_plane_distances: None,
                v_refine_weight: outputs[5].0,
            },
        }
    }
}

/// The two halves of the way back that were put off are performed on the buffers that were
/// kept, with what they were declared with; the first half hands its gradients to the
/// second.
pub proof fn law_deferred_way_back(
    rasterize: RasterizeBwdOp,
    project: ProjectBwdOp,
    n: usize,
    background: Vec3Bits,
    img_size: UVec2,
    project_uniforms: ProjectUniforms,
    sh_degree: u32,
    render_mode: SplatRenderMode,
)
    requires
        defers_rasterize_bwd(rasterize, n, background, img_size),
        defers_project_bwd(
            project,
            n,
            project_uniforms,
            sh_degree,
            render_mode,
            rasterize_grads(),
        ),
    ensures
        rasterize.complete(),
        project.complete(),
        rasterize.call() == rasterize_bwd_call(background, img_size),
        project.call() == project_bwd_call(
            project_uniforms,
            sh_degree,
            render_mode,
            rasterize.call().grads,
        ),
{
}

impl Fusion {
    /// Declares the way back through the second pass.
    pub fn rasterize_bwd(num_points: usize, background: Vec3Bits, img_size: UVec2) -> (r: (
        RasterizeBwdOp,
        RasterizeGrads,
    ))
        ensures
            defers_rasterize_bwd(r.0, num_points, background, img_size),
            r.0.complete(),
            r.1 == rasterize_grads(),
    {
        let row = Shape::D1 { a: num_points };
        let inputs = vec![
            Buffer::VOutput,
            Buffer::OutImg,
            Buffer::ProjectedSplats,
            Buffer::GlobalFromCompactGid,
            Buffer::SortedCompactGids,
            Buffer::TileOffsets,
        ];
        let outputs = vec![
            (Buffer::VProjectedSplats, f32_spec(Shape::D2 { a: num_points, b: 8 })),
            (Buffer::VRawOpacIn, f32_spec(row)),
            (Buffer::VRefineWeightIn, f32_spec(row)),
        ];
        assert(outputs@ =~= rasterize_bwd_outputs(num_points));
        assert(inputs@ =~= rasterize_bwd_inputs());
        let desc = CustomOp { name: "rasterize_bwd".to_owned(), inputs, outputs };
        let grads = RasterizeGrads {
            v_projected_splats: Buffer::VProjectedSplats,
            v_raw_opac: Buffer::VRawOpacIn,
            v_refine_weight: Buffer::VRefineWeightIn,
        };
        (RasterizeBwdOp { desc, background, img_size }, grads)
    }

    /// Declares the way back through the first pass; `incoming` is what the way back
    /// through the second one gave.
    pub fn project_bwd(
        num_points: usize,
        project_uniforms: ProjectUniforms,
        sh_degree: u32,
        render_mode: SplatRenderMode,
        incoming: RasterizeGrads,
    ) -> (r: (ProjectBwdOp, SplatGrads))
        requires
            sh_coeffs(sh_degree as int) <= u32::MAX,
        ensures
            defers_project_bwd(
                r.0,
                num_points,
                project_uniforms,
                sh_degree,
                render_mode,
                incoming,
            ),
            r.0.complete(),
            r.1 == splat_grads(false),
    {
        let n: usize = num_points;
        let coeffs: usize = sh_coeffs_for_degree(sh_degree) as usize;
        let row = Shape::D1 { a: n };
        let inputs = vec![
            Buffer::Means,
            Buffer::LogScales,
            Buffer::Quats,
            Buffer::RawOpacities,
            Buffer::NumVisible,
            Buffer::GlobalFromCompactGid,
            incoming.v_projected_splats,
            incoming.v_raw_opac,
            incoming.v_refine_weight,
        ];
        let outputs = vec![
            (Buffer::VMeans, f32_spec(Shape::D2 { a: n, b: 3 })),
            (Buffer::VQuats, f32_spec(Shape::D2 { a: n, b: 4 })),
            (Buffer::VScales, f32_spec(Shape::D2 { a: n, b: 3 })),
            (Buffer::VCoeffs, f32_spec(Shape::D3 { a: n, b: coeffs, c: 3 })),
            (Buffer::VRawOpac, f32_spec(row)),
            (Buffer::VRefineWeight, f32_spec(row)),
        ];
        assert(outputs@ =~= project_bwd_outputs(n, coeffs));
        assert(inputs@ =~= project_bwd_inputs(incoming));
        let desc = CustomOp { name: "project_bwd".to_owned(), inputs, outputs };
        let grads = SplatGrads {
            v_means: Buffer::VMeans,
            v_quats: Buffer::VQuats,
            v_scales: Buffer::VScales,
            v_coeffs: Buffer::VCoeffs,
            v_raw_opac: Buffer::VRawOpac,
            v_normals: None,
            v_plane_distances: None,
            v_refine_weight: Buffer::VRefineWeight,
        };
        (ProjectBwdOp { desc, render_mode, sh_degree, project_uniforms }, grads)
    }
}

/// The inputs of a picture that can get a gradient.
#[derive(Clone, Copy, PartialEq, Eq, Structural, Debug)]
pub enum Parent {
    Means,
    RefineWeight,
    LogScales,
    Quats,
    Coeffs,
    RawOpacity,
}

/// The inputs of a picture, in the order in which it lists them.
pub open spec fn parents() -> Seq<Parent> {
    seq![
        Parent::Means,
        Parent::RefineWeight,
        Parent::LogScales,
        Parent::Quats,
        Parent::Coeffs,
        Parent::RawOpacity,
    ]
}

/// The gradient that belongs to an input.
pub open spec fn gradient_of(parent: Parent) -> Buffer {
    match parent {
        Parent::Means => Buffer::VMeans,
        Parent::RefineWeight => Buffer::VRefineWeight,
        Parent::LogScales => Buffer::VScales,
        Parent::Quats => Buffer::VQuats,
        Parent::Coeffs => Buffer::VCoeffs,
        Parent::RawOpacity => Buffer::VRawOpac,
    }
}

/// One thing that is done on the way back.
#[derive(Clone, Copy, PartialEq, Eq, Structural, Debug)]
pub enum BackwardStep {
    /// Take the gradient of the picture.
    ConsumeOutput,
    RasterizeBwd,
    ProjectBwd,
    /// Hand a gradient to an input.
    Register { parent: Parent, gradient: Buffer },
}

/// Hands gradients to the first `n` inputs, as far as they want one.
pub open spec fn registrations(wanted: Seq<bool>, n: int) -> Seq<BackwardStep>
    decreases n,
{
    if n <= 0 {
        Seq::empty()
    } else {
        let before = registrations(wanted, n - 1);
        if wanted[n - 1] {
            let parent = parents()[n - 1];
            before.push(BackwardStep::Register { parent, gradient: gradient_of(parent) })
        } else {
            before
        }
    }
}

fn parent_at(i: usize) -> (r: Parent)
    requires
        i < NUM_BWD_ARGS,
    ensures
        r == parents()[i as int],
{
    if i == 0 {
        Parent::Means
    } else if i == 1 {
        Parent::RefineWeight
    } else if i == 2 {
        Parent::LogScales
    } else if i == 3 {
        Parent::Quats
    } else if i == 4 {
        Parent::Coeffs
    } else {
        Parent::RawOpacity
    }
}

fn gradient_for(parent: Parent, grads: &SplatGrads) -> (r: Buffer)
    requires
        *grads == splat_grads(false),
    ensures
        r == gradient_of(parent),
{
    match parent {
        Parent::Means => grads.v_means,
        Parent::RefineWeight => grads.v_refine_weight,
        Parent::LogScales => grads.v_scales,
        Parent::Quats => grads.v_quats,
        Parent::Coeffs => grads.v_coeffs,
        Parent::RawOpacity => grads.v_raw_opac,
    }
}

/// The inputs of a picture, in the order in which it lists them.
pub fn prepare() -> (r: Vec<Parent>)
    ensures
        r@ == parents(),
{
    let out = vec![
        Parent::Means,
        Parent::RefineWeight,
        Parent::LogScales,
        Parent::Quats,
        Parent::Coeffs,
        Parent::RawOpacity,
    ];
    assert(out@ =~= parents());
    out
}

/// What is kept of a picture for the way back.
#[derive(Clone, Copy, PartialEq, Eq, Structural, Debug)]
pub struct GaussianBackwardState {
    pub means: Buffer,
    pub quats: Buffer,
    pub log_scales: Buffer,
    pub raw_opac: Buffer,
    pub projected_splats: Buffer,
    pub project_uniforms: ProjectUniforms,
    pub num_visible: Buffer,
    pub global_from_compact_gid: Buffer,
    pub out_img: Buffer,
    pub compact_gid_from_isect: Buffer,
    pub tile_offsets: Buffer,
    pub render_mode: SplatRenderMode,
    pub sh_degree: u32,
    pub background: Vec3Bits,
    pub img_size: UVec2,
}

/// What is kept of a picture of what the first pass gave as `output`.
pub open spec fn backward_state(
    output: ProjectHandles,
    render_mode: SplatRenderMode,
    sh_degree: u32,
    background: Vec3Bits,
) -> GaussianBackwardState {
    GaussianBackwardState {
        means: Buffer::Means,
        quats: Buffer::Quats,
        log_scales: Buffer::LogScales,
        raw_opac: Buffer::RawOpacities,
        projected_splats: output.projected_splats,
        project_uniforms: output.project_uniforms,
        num_visible: output.num_visible,
        global_from_compact_gid: output.global_from_compact_gid,
        out_img: Buffer::OutImg,
        compact_gid_from_isect: Buffer::SortedCompactGids,
        tile_offsets: Buffer::TileOffsets,
        render_mode,
        sh_degree,
        background,
        img_size: output.img_size,
    }
}

/// The way back through a picture that was put off.
#[derive(Debug)]
pub struct BackwardRun {
    pub steps: Vec<BackwardStep>,
    pub rasterize: RasterizeBwdOp,
    pub project: ProjectBwdOp,
}

/// What is done on the way back; `wanted` says of each input whether it wants a gradient.
pub open spec fn backward_steps(wanted: Seq<bool>) -> Seq<BackwardStep> {
    seq![
        BackwardStep::ConsumeOutput,
        BackwardStep::RasterizeBwd,
        BackwardStep::ProjectBwd,
    ] + registrations(wanted, 6)
}

/// Goes the way back through a picture of `num_points` splats; `wanted` says of each
/// input whether it wants a gradient.
pub fn backward(state: &GaussianBackwardState, num_points: usize, wanted: [bool; 6]) -> (r:
    BackwardRun)
    requires
        sh_coeffs(state.sh_degree as int) <= u32::MAX,
    ensures
        r.steps@ == backward_steps(wanted@),
        wanted@[0] <==> r.steps@.contains(
            BackwardStep::Register { parent: Parent::Means, gradient: Buffer::VMeans },
        ),
        wanted@[1] <==> r.steps@.contains(
            BackwardStep::Register {
                parent: Parent::RefineWeight,
                gradient: Buffer::VRefineWeight,
            },
        ),
        wanted@[2] <==> r.steps@.contains(
            BackwardStep::Register { parent: Parent::LogScales, gradient: Buffer::VScales },
        ),
        wanted@[3] <==> r.steps@.contains(
            BackwardStep::Register { parent: Parent::Quats, gradient: Buffer::VQuats },
        ),
        wanted@[4] <==> r.steps@.contains(
            BackwardStep::Register { parent: Parent::Coeffs, gradient: Buffer::VCoeffs },
        ),
        wanted@[5] <==> r.steps@.contains(
            BackwardStep::Register { parent: Parent::RawOpacity, gradient: Buffer::VRawOpac },
        ),
        defers_rasterize_bwd(r.rasterize, num_points, state.background, state.img_size),
        defers_project_bwd(
            r.project,
            num_points,
            state.project_uniforms,
            state.sh_degree,
            state.render_mode,
            rasterize_grads(),
        ),
        r.rasterize.complete(),
        r.project.complete(),
{
    let (rasterize, incoming) = Fusion::rasterize_bwd(
        num_points,
        state.background,
        state.img_size,
    );
    let (project, grads) = Fusion::project_bwd(
        num_points,
        state.project_uniforms,
        state.sh_degree,
        state.render_mode,
        incoming,
    );
    let mut steps = vec![
        BackwardStep::ConsumeOutput,
        BackwardStep::RasterizeBwd,
        BackwardStep::ProjectBwd,
    ];
    let ghost head = seq![
        BackwardStep::ConsumeOutput,
        BackwardStep::RasterizeBwd,
        BackwardStep::ProjectBwd,
    ];
    assert(steps@ =~= head + registrations(wanted@, 0));
    let mut i: usize = 0;
    while i < 6
        invariant
            i <= 6,
            grads == splat_grads(false),
            steps@ == head + registrations(wanted@, i as int),
        decreases 6 - i,
    {
        if wanted[i] {
            let parent = parent_at(i);
            steps.push(
                BackwardStep::Register { parent, gradient: gradient_for(parent, &grads) },
            );
        }
        i = i + 1;
        assert(steps@ =~= head + registrations(wanted@, i as int));
    }
    proof {
        crate::render_laws::law_own_gradient(wanted@);
    }
    BackwardRun { steps, rasterize, project }
}

/// The shape of an input of a picture. Nothing is read from the one that collects how
/// much splats want to be refined; it has a single value.
pub open spec fn parent_shape(parent: Parent, shapes: SplatShapes) -> Shape {
    match parent {
        Parent::Means => shapes.means,
        Parent::RefineWeight => Shape::D1 { a: 1 },
        Parent::LogScales => shapes.log_scales,
        Parent::Quats => shapes.quats,
        Parent::Coeffs => shapes.sh_coeffs,
        Parent::RawOpacity => shapes.raw_opacities,
    }
}

/// Every gradient that is declared has the shape of the parameter it is handed to. The
/// wish to be refined is the exception: it has a value for each splat.
pub proof fn law_gradients_fit(shapes: SplatShapes, parent: Parent)
    requires
        shapes.drawable(),
        shapes.coeffs() < 0x1_0000_0000,
    ensures
        ({
            let coeffs = sh_coeffs(shapes.degree()->0 as int) as usize;
            let outputs = project_bwd_outputs(shapes.total(), coeffs);
            let shape = if parent is RefineWeight {
                Shape::D1 { a: shapes.total() }
            } else {
                parent_shape(parent, shapes)
            };
            exists|i: int|
                0 <= i < outputs.len() && #[trigger] outputs[i] == (
                    gradient_of(parent),
                    floats(shape),
                )
        }),
{
    crate::render::law_sh_degree(shapes.coeffs() as int);
    let coeffs = sh_coeffs(shapes.degree()->0 as int) as usize;
    assert(coeffs == shapes.coeffs());
    let outputs = project_bwd_outputs(shapes.total(), coeffs);
    assert(outputs[0].0 == Buffer::VMeans);
    assert(outputs[1].0 == Buffer::VQuats);
    assert(outputs[2].0 == Buffer::VScales);
    assert(outputs[3].0 == Buffer::VCoeffs);
    assert(outputs[4].0 == Buffer::VRawOpac);
    assert(outputs[5].0 == Buffer::VRefineWeight);
}

/// What the way back finds.
pub open spec fn backward_memory(
    shapes: SplatShapes,
    picture: TensorSpec,
    v_output: TensorSpec,
    others: TensorSpec,
) -> Map<Buffer, TensorSpec> {
    Map::empty().insert(Buffer::VOutput, v_output).insert(Buffer::OutImg, picture).insert(
        Buffer::Means,
        floats(shapes.means),
    ).insert(Buffer::LogScales, floats(shapes.log_scales)).insert(
        Buffer::Quats,
        floats(shapes.quats),
    ).insert(Buffer::ProjectedSplats, others).insert(Buffer::Uniforms, others).insert(
        Buffer::SortedCompactGids,
        others,
    ).insert(Buffer::GlobalFromCompactGid, others).insert(Buffer::TileOffsets, others)
}

/// The memory once the gradients are cleared.
#[verifier::opaque]
spec fn cleared_memory(memory: Map<Buffer, TensorSpec>, n: usize, coeffs: usize) -> Map<
    Buffer,
    TensorSpec,
> {
    let row = floats(Shape::D1 { a: n });
    let vectors = floats(Shape::D2 { a: n, b: 3 });
    memory.insert(Buffer::VMeans, vectors).insert(Buffer::VScales, vectors).insert(
        Buffer::VQuats,
        floats(Shape::D2 { a: n, b: 4 }),
    ).insert(Buffer::VCoeffs, floats(Shape::D3 { a: n, b: coeffs, c: 3 })).insert(
        Buffer::VRawOpac,
        row,
    ).insert(Buffer::VGrads, floats(Shape::D2 { a: n, b: 12 })).insert(
        Buffer::VNormals,
        vectors,
    ).insert(Buffer::VPlaneDistances, row).insert(Buffer::VRefineWeight, row)
}

/// Two stretches of a pass, one after the other.
proof fn lemma_memory_split(memory: Map<Buffer, TensorSpec>, a: Seq<GpuOp>, b: Seq<GpuOp>, n: int)
    requires
        0 <= n <= b.len(),
    ensures
        memory_after(memory, a + b, a.len() + n) == memory_after(
            memory_after(memory, a, a.len() as int),
            b,
            n,
        ),
    decreases n,
{
    if n > 0 {
        lemma_memory_split(memory, a, b, n - 1);
        assert((a + b)[a.len() + n - 1] == b[n - 1]);
    } else {
        lemma_memory_prefix(memory, a, b, a.len() as int);
    }
}

proof fn lemma_memory_prefix(memory: Map<Buffer, TensorSpec>, a: Seq<GpuOp>, b: Seq<GpuOp>, n: int)
    requires
        0 <= n <= a.len(),
    ensures
        memory_after(memory, a + b, n) == memory_after(memory, a, n),
    decreases n,
{
    if n > 0 {
        lemma_memory_prefix(memory, a, b, n - 1);
    }
}

/// Two stretches that can be performed one after the other can be performed as one.
proof fn lemma_runs_append(memory: Map<Buffer, TensorSpec>, a: Seq<GpuOp>, b: Seq<GpuOp>)
    requires
        runs(memory, a),
        runs(memory_after(memory, a, a.len() as int), b),
    ensures
        runs(memory, a + b),
        memory_after(memory, a + b, (a + b).len() as int) == memory_after(
            memory_after(memory, a, a.len() as int),
            b,
            b.len() as int,
        ),
{
    let all = a + b;
    assert forall|i: int| 0 <= i < all.len() implies performable(
        memory_after(memory, all, i),
        #[trigger] all[i],
    ) by {
        if i < a.len() {
            lemma_memory_prefix(memory, a, b, i);
            assert(all[i] == a[i]);
        } else {
            lemma_memory_split(memory, a, b, i - a.len());
            assert(all[i] == b[i - a.len()]);
        }
    }
    lemma_memory_split(memory, a, b, b.len() as int);
}

proof fn lemma_gather(m: Map<Buffer, TensorSpec>)
    requires
        m.contains_key(Buffer::VOutput),
        m.contains_key(Buffer::Means),
        m.contains_key(Buffer::LogScales),
        m.contains_key(Buffer::Quats),
        m.contains_key(Buffer::ProjectedSplats),
        m.contains_key(Buffer::Uniforms),
        m.contains_key(Buffer::SortedCompactGids),
        m.contains_key(Buffer::GlobalFromCompactGid),
        m.contains_key(Buffer::TileOffsets),
    ensures
        runs(m, gather_ops()),
        memory_after(m, gather_ops(), 9) == m,
{
    reveal_with_fuel(memory_after, 10);
}

proof fn lemma_clear(m: Map<Buffer, TensorSpec>, n: usize, coeffs: usize)
    ensures
        runs(m, clear_ops(n, coeffs)),
        memory_after(m, clear_ops(n, coeffs), 9) == cleared_memory(m, n, coeffs),
{
    reveal(cleared_memory);
    reveal_with_fuel(memory_after, 10);
}

proof fn lemma_split(m: Map<Buffer, TensorSpec>, inputs: BackwardInputs)
    requires
        m.contains_key(Buffer::OutImg),
        m.contains_key(Buffer::VOutput),
        inputs.render_depth ==> (m[Buffer::OutImg].shape matches Shape::D3 { a, b, c } && a
            == inputs.rows && b == inputs.cols && c >= 10),
        inputs.render_depth ==> m[Buffer::VOutput].shape == m[Buffer::OutImg].shape,
    ensures
        ({
            let ops = split_ops(inputs);
            let after = memory_after(m, ops, ops.len() as int);
            &&& runs(m, ops)
            &&& forall|b: Buffer| m.contains_key(b) ==> #[trigger] after.contains_key(b)
            &&& inputs.render_depth ==> {
                &&& after.contains_key(Buffer::OutColor)
                &&& after.contains_key(Buffer::OutNormal)
                &&& after.contains_key(Buffer::OutDistance)
                &&& after.contains_key(Buffer::VOutColor)
                &&& after.contains_key(Buffer::VOutNormal)
                &&& after.contains_key(Buffer::VOutDepth)
            }
            &&& forall|b: Buffer|
                (b is VMeans || b is VQuats || b is VScales || b is VCoeffs || b is VRawOpac || b
                    is VRefineWeight || b is VNormals || b is VPlaneDistances)
                    ==> #[trigger] after[b] == m[b]
        }),
{
    reveal_with_fuel(memory_after, 9);
}

/// Whether everything is there that the kernels of the way back get, whatever the
/// picture holds.
spec fn has_common(m: Map<Buffer, TensorSpec>) -> bool {
    &&& m.contains_key(Buffer::Uniforms)
    &&& m.contains_key(Buffer::SortedCompactGids)
    &&& m.contains_key(Buffer::GlobalFromCompactGid)
    &&& m.contains_key(Buffer::TileOffsets)
    &&& m.contains_key(Buffer::ProjectedSplats)
    &&& m.contains_key(Buffer::Means)
    &&& m.contains_key(Buffer::LogScales)
    &&& m.contains_key(Buffer::Quats)
    &&& m.contains_key(Buffer::OutImg)
    &&& m.contains_key(Buffer::VOutput)
    &&& m.contains_key(Buffer::VGrads)
    &&& m.contains_key(Buffer::VRawOpac)
    &&& m.contains_key(Buffer::VRefineWeight)
    &&& m.contains_key(Buffer::VMeans)
    &&& m.contains_key(Buffer::VScales)
    &&& m.contains_key(Buffer::VQuats)
    &&& m.contains_key(Buffer::VCoeffs)
    &&& m.contains_key(Buffer::VNormals)
    &&& m.contains_key(Buffer::VPlaneDistances)
}

/// Whether the parts of a picture with depth are there, if it has any.
spec fn has_parts(m: Map<Buffer, TensorSpec>, render_depth: bool) -> bool {
    render_depth ==> {
        &&& m.contains_key(Buffer::OutColor)
        &&& m.contains_key(Buffer::OutNormal)
        &&& m.contains_key(Buffer::OutDistance)
        &&& m.contains_key(Buffer::VOutColor)
        &&& m.contains_key(Buffer::VOutNormal)
        &&& m.contains_key(Buffer::VOutDepth)
    }
}

proof fn lemma_launches(m: Map<Buffer, TensorSpec>, inputs: BackwardInputs, tile_width: u32)
    requires
        has_common(m),
        has_parts(m, inputs.render_depth),
    ensures
        runs(m, backward_launches(inputs, tile_width)),
        memory_after(m, backward_launches(inputs, tile_width), 2) == m,
{
    let d = backward_launches(inputs, tile_width);
    reveal_with_fuel(memory_after, 3);
    assert(memory_after(m, d, 1) == m);
    assert(performable(m, d[0]));
    assert(performable(m, d[1]));
}

proof fn lemma_cleared_has(
    shapes: SplatShapes,
    picture: TensorSpec,
    others: TensorSpec,
    n: usize,
    coeffs: usize,
)
    ensures
        ({
            let m = cleared_memory(backward_memory(shapes, picture, picture, others), n, coeffs);
            &&& has_common(m)
            &&& m[Buffer::OutImg] == picture
            &&& m[Buffer::VOutput] == picture
            &&& delivers(m, project_bwd_outputs(n, coeffs))
            &&& delivers(m, plane_outputs(n))
        }),
{
    reveal(cleared_memory);
}

/// Taking a picture apart takes nothing away.
proof fn lemma_split_keeps(
    m: Map<Buffer, TensorSpec>,
    inputs: BackwardInputs,
    n: usize,
    coeffs: usize,
)
    requires
        has_common(m),
        delivers(m, project_bwd_outputs(n, coeffs)),
        delivers(m, plane_outputs(n)),
        inputs.render_depth ==> (m[Buffer::OutImg].shape matches Shape::D3 { a, b, c } && a
            == inputs.rows && b == inputs.cols && c >= 10),
        inputs.render_depth ==> m[Buffer::VOutput].shape == m[Buffer::OutImg].shape,
    ensures
        ({
            let ops = split_ops(inputs);
            let after = memory_after(m, ops, ops.len() as int);
            &&& runs(m, ops)
            &&& has_common(after)
            &&& has_parts(after, inputs.render_depth)
            &&& delivers(after, project_bwd_outputs(n, coeffs))
            &&& delivers(after, plane_outputs(n))
        }),
{
    lemma_split(m, inputs);
    let ops = split_ops(inputs);
    let after = memory_after(m, ops, ops.len() as int);
    let outputs = project_bwd_outputs(n, coeffs);
    assert forall|i: int| 0 <= i < outputs.len() implies after.contains_key(
        (#[trigger] outputs[i]).0,
    ) && after[outputs[i].0] == outputs[i].1 by {
        assert(m.contains_key(outputs[i].0));
        assert(m[outputs[i].0] == outputs[i].1);
    }
    let planes = plane_outputs(n);
    assert forall|i: int| 0 <= i < planes.len() implies after.contains_key(
        (#[trigger] planes[i]).0,
    ) && after[planes[i].0] == planes[i].1 by {
        assert(m.contains_key(planes[i].0));
        assert(m[planes[i].0] == planes[i].1);
    }
}

/// Four stretches of a pass, each of which can be performed after the one before.
proof fn lemma_chain(
    m: Map<Buffer, TensorSpec>,
    a: Seq<GpuOp>,
    b: Seq<GpuOp>,
    c: Seq<GpuOp>,
    d: Seq<GpuOp>,
    m2: Map<Buffer, TensorSpec>,
    m3: Map<Buffer, TensorSpec>,
)
    requires
        runs(m, a),
        memory_after(m, a, a.len() as int) == m,
        runs(m, b),
        memory_after(m, b, b.len() as int) == m2,
        runs(m2, c),
        memory_after(m2, c, c.len() as int) == m3,
        runs(m3, d),
        memory_after(m3, d, d.len() as int) == m3,
    ensures
        runs(m, a + b + c + d),
        memory_after(m, a + b + c + d, (a + b + c + d).len() as int) == m3,
{
    lemma_runs_append(m, a, b);
    lemma_runs_append(m, a + b, c);
    lemma_runs_append(m, a + b + c, d);
}

/// Whether an operation writes to `buffer` after it was made.
pub open spec fn works_on(op: GpuOp, buffer: Buffer) -> bool {
    op matches GpuOp::Launch { kernel, .. } && bindings(kernel).contains(buffer)
}

/// Without depth no kernel works on the gradients of normals and plane distances.
proof fn lemma_planes_untouched(inputs: BackwardInputs, tile_width: u32)
    ensures
        forall|i: int|
            0 <= i < backward_ops(inputs, tile_width).len() && !inputs.render_depth ==> !works_on(
                #[trigger] backward_ops(inputs, tile_width)[i],
                Buffer::VNormals,
            ) && !works_on(backward_ops(inputs, tile_width)[i], Buffer::VPlaneDistances),
{
    let ops = backward_ops(inputs, tile_width);
    let a = gather_ops();
    let b = clear_ops(inputs.num_points, sh_coeffs(inputs.sh_degree as int) as usize);
    let d = backward_launches(inputs, tile_width);
    assert forall|i: int| 0 <= i < ops.len() && !inputs.render_depth implies !works_on(
        #[trigger] ops[i],
        Buffer::VNormals,
    ) && !works_on(ops[i], Buffer::VPlaneDistances) by {
        if i < 9 {
            assert(ops[i] == a[i]);
        } else if i < 18 {
            assert(ops[i] == b[i - 9]);
        } else {
            assert(ops[i] == d[i - 18]);
        }
    }
}

/// The way back never works on a buffer that is not there yet, and gives a gradient of
/// the right shape for every parameter, and for normals and plane distances. Without
/// depth no kernel works on the latter, so that they stay cleared.
#[verifier::rlimit(60)]
#[verifier::spinoff_prover]
pub proof fn law_backward_delivers(
    shapes: SplatShapes,
    inputs: BackwardInputs,
    tile_width: u32,
    picture: TensorSpec,
    others: TensorSpec,
)
    requires
        shapes.drawable(),
        shapes.coeffs() < 0x1_0000_0000,
        inputs.num_points == shapes.total(),
        Some(inputs.sh_degree) == shapes.degree(),
        picture.shape matches Shape::D3 { a, b, c } && a == inputs.rows && b == inputs.cols && (
        inputs.render_depth ==> c >= 10),
    ensures
        ({
            let ops = backward_ops(inputs, tile_width);
            let memory = backward_memory(shapes, picture, picture, others);
            let after = memory_after(memory, ops, ops.len() as int);
            &&& runs(memory, ops)
            &&& delivers(after, project_bwd_outputs(shapes.total(), shapes.coeffs()))
            &&& delivers(after, plane_outputs(shapes.total()))
            &&& forall|i: int|
                0 <= i < ops.len() && !inputs.render_depth ==> !works_on(
                    #[trigger] ops[i],
                    Buffer::VNormals,
                ) && !works_on(ops[i], Buffer::VPlaneDistances)
        }),
{
    let n = inputs.num_points;
    let coeffs = sh_coeffs(inputs.sh_degree as int) as usize;
    crate::render::law_sh_degree(shapes.coeffs() as int);
    assert(coeffs == shapes.coeffs());
    let m = backward_memory(shapes, picture, picture, others);
    let a = gather_ops();
    let b = clear_ops(n, coeffs);
    let c = split_ops(inputs);
    let d = backward_launches(inputs, tile_width);
    let m2 = cleared_memory(m, n, coeffs);
    lemma_gather(m);
    lemma_clear(m, n, coeffs);
    lemma_cleared_has(shapes, picture, others, n, coeffs);
    lemma_split_keeps(m2, inputs, n, coeffs);
    let m3 = memory_after(m2, c, c.len() as int);
    lemma_launches(m3, inputs, tile_width);
    lemma_chain(m, a, b, c, d, m2, m3);
    lemma_planes_untouched(inputs, tile_width);
}

/// The gradients that are handed out are in one piece: each of them is made once, when it
/// is cleared, and after that it is neither made anew nor taken apart.
pub proof fn law_gradients_stay_whole(inputs: BackwardInputs, tile_width: u32, parent: Parent)
    ensures
        ({
            let ops = backward_ops(inputs, tile_width);
            let buffer = gradient_of(parent);
            exists|k: int|
                {
                    &&& 0 <= k < ops.len()
                    &&& (#[trigger] ops[k]) matches GpuOp::Zeros { buffer: b, .. } && b == buffer
                    &&& forall|i: int|
                        0 <= i < ops.len() && i != k ==> !makes(#[trigger] ops[i], buffer)
                            && !takes_apart(ops[i], buffer)
                }
        }),
{
    let ops = backward_ops(inputs, tile_width);
    let buffer = gradient_of(parent);
    let a = gather_ops();
    let b = clear_ops(inputs.num_points, sh_coeffs(inputs.sh_degree as int) as usize);
    let c = split_ops(inputs);
    let d = backward_launches(inputs, tile_width);
    let k: int = match parent {
        Parent::Means => 9,
        Parent::LogScales => 10,
        Parent::Quats => 11,
        Parent::Coeffs => 12,
        Parent::RawOpacity => 13,
        Parent::RefineWeight => 17,
    };
    assert(ops[k] == b[k - 9]);
    assert forall|i: int| 0 <= i < ops.len() && i != k implies !makes(#[trigger] ops[i], buffer)
        && !takes_apart(ops[i], buffer) by {
        if i < 9 {
            assert(ops[i] == a[i]);
        } else if i < 18 {
            assert(ops[i] == b[i - 9]);
        } else if i < 18 + c.len() {
            assert(ops[i] == c[i - 18]);
        } else {
            assert(ops[i] == d[i - 18 - c.len()]);
        }
    }
}

/// In every pass, a kernel is run for so many items exactly if its groups take items, and
/// for so many tiles if not.
pub proof fn law_launches_fit_groups(
    output: ProjectHandles,
    mip: bool,
    num_intersections: u32,
    mode: RasterizeMode,
    layout: ShaderLayout,
    inputs: BackwardInputs,
    groups: GroupLayout,
    i: int,
)
    ensures
        ({
            let n = output.total_splats;
            let first = project_ops(n, mip, layout);
            let second = rasterize_ops(n, output.img_size, num_intersections, mode, layout);
            let back = backward_ops(inputs, layout.tile_width);
            &&& 0 <= i < first.len() ==> fits_groups(first[i], groups)
            &&& 0 <= i < second.len() ==> fits_groups(second[i], groups)
            &&& 0 <= i < back.len() ==> fits_groups(back[i], groups)
        }),
{
    let ops = backward_ops(inputs, layout.tile_width);
    let a = gather_ops();
    let b = clear_ops(inputs.num_points, sh_coeffs(inputs.sh_degree as int) as usize);
    let c = split_ops(inputs);
    let d = backward_launches(inputs, layout.tile_width);
    if 0 <= i < 9 {
        assert(ops[i] == a[i]);
    } else if 9 <= i < 18 {
        assert(ops[i] == b[i - 9]);
    } else if 18 <= i < 18 + c.len() {
        assert(ops[i] == c[i - 18]);
    } else if 18 <= i < ops.len() {
        assert(ops[i] == d[i - 18 - c.len()]);
    }
}

/// The input that collects how much splats want to be refined.
#[derive(Clone, Copy, PartialEq, Eq, Structural, Debug)]
pub struct RefineHolder {
    pub shape: Shape,
    /// What each of its values is.
    pub value: F32Bits,
    pub requires_grad: bool,
}

/// The input that collects how much splats want to be refined: one zero that wants a
/// gradient.
pub open spec fn refine_holder() -> RefineHolder {
    RefineHolder { shape: Shape::D1 { a: 1 }, value: F32Bits { bits: 0 }, requires_grad: true }
}

/// One thing that is done to draw splats in a way that can be gone back.
#[derive(Clone, Copy, PartialEq, Eq, Structural, Debug)]
pub enum RenderStep {
    /// Make sure that the parameters are numbers.
    ValidateValues,
    /// Make the input that collects how much splats want to be refined.
    CreateRefineHolder { holder: RefineHolder },
    /// Note the inputs that can get a gradient.
    PrepareNodes,
    /// Run the first pass.
    Project,
    /// Read how many tiles the last splat and those before it touch; nothing is read
    /// without splats.
    ReadLastHit { at: Option<usize> },
    /// Run the second pass.
    Rasterize,
    /// Keep what the way back needs.
    SaveState,
    /// Hand the picture on.
    Finish { differentiable: bool },
    /// Check what came along with the picture.
    ValidateAux,
}

/// What is drawn in a way that can be gone back.
#[derive(Clone, Copy, PartialEq, Eq, Structural, Debug)]
pub struct SplatOutputDiff {
    pub img: Buffer,
    pub img_spec: TensorSpec,
    pub render_aux: AuxPlan,
    pub refine_weight_holder: RefineHolder,
}

/// Where the number is read from which the intersections are counted.
pub open spec fn last_index(total_splats: u32) -> Option<usize> {
    if total_splats > 0 {
        Some((total_splats - 1) as usize)
    } else {
        None
    }
}

/// What is done before the number of intersections is known.
pub open spec fn first_steps(total_splats: u32) -> Seq<RenderStep> {
    seq![
        RenderStep::ValidateValues,
        RenderStep::CreateRefineHolder { holder: refine_holder() },
        RenderStep::PrepareNodes,
        RenderStep::Project,
        RenderStep::ReadLastHit { at: last_index(total_splats) },
    ]
}

/// What is done once the number of intersections is known. What the way back needs is
/// kept only if anything wants a gradient.
pub open spec fn last_steps(differentiable: bool) -> Seq<RenderStep> {
    let s = seq![RenderStep::Rasterize];
    let s = if differentiable {
        s.push(RenderStep::SaveState)
    } else {
        s
    };
    s.push(RenderStep::Finish { differentiable }).push(RenderStep::ValidateAux)
}

/// How a picture is begun: up to the number of intersections.
#[derive(Debug)]
pub struct RenderStart {
    pub steps: Vec<RenderStep>,
    pub project: ProjectOp,
    pub projected: ProjectHandles,
}

/// What the first pass over `shapes` hands on.
pub open spec fn projected(
    shapes: SplatShapes,
    camera: CameraView,
    img_size: UVec2,
    layout: ShaderLayout,
) -> ProjectHandles {
    handles(shapes.total(), uniforms(shapes, camera, img_size, layout), img_size)
}

/// Begins to draw splats in a way that can be gone back.
pub fn start_render(
    shapes: &SplatShapes,
    camera: CameraView,
    img_size: UVec2,
    render_mode: SplatRenderMode,
    layout: ShaderLayout,
) -> (r: RenderStart)
    requires
        shapes.drawable(),
        layout.tile_width > 0,
    ensures
        r.steps@ == first_steps(r.projected.project_uniforms.total_splats),
        defers_project(r.project, *shapes, camera, img_size, render_mode, layout),
        r.projected == projected(*shapes, camera, img_size, layout),
{
    let (project, projected) = Fusion::project(shapes, camera, img_size, render_mode, layout);
    let total_splats: u32 = projected.project_uniforms.total_splats;
    let at: Option<usize> = if total_splats > 0 {
        Some((total_splats - 1) as usize)
    } else {
        None
    };
    let holder = RefineHolder {
        shape: Shape::D1 { a: 1 },
        value: F32Bits { bits: 0 },
        requires_grad: true,
    };
    let steps = vec![
        RenderStep::ValidateValues,
        RenderStep::CreateRefineHolder { holder },
        RenderStep::PrepareNodes,
        RenderStep::Project,
        RenderStep::ReadLastHit { at },
    ];
    assert(steps@ =~= first_steps(total_splats));
    RenderStart { steps, project, projected }
}

/// A picture that can be gone back: everything that is done for it, both passes, what it
/// gives, and what is kept of it.
#[derive(Debug)]
pub struct RenderPlan {
    pub steps: Vec<RenderStep>,
    pub project: ProjectOp,
    pub rasterize: RasterizeOp,
    pub output: SplatOutputDiff,
    pub state: Option<GaussianBackwardState>,
}

/// Draws splats in a way that can be gone back. `last_hit` is how many tiles the last
/// splat and those before it touch, as the first pass counted them.
pub fn render_splats(
    shapes: &SplatShapes,
    camera: CameraView,
    img_size: UVec2,
    render_mode: SplatRenderMode,
    background: Vec3Bits,
    differentiable: bool,
    last_hit: Option<u32>,
    layout: ShaderLayout,
) -> (r: RenderPlan)
    requires
        shapes.drawable(),
        layout.tile_width > 0,
    ensures
        ({
            let from = projected(*shapes, camera, img_size, layout);
            let total_splats = from.project_uniforms.total_splats;
            let count = intersections(total_splats, last_hit);
            let mode = RasterizeMode { bwd_info: true, high_error_info: false };
            let picture = floats(
                Shape::D3 { a: img_size.y as usize, b: img_size.x as usize, c: 4 },
            );
            &&& r.steps@ == first_steps(total_splats) + last_steps(differentiable)
            &&& defers_project(r.project, *shapes, camera, img_size, render_mode, layout)
            &&& defers_rasterize(r.rasterize, from, count, background, mode, layout)
            &&& r.rasterize.desc.outputs@[0] == (Buffer::OutImg, picture)
            &&& r.rasterize.desc.outputs@[3] == (
                Buffer::Visible,
                floats(Shape::D1 { a: shapes.total() }),
            )
            &&& r.rasterize.desc.outputs@[4] == (
                Buffer::HighErrorCount,
                ints(Shape::D1 { a: 1 }),
            )
            &&& r.output == (SplatOutputDiff {
                img: Buffer::OutImg,
                img_spec: picture,
                render_aux: aux_plan(from, count),
                refine_weight_holder: refine_holder(),
            })
            &&& r.output.render_aux.img_size == img_size
            &&& r.output.render_aux.num_intersections == count
            &&& r.state == if differentiable {
                Some(backward_state(from, render_mode, shapes.degree()->0, background))
            } else {
                None
            }
        }),
{
    let start = start_render(shapes, camera, img_size, render_mode, layout);
    let output = start.projected;
    let count: u32 = count_intersections(output.project_uniforms.total_splats, last_hit);
    let mode = RasterizeMode { bwd_info: true, high_error_info: false };
    let fused = Fusion::rasterize(&output, count, background, mode, false, layout);
    let ghost first = start.steps@;
    let mut steps = start.steps;
    steps.push(RenderStep::Rasterize);
    if differentiable {
        steps.push(RenderStep::SaveState);
    }
    steps.push(RenderStep::Finish { differentiable });
    steps.push(RenderStep::ValidateAux);
    assert(steps@ =~= first + last_steps(differentiable));
    let state = if differentiable {
        Some(
            GaussianBackwardState {
                means: Buffer::Means,
                quats: Buffer::Quats,
                log_scales: Buffer::LogScales,
                raw_opac: Buffer::RawOpacities,
                projected_splats: output.projected_splats,
                project_uniforms: output.project_uniforms,
                num_visible: output.num_visible,
                global_from_compact_gid: output.global_from_compact_gid,
                out_img: fused.out_img,
                compact_gid_from_isect: fused.isects,
                tile_offsets: fused.aux.tile_offsets,
                render_mode,
                sh_degree: output.project_uniforms.sh_degree,
                background,
                img_size,
            },
        )
    } else {
        None
    };
    let picture = TensorSpec {
        shape: Shape::D3 { a: img_size.y as usize, b: img_size.x as usize, c: 4 },
        dtype: DType::F32,
    };
    let diff = SplatOutputDiff {
        img: fused.out_img,
        img_spec: picture,
        render_aux: fused.aux,
        refine_weight_holder: RefineHolder {
            shape: Shape::D1 { a: 1 },
            value: F32Bits { bits: 0 },
            requires_grad: true,
        },
    };
    RenderPlan { steps, project: start.project, rasterize: fused.op, output: diff, state }
}

/// The buffers that are kept for the way back.
pub open spec fn saved(state: GaussianBackwardState) -> Seq<Buffer> {
    seq![
        state.means,
        state.log_scales,
        state.quats,
        state.raw_opac,
        state.out_img,
        state.projected_splats,
        state.num_visible,
        state.tile_offsets,
        state.compact_gid_from_isect,
        state.global_from_compact_gid,
    ]
}

/// Lists the buffers that are kept for the way back.
pub fn saved_buffers(state: &GaussianBackwardState) -> (r: Vec<Buffer>)
    ensures
        r@ == saved(*state),
{
    let out = vec![
        state.means,
        state.log_scales,
        state.quats,
        state.raw_opac,
        state.out_img,
        state.projected_splats,
        state.num_visible,
        state.tile_offsets,
        state.compact_gid_from_isect,
        state.global_from_compact_gid,
    ];
    assert(out@ =~= saved(*state));
    out
}

/// What is kept, the gradient of the picture and what the way back through the second
/// pass gives are all that the way back takes.
pub proof fn law_saved_suffices(
    output: ProjectHandles,
    render_mode: SplatRenderMode,
    sh_degree: u32,
    background: Vec3Bits,
    n: usize,
    i: int,
)
    requires
        output.valid(),
    ensures
        ({
            let kept = saved(backward_state(output, render_mode, sh_degree, background));
            let first = rasterize_bwd_inputs();
            let second = project_bwd_inputs(rasterize_grads());
            let between = rasterize_bwd_outputs(n);
            &&& 0 <= i < first.len() ==> kept.contains(first[i]) || first[i] is VOutput
            &&& 0 <= i < second.len() ==> kept.contains(second[i]) || exists|j: int|
                0 <= j < between.len() && (#[trigger] between[j]).0 == second[i]
        }),
{
    let s = saved(backward_state(output, render_mode, sh_degree, background));
    assert(s[0] == Buffer::Means && s[1] == Buffer::LogScales && s[2] == Buffer::Quats && s[3]
        == Buffer::RawOpacities && s[4] == Buffer::OutImg && s[5] == Buffer::ProjectedSplats
        && s[6] == Buffer::NumVisible && s[7] == Buffer::TileOffsets && s[8]
        == Buffer::SortedCompactGids && s[9] == Buffer::GlobalFromCompactGid);
    let between = rasterize_bwd_outputs(n);
    assert(between[0].0 == Buffer::VProjectedSplats && between[1].0 == Buffer::VRawOpacIn
        && between[2].0 == Buffer::VRefineWeightIn);
}

} // verus!
