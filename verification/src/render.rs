//! Drawing splats: projecting them, and turning them into pixels.

use crate::camera::{extend, extended, CameraView, Mat4Bits, UVec2, Vec2Bits, Vec4Bits};
use crate::config::SplatRenderMode;
use crate::gpu::{
    memory_after, performable, runs, Buffer, DType, Dispatch, GpuOp, Kernel, Shape, TensorSpec,
};
use crate::message::Vec3Bits;
use crate::num::{
    bit_length, bits_needed, ceil_div, div_ceil, lemma_bit_length, lemma_ceil_div, low_u32, F32Bits,
    ONE_BITS,
};
use vstd::arithmetic::power2::pow2;
use vstd::prelude::*;
use vstd::string::*;

verus! {

/// What the kernels fix: the side of a tile in pixels, and the number of values that a
/// projected splat takes.
#[derive(Clone, Copy, PartialEq, Eq, Structural, Debug)]
pub struct ShaderLayout {
    pub tile_width: u32,
    pub proj_size: usize,
}

/// The number of tiles that cover a picture, across and down.
pub open spec fn tile_bounds(img_size: UVec2, tile_width: u32) -> UVec2 {
    UVec2 {
        x: ceil_div(img_size.x as int, tile_width as int) as u32,
        y: ceil_div(img_size.y as int, tile_width as int) as u32,
    }
}

/// The number of all tiles that cover a picture.
pub open spec fn tile_count(img_size: UVec2, tile_width: u32) -> int {
    tile_bounds(img_size, tile_width).x * tile_bounds(img_size, tile_width).y
}

/// Counts the tiles that cover a picture, across and down.
pub fn calc_tile_bounds(img_size: UVec2, tile_width: u32) -> (r: UVec2)
    requires
        tile_width > 0,
    ensures
        r == tile_bounds(img_size, tile_width),
{
    UVec2 { x: div_ceil(img_size.x, tile_width), y: div_ceil(img_size.y, tile_width) }
}

/// The tiles cover the picture, and none of them lies outside of it.
pub proof fn law_tiles_cover(img_size: UVec2, tile_width: u32)
    requires
        tile_width > 0,
        img_size.x > 0,
        img_size.y > 0,
    ensures
        ({
            let t = tile_bounds(img_size, tile_width);
            &&& t.x > 0 && t.y > 0
            &&& (t.x - 1) * tile_width < img_size.x <= t.x * tile_width
            &&& (t.y - 1) * tile_width < img_size.y <= t.y * tile_width
        }),
{
    lemma_ceil_div(img_size.x as int, tile_width as int);
    lemma_ceil_div(img_size.y as int, tile_width as int);
}

/// The number of coefficients of spherical harmonics up to `degree`.
pub open spec fn sh_coeffs(degree: int) -> int {
    (degree + 1) * (degree + 1)
}

/// Counts the coefficients of spherical harmonics up to `degree`.
pub fn sh_coeffs_for_degree(degree: u32) -> (r: u32)
    requires
        sh_coeffs(degree as int) <= u32::MAX,
    ensures
        r == sh_coeffs(degree as int),
{
    assert(degree < u32::MAX && (degree + 1) * (degree + 1) <= u32::MAX) by (nonlinear_arith)
        requires
            sh_coeffs(degree as int) <= u32::MAX,
            sh_coeffs(degree as int) == (degree + 1) * (degree + 1),
            degree >= 0,
    ;
    (degree + 1) * (degree + 1)
}

/// The degree of spherical harmonics with `coeffs` coefficients. Degrees above the fourth
/// are not supported.
pub open spec fn sh_degree(coeffs: int) -> Option<u32> {
    if coeffs == 1 {
        Some(0u32)
    } else if coeffs == 4 {
        Some(1u32)
    } else if coeffs == 9 {
        Some(2u32)
    } else if coeffs == 16 {
        Some(3u32)
    } else if coeffs == 25 {
        Some(4u32)
    } else {
        None
    }
}

/// Finds the degree of spherical harmonics with `coeffs` coefficients.
pub fn sh_degree_from_coeffs(coeffs: u32) -> (r: Option<u32>)
    ensures
        r == sh_degree(coeffs as int),
{
    if coeffs == 1 {
        Some(0)
    } else if coeffs == 4 {
        Some(1)
    } else if coeffs == 9 {
        Some(2)
    } else if coeffs == 16 {
        Some(3)
    } else if coeffs == 25 {
        Some(4)
    } else {
        None
    }
}

/// A degree that was found has that many coefficients.
pub proof fn law_sh_degree(coeffs: int)
    ensures
        sh_degree(coeffs) matches Some(d) ==> sh_coeffs(d as int) == coeffs,
{
    assert(sh_coeffs(0) == 1 && sh_coeffs(1) == 4 && sh_coeffs(2) == 9 && sh_coeffs(3) == 16
        && sh_coeffs(4) == 25);
}

/// The shapes of the parameters of splats.
#[derive(Clone, Copy, PartialEq, Eq, Structural, Debug)]
pub struct SplatShapes {
    pub means: Shape,
    pub log_scales: Shape,
    pub quats: Shape,
    pub sh_coeffs: Shape,
    pub raw_opacities: Shape,
}

impl SplatShapes {
    /// The number of splats, if the parameters fit together.
    pub open spec fn total(self) -> usize {
        match self.means {
            Shape::D2 { a, .. } => a,
            _ => 0,
        }
    }

    /// The number of coefficients of a splat, if the parameters fit together.
    pub open spec fn coeffs(self) -> usize {
        match self.sh_coeffs {
            Shape::D3 { b, .. } => b,
            _ => 0,
        }
    }

    /// Whether the parameters fit together.
    pub open spec fn agree(self) -> bool {
        let n = self.total();
        &&& self.means == (Shape::D2 { a: n, b: 3 })
        &&& self.log_scales == (Shape::D2 { a: n, b: 3 })
        &&& self.quats == (Shape::D2 { a: n, b: 4 })
        &&& self.sh_coeffs == (Shape::D3 { a: n, b: self.coeffs(), c: 3 })
        &&& self.raw_opacities == (Shape::D1 { a: n })
    }

    /// The degree of the harmonics of the splats.
    pub open spec fn degree(self) -> Option<u32> {
        sh_degree(self.coeffs() as int % 0x1_0000_0000)
    }

    /// Whether splats with these shapes can be drawn.
    pub open spec fn drawable(self) -> bool {
        self.agree() && self.degree() is Some
    }

    /// Whether splats with these shapes can be drawn.
    pub fn is_drawable(&self) -> (r: bool)
        ensures
            r == self.drawable(),
    {
        let n: usize = match self.means {
            Shape::D2 { a, .. } => a,
            _ => 0,
        };
        let c: usize = match self.sh_coeffs {
            Shape::D3 { b, .. } => b,
            _ => 0,
        };
        self.means == (Shape::D2 { a: n, b: 3 }) && self.log_scales == (Shape::D2 {
            a: n,
            b: 3,
        }) && self.quats == (Shape::D2 { a: n, b: 4 }) && self.sh_coeffs == (Shape::D3 {
            a: n,
            b: c,
            c: 3,
        }) && self.raw_opacities == (Shape::D1 { a: n }) && sh_degree_from_coeffs(
            low_u32(c),
        ).is_some()
    }
}

/// What the kernels of the first pass get along with the splats.
#[derive(Clone, Copy, PartialEq, Eq, Structural, Debug)]
pub struct ProjectUniforms {
    pub viewmat: Mat4Bits,
    pub camera_position: Vec4Bits,
    pub focal: Vec2Bits,
    pub pixel_center: Vec2Bits,
    pub img_size: UVec2,
    pub tile_bounds: UVec2,
    pub sh_degree: u32,
    pub total_splats: u32,
    pub pad_a: u32,
    pub pad_b: u32,
}

/// What the kernels of the first pass get when `shapes` are drawn.
pub open spec fn uniforms(
    shapes: SplatShapes,
    camera: CameraView,
    img_size: UVec2,
    layout: ShaderLayout,
) -> ProjectUniforms {
    ProjectUniforms {
        viewmat: camera.viewmat,
        camera_position: extended(camera.position, F32Bits { bits: 0 }),
        focal: camera.focal,
        pixel_center: camera.center,
        img_size,
        tile_bounds: tile_bounds(img_size, layout.tile_width),
        sh_degree: shapes.degree()->0,
        total_splats: (shapes.total() as int % 0x1_0000_0000) as u32,
        pad_a: 0,
        pad_b: 0,
    }
}

/// What the first pass hands on: its buffers, and what goes along with them.
#[derive(Clone, Copy, PartialEq, Eq, Structural, Debug)]
pub struct ProjectHandles {
    pub project_uniforms: ProjectUniforms,
    /// The number of projected splats.
    pub total_splats: usize,
    pub projected_splats: Buffer,
    pub num_visible: Buffer,
    pub global_from_compact_gid: Buffer,
    pub cum_tiles_hit: Buffer,
    pub img_size: UVec2,
}

impl ProjectHandles {
    /// The buffers are those that the first pass fills.
    pub open spec fn valid(self) -> bool {
        &&& self.projected_splats == Buffer::ProjectedSplats
        &&& self.num_visible == Buffer::NumVisible
        &&& self.global_from_compact_gid == Buffer::GlobalFromCompactGid
        &&& self.cum_tiles_hit == Buffer::CumTilesHit
    }
}

/// What the first pass hands on for a picture of `n` splats.
pub open spec fn handles(n: usize, project_uniforms: ProjectUniforms, img_size: UVec2) ->
    ProjectHandles {
    ProjectHandles {
        project_uniforms,
        total_splats: n,
        projected_splats: Buffer::ProjectedSplats,
        num_visible: Buffer::NumVisible,
        global_from_compact_gid: Buffer::GlobalFromCompactGid,
        cum_tiles_hit: Buffer::CumTilesHit,
        img_size,
    }
}

fn make_handles(n: usize, project_uniforms: ProjectUniforms, img_size: UVec2) -> (r: ProjectHandles)
    ensures
        r == handles(n, project_uniforms, img_size),
{
    ProjectHandles {
        project_uniforms,
        total_splats: n,
        projected_splats: Buffer::ProjectedSplats,
        num_visible: Buffer::NumVisible,
        global_from_compact_gid: Buffer::GlobalFromCompactGid,
        cum_tiles_hit: Buffer::CumTilesHit,
        img_size,
    }
}

/// What the kernel gets that lists splats by tile.
#[derive(Clone, Copy, PartialEq, Eq, Structural, Debug)]
pub struct MapUniforms {
    pub tile_bounds: UVec2,
}

/// What the kernel gets that draws the tiles.
#[derive(Clone, Copy, PartialEq, Eq, Structural, Debug)]
pub struct RasterizeUniforms {
    pub tile_bounds: UVec2,
    pub img_size: UVec2,
    /// The color behind all splats, with full opacity.
    pub background: Vec4Bits,
}

/// What goes along with a picture, as the buffers that hold it.
#[derive(Clone, Copy, PartialEq, Eq, Structural, Debug)]
pub struct AuxPlan {
    pub num_visible: Buffer,
    pub num_intersections: u32,
    pub visible: Buffer,
    pub tile_offsets: Buffer,
    pub img_size: UVec2,
    pub high_error_count: Buffer,
}

/// What goes along with the picture that the second pass makes of `output`.
pub open spec fn aux_plan(output: ProjectHandles, num_intersections: u32) -> AuxPlan {
    AuxPlan {
        num_visible: output.num_visible,
        num_intersections,
        visible: Buffer::Visible,
        tile_offsets: Buffer::TileOffsets,
        img_size: output.img_size,
        high_error_count: Buffer::HighErrorCount,
    }
}

fn make_aux(output: &ProjectHandles, num_intersections: u32) -> (r: AuxPlan)
    ensures
        r == aux_plan(*output, num_intersections),
{
    AuxPlan {
        num_visible: output.num_visible,
        num_intersections,
        visible: Buffer::Visible,
        tile_offsets: Buffer::TileOffsets,
        img_size: output.img_size,
        high_error_count: Buffer::HighErrorCount,
    }
}

pub open spec fn floats(shape: Shape) -> TensorSpec {
    TensorSpec { shape, dtype: DType::F32 }
}

pub open spec fn ints(shape: Shape) -> TensorSpec {
    TensorSpec { shape, dtype: DType::U32 }
}

fn float_spec(shape: Shape) -> (r: TensorSpec)
    ensures
        r == floats(shape),
{
    TensorSpec { shape, dtype: DType::F32 }
}

fn int_spec(shape: Shape) -> (r: TensorSpec)
    ensures
        r == ints(shape),
{
    TensorSpec { shape, dtype: DType::U32 }
}

/// The operations that project `n` splats. They are culled and sorted by depth; those
/// that are left are projected, and the tiles that they touch are counted and added up.
pub open spec fn project_ops(n: usize, mip: bool, layout: ShaderLayout) -> Seq<GpuOp> {
    let row = Shape::D1 { a: n };
    let items = Dispatch::Items { count: (n as int % 0x1_0000_0000) as u32 };
    let visible = Dispatch::Counted { by: Buffer::NumVisible };
    seq![
        GpuOp::Contiguous { buffer: Buffer::Means },
        GpuOp::Contiguous { buffer: Buffer::LogScales },
        GpuOp::Contiguous { buffer: Buffer::Quats },
        GpuOp::Contiguous { buffer: Buffer::ShCoeffs },
        GpuOp::Contiguous { buffer: Buffer::RawOpacities },
        GpuOp::Zeros { buffer: Buffer::NumVisible, spec: ints(Shape::D1 { a: 1 }) },
        GpuOp::Zeros { buffer: Buffer::GlobalFromPresortGid, spec: ints(row) },
        GpuOp::Empty { buffer: Buffer::Depths, spec: floats(row) },
        GpuOp::Launch { kernel: Kernel::ProjectSplats { mip }, dispatch: items },
        GpuOp::Sort {
            keys: Buffer::Depths,
            values: Buffer::GlobalFromPresortGid,
            sorted_keys: Buffer::SortedDepths,
            sorted_values: Buffer::GlobalFromCompactGid,
            bits: 32,
            limit: Some(Buffer::NumVisible),
        },
        GpuOp::Empty {
            buffer: Buffer::ProjectedSplats,
            spec: floats(Shape::D2 { a: n, b: layout.proj_size }),
        },
        GpuOp::Zeros { buffer: Buffer::SplatIntersectCounts, spec: ints(row) },
        GpuOp::Launch { kernel: Kernel::ProjectVisible { mip }, dispatch: visible },
        GpuOp::PrefixSum { from: Buffer::SplatIntersectCounts, to: Buffer::CumTilesHit },
    ]
}

/// The settings of the second pass.
#[derive(Clone, Copy, PartialEq, Eq, Structural, Debug)]
pub struct RasterizeMode {
    /// Whether what the way back needs is kept.
    pub bwd_info: bool,
    /// Whether splats are counted where the error is high.
    pub high_error_info: bool,
}

impl RasterizeMode {
    /// Whether a mask of high errors has to be there.
    pub open spec fn needs_mask(self) -> bool {
        self.bwd_info && self.high_error_info
    }

    /// The number of channels of the picture.
    pub open spec fn channels(self) -> usize {
        if self.bwd_info {
            4
        } else {
            1
        }
    }
}

/// The number of intersections that there is room for: as many as there are, but at least
/// one.
pub open spec fn isect_room(num_intersections: u32) -> usize {
    if num_intersections == 0 {
        1
    } else {
        num_intersections as usize
    }
}

/// The shape of what is kept for each splat on the way back.
pub open spec fn per_splat(kept: bool, n: usize) -> Shape {
    if kept {
        Shape::D1 { a: n }
    } else {
        Shape::D1 { a: 1 }
    }
}

/// A buffer that is cleared if it is used, and only there if not.
pub open spec fn side_buffer(buffer: Buffer, used: bool, spec: TensorSpec) -> GpuOp {
    if used {
        GpuOp::Zeros { buffer, spec }
    } else {
        GpuOp::Empty { buffer, spec }
    }
}

/// The operations that turn `n` projected splats into pixels. Splats are listed by tile,
/// the lists are sorted, and each tile is drawn from its own list.
pub open spec fn rasterize_ops(
    n: usize,
    img_size: UVec2,
    num_intersections: u32,
    mode: RasterizeMode,
    layout: ShaderLayout,
) -> Seq<GpuOp> {
    let tiles = tile_bounds(img_size, layout.tile_width);
    let room = Shape::D1 { a: isect_room(num_intersections) };
    let num_tiles = (tiles.x * tiles.y) as u32;
    seq![
        GpuOp::Empty { buffer: Buffer::TileIdFromIsect, spec: ints(room) },
        GpuOp::Empty { buffer: Buffer::CompactGidFromIsect, spec: ints(room) },
        GpuOp::Launch {
            kernel: Kernel::MapGaussiansToIntersect,
            dispatch: Dispatch::Counted { by: Buffer::NumVisible },
        },
        GpuOp::Sort {
            keys: Buffer::TileIdFromIsect,
            values: Buffer::CompactGidFromIsect,
            sorted_keys: Buffer::SortedTileIds,
            sorted_values: Buffer::SortedCompactGids,
            bits: bit_length(num_tiles as nat) as u32,
            limit: None,
        },
        GpuOp::Zeros {
            buffer: Buffer::TileOffsets,
            spec: ints(Shape::D3 { a: tiles.y as usize, b: tiles.x as usize, c: 2 }),
        },
        GpuOp::Constant { buffer: Buffer::NumIntersections, value: num_intersections },
        GpuOp::Launch {
            kernel: Kernel::GetTileOffsets,
            dispatch: Dispatch::Items { count: num_intersections },
        },
        GpuOp::Empty {
            buffer: Buffer::OutImg,
            spec: floats(
                Shape::D3 { a: img_size.y as usize, b: img_size.x as usize, c: mode.channels() },
            ),
        },
        side_buffer(Buffer::Visible, mode.bwd_info, floats(per_splat(mode.bwd_info, n))),
        side_buffer(
            Buffer::HighErrorCount,
            mode.needs_mask(),
            ints(per_splat(mode.needs_mask(), n)),
        ),
        GpuOp::Launch {
            kernel: Kernel::Rasterize {
                bwd_info: mode.bwd_info,
                high_error_info: mode.high_error_info,
            },
            dispatch: Dispatch::Groups { count: num_tiles },
        },
    ]
}

/// The first pass: its operations, and what it hands on.
#[derive(Debug)]
pub struct ProjectPlan {
    pub ops: Vec<GpuOp>,
    pub output: ProjectHandles,
}

/// Whether `plan` is the first pass over `shapes`.
pub open spec fn projects(
    plan: ProjectPlan,
    shapes: SplatShapes,
    camera: CameraView,
    img_size: UVec2,
    render_mode: SplatRenderMode,
    layout: ShaderLayout,
) -> bool {
    &&& plan.ops@ == project_ops(shapes.total(), render_mode is Mip, layout)
    &&& plan.output == handles(
        shapes.total(),
        uniforms(shapes, camera, img_size, layout),
        img_size,
    )
}

/// The second pass: its operations, what its kernels get, and what it gives.
#[derive(Debug)]
pub struct RasterizePlan {
    pub ops: Vec<GpuOp>,
    pub map_uniforms: MapUniforms,
    pub uniforms: RasterizeUniforms,
    /// The picture.
    pub out_img: Buffer,
    /// What goes along with the picture.
    pub aux: AuxPlan,
    /// The splats of each tile, the nearest first.
    pub isects: Buffer,
}

/// Whether `plan` is the second pass over what the first one gave as `output`.
pub open spec fn rasterizes(
    plan: RasterizePlan,
    output: ProjectHandles,
    num_intersections: u32,
    background: Vec3Bits,
    mode: RasterizeMode,
    layout: ShaderLayout,
) -> bool {
    let tiles = tile_bounds(output.img_size, layout.tile_width);
    &&& plan.ops@ == rasterize_ops(
        output.total_splats,
        output.img_size,
        num_intersections,
        mode,
        layout,
    )
    &&& plan.map_uniforms == (MapUniforms { tile_bounds: tiles })
    &&& plan.uniforms == (RasterizeUniforms {
        tile_bounds: tiles,
        img_size: output.img_size,
        background: extended(background, F32Bits { bits: ONE_BITS }),
    })
    &&& plan.out_img == Buffer::OutImg
    &&& plan.aux == aux_plan(output, num_intersections)
    &&& plan.isects == Buffer::SortedCompactGids
}

/// The device itself.
pub struct MainBackendBase {}

impl MainBackendBase {
    /// Lists the operations that project splats.
    pub fn project(
        shapes: &SplatShapes,
        camera: CameraView,
        img_size: UVec2,
        render_mode: SplatRenderMode,
        layout: ShaderLayout,
    ) -> (r: ProjectPlan)
        requires
            img_size.x > 0,
            img_size.y > 0,
            shapes.drawable(),
            layout.tile_width > 0,
        ensures
            projects(r, *shapes, camera, img_size, render_mode, layout),
            r.output.valid(),
    {
        let n: usize = match shapes.means {
            Shape::D2 { a, .. } => a,
            _ => 0,
        };
        let row = Shape::D1 { a: n };
        let mip = matches!(render_mode, SplatRenderMode::Mip);
        let count: u32 = low_u32(n);
        let ops = vec![
            GpuOp::Contiguous { buffer: Buffer::Means },
            GpuOp::Contiguous { buffer: Buffer::LogScales },
            GpuOp::Contiguous { buffer: Buffer::Quats },
            GpuOp::Contiguous { buffer: Buffer::ShCoeffs },
            GpuOp::Contiguous { buffer: Buffer::RawOpacities },
            GpuOp::Zeros { buffer: Buffer::NumVisible, spec: int_spec(Shape::D1 { a: 1 }) },
            GpuOp::Zeros { buffer: Buffer::GlobalFromPresortGid, spec: int_spec(row) },
            GpuOp::Empty { buffer: Buffer::Depths, spec: float_spec(row) },
            GpuOp::Launch {
                kernel: Kernel::ProjectSplats { mip },
                dispatch: Dispatch::Items { count },
            },
            GpuOp::Sort {
                keys: Buffer::Depths,
                values: Buffer::GlobalFromPresortGid,
                sorted_keys: Buffer::SortedDepths,
                sorted_values: Buffer::GlobalFromCompactGid,
                bits: 32,
                limit: Some(Buffer::NumVisible),
            },
            GpuOp::Empty {
                buffer: Buffer::ProjectedSplats,
                spec: float_spec(Shape::D2 { a: n, b: layout.proj_size }),
            },
            GpuOp::Zeros { buffer: Buffer::SplatIntersectCounts, spec: int_spec(row) },
            GpuOp::Launch {
                kernel: Kernel::ProjectVisible { mip },
                dispatch: Dispatch::Counted { by: Buffer::NumVisible },
            },
            GpuOp::PrefixSum { from: Buffer::SplatIntersectCounts, to: Buffer::CumTilesHit },
        ];
        assert(ops@ =~= project_ops(n, mip, layout));
        let project_uniforms = make_uniforms(shapes, camera, img_size, layout);
        ProjectPlan { ops, output: make_handles(n, project_uniforms, img_size) }
    }

    /// Lists the operations that turn projected splats into pixels, and says what goes
    /// along with the picture.
    pub fn rasterize(
        project_output: &ProjectHandles,
        num_intersections: u32,
        background: Vec3Bits,
        mode: RasterizeMode,
        has_mask: bool,
        layout: ShaderLayout,
    ) -> (r: RasterizePlan)
        requires
            project_output.valid(),
            layout.tile_width > 0,
            tile_count(project_output.img_size, layout.tile_width) <= u32::MAX,
            mode.needs_mask() ==> has_mask,
        ensures
            rasterizes(r, *project_output, num_intersections, background, mode, layout),
    {
        let total_splats: usize = project_output.total_splats;
        let img_size = project_output.img_size;
        let tiles = calc_tile_bounds(img_size, layout.tile_width);
        let num_tiles: u32 = tiles.x * tiles.y;
        let room: usize = if num_intersections == 0 {
            1
        } else {
            num_intersections as usize
        };
        let list = int_spec(Shape::D1 { a: room });
        let needs_mask = mode.bwd_info && mode.high_error_info;
        let out_dim: usize = if mode.bwd_info {
            4
        } else {
            1
        };
        let one = Shape::D1 { a: 1 };
        let all = Shape::D1 { a: total_splats };
        let visible = if mode.bwd_info {
            GpuOp::Zeros { buffer: Buffer::Visible, spec: float_spec(all) }
        } else {
            GpuOp::Empty { buffer: Buffer::Visible, spec: float_spec(one) }
        };
        let high_error_count = if needs_mask {
            GpuOp::Zeros { buffer: Buffer::HighErrorCount, spec: int_spec(all) }
        } else {
            GpuOp::Empty { buffer: Buffer::HighErrorCount, spec: int_spec(one) }
        };
        let ops = vec![
            GpuOp::Empty { buffer: Buffer::TileIdFromIsect, spec: list },
            GpuOp::Empty { buffer: Buffer::CompactGidFromIsect, spec: list },
            GpuOp::Launch {
                kernel: Kernel::MapGaussiansToIntersect,
                dispatch: Dispatch::Counted { by: Buffer::NumVisible },
            },
            GpuOp::Sort {
                keys: Buffer::TileIdFromIsect,
                values: Buffer::CompactGidFromIsect,
                sorted_keys: Buffer::SortedTileIds,
                sorted_values: Buffer::SortedCompactGids,
                bits: bits_needed(num_tiles),
                limit: None,
            },
            GpuOp::Zeros {
                buffer: Buffer::TileOffsets,
                spec: int_spec(Shape::D3 { a: tiles.y as usize, b: tiles.x as usize, c: 2 }),
            },
            GpuOp::Constant { buffer: Buffer::NumIntersections, value: num_intersections },
            GpuOp::Launch {
                kernel: Kernel::GetTileOffsets,
                dispatch: Dispatch::Items { count: num_intersections },
            },
            GpuOp::Empty {
                buffer: Buffer::OutImg,
                spec: float_spec(
                    Shape::D3 { a: img_size.y as usize, b: img_size.x as usize, c: out_dim },
                ),
            },
            visible,
            high_error_count,
            GpuOp::Launch {
                kernel: Kernel::Rasterize {
                    bwd_info: mode.bwd_info,
                    high_error_info: mode.high_error_info,
                },
                dispatch: Dispatch::Groups { count: num_tiles },
            },
        ];
        assert(ops@ =~= rasterize_ops(total_splats, img_size, num_intersections, mode, layout));
        RasterizePlan {
            ops,
            map_uniforms: MapUniforms { tile_bounds: tiles },
            uniforms: RasterizeUniforms {
                tile_bounds: tiles,
                img_size,
                background: extend(background, F32Bits { bits: ONE_BITS }),
            },
            out_img: Buffer::OutImg,
            aux: make_aux(project_output, num_intersections),
            isects: Buffer::SortedCompactGids,
        }
    }
}

fn make_uniforms(
    shapes: &SplatShapes,
    camera: CameraView,
    img_size: UVec2,
    layout: ShaderLayout,
) -> (r: ProjectUniforms)
    requires
        shapes.drawable(),
        layout.tile_width > 0,
    ensures
        r == uniforms(*shapes, camera, img_size, layout),
{
    let n: usize = match shapes.means {
        Shape::D2 { a, .. } => a,
        _ => 0,
    };
    let c: usize = match shapes.sh_coeffs {
        Shape::D3 { b, .. } => b,
        _ => 0,
    };
    let sh_degree: u32 = match sh_degree_from_coeffs(low_u32(c)) {
        Some(d) => d,
        None => 0,
    };
    ProjectUniforms {
        viewmat: camera.viewmat,
        camera_position: extend(camera.position, F32Bits { bits: 0 }),
        focal: camera.focal,
        pixel_center: camera.center,
        img_size,
        tile_bounds: calc_tile_bounds(img_size, layout.tile_width),
        sh_degree,
        total_splats: low_u32(n),
        pad_a: 0,
        pad_b: 0,
    }
}

/// What a pass that is put off takes, and what it promises to give.
#[derive(Debug)]
pub struct CustomOp {
    pub name: String,
    pub inputs: Vec<Buffer>,
    pub outputs: Vec<(Buffer, TensorSpec)>,
}

/// Where the mask of high errors comes from.
#[derive(Clone, Copy, PartialEq, Eq, Structural, Debug)]
pub enum MaskSource {
    Given,
    /// A mask of one zero takes its place.
    Dummy,
}

/// What the first pass promises to give.
pub open spec fn project_outputs(n: usize, layout: ShaderLayout) -> Seq<(Buffer, TensorSpec)> {
    let row = Shape::D1 { a: n };
    seq![
        (Buffer::ProjectedSplats, floats(Shape::D2 { a: n, b: layout.proj_size })),
        (Buffer::NumVisible, ints(Shape::D1 { a: 1 })),
        (Buffer::GlobalFromCompactGid, ints(row)),
        (Buffer::CumTilesHit, ints(row)),
    ]
}

/// What the second pass promises to give. A picture that is only looked at is packed into
/// whole numbers.
pub open spec fn rasterize_outputs(
    n: usize,
    img_size: UVec2,
    num_intersections: u32,
    mode: RasterizeMode,
    layout: ShaderLayout,
) -> Seq<(Buffer, TensorSpec)> {
    let tiles = tile_bounds(img_size, layout.tile_width);
    seq![
        (
            Buffer::OutImg,
            TensorSpec {
                shape: Shape::D3 {
                    a: img_size.y as usize,
                    b: img_size.x as usize,
                    c: mode.channels(),
                },
                dtype: if mode.bwd_info {
                    DType::F32
                } else {
                    DType::U32
                },
            },
        ),
        (
            Buffer::TileOffsets,
            ints(Shape::D3 { a: tiles.y as usize, b: tiles.x as usize, c: 2 }),
        ),
        (Buffer::SortedCompactGids, ints(Shape::D1 { a: isect_room(num_intersections) })),
        (Buffer::Visible, floats(per_splat(mode.bwd_info, n))),
        (Buffer::HighErrorCount, ints(per_splat(mode.needs_mask(), n))),
    ]
}

/// What the first pass takes.
pub open spec fn project_inputs() -> Seq<Buffer> {
    seq![
        Buffer::Means,
        Buffer::LogScales,
        Buffer::Quats,
        Buffer::ShCoeffs,
        Buffer::RawOpacities,
    ]
}

/// What the second pass takes.
pub open spec fn rasterize_inputs() -> Seq<Buffer> {
    seq![
        Buffer::ProjectedSplats,
        Buffer::NumVisible,
        Buffer::GlobalFromCompactGid,
        Buffer::CumTilesHit,
        Buffer::HighErrorMask,
    ]
}

/// The first pass, put off.
#[derive(Debug)]
pub struct ProjectOp {
    pub desc: CustomOp,
    pub camera: CameraView,
    pub img_size: UVec2,
    pub render_mode: SplatRenderMode,
}

/// Whether `op` is the first pass over `shapes`, put off.
pub open spec fn defers_project(
    op: ProjectOp,
    shapes: SplatShapes,
    camera: CameraView,
    img_size: UVec2,
    render_mode: SplatRenderMode,
    layout: ShaderLayout,
) -> bool {
    &&& op.desc.name@ == "project_prepare"@
    &&& op.desc.inputs@ == project_inputs()
    &&& op.desc.outputs@ == project_outputs(shapes.total(), layout)
    &&& op.camera == camera
    &&& op.img_size == img_size
    &&& op.render_mode == render_mode
}

impl ProjectOp {
    /// Performs the pass on splats of these shapes.
    pub fn execute(&self, shapes: &SplatShapes, layout: ShaderLayout) -> (r: ProjectPlan)
        requires
            self.img_size.x > 0,
            self.img_size.y > 0,
            shapes.drawable(),
            layout.tile_width > 0,
        ensures
            projects(r, *shapes, self.camera, self.img_size, self.render_mode, layout),
            r.output.valid(),
    {
        MainBackendBase::project(shapes, self.camera, self.img_size, self.render_mode, layout)
    }
}

/// The second pass, put off.
#[derive(Debug)]
pub struct RasterizeOp {
    pub desc: CustomOp,
    pub img_size: UVec2,
    pub num_intersections: u32,
    pub background: Vec3Bits,
    pub mode: RasterizeMode,
    pub project_uniforms: ProjectUniforms,
}

/// Whether `op` is the second pass over `output`, put off.
pub open spec fn defers_rasterize(
    op: RasterizeOp,
    output: ProjectHandles,
    num_intersections: u32,
    background: Vec3Bits,
    mode: RasterizeMode,
    layout: ShaderLayout,
) -> bool {
    &&& op.desc.name@ == "rasterize"@
    &&& op.desc.inputs@ == rasterize_inputs()
    &&& op.desc.outputs@ == rasterize_outputs(
        output.total_splats,
        output.img_size,
        num_intersections,
        mode,
        layout,
    )
    &&& op.img_size == output.img_size
    &&& op.num_intersections == num_intersections
    &&& op.background == background
    &&& op.mode == mode
    &&& op.project_uniforms == output.project_uniforms
}

impl RasterizeOp {
    /// Performs the pass on `total_splats` projected splats. A mask that is only a
    /// placeholder is handed on where counting was asked for without the way back.
    pub fn execute(&self, total_splats: usize, layout: ShaderLayout) -> (r: RasterizePlan)
        requires
            layout.tile_width > 0,
            tile_count(self.img_size, layout.tile_width) <= u32::MAX,
        ensures
            rasterizes(
                r,
                handles(total_splats, self.project_uniforms, self.img_size),
                self.num_intersections,
                self.background,
                self.mode,
                layout,
            ),
    {
        let inner_output = make_handles(total_splats, self.project_uniforms, self.img_size);
        MainBackendBase::rasterize(
            &inner_output,
            self.num_intersections,
            self.background,
            self.mode,
            self.mode.high_error_info,
            layout,
        )
    }
}

/// A picture that is put off: the pass that draws it, and what it will give.
#[derive(Debug)]
pub struct FusedPicture {
    pub op: RasterizeOp,
    pub mask: MaskSource,
    pub out_img: Buffer,
    pub aux: AuxPlan,
    pub isects: Buffer,
}

/// The device behind a queue that puts work off.
pub struct Fusion {}

impl Fusion {
    /// Declares the first pass.
    pub fn project(
        shapes: &SplatShapes,
        camera: CameraView,
        img_size: UVec2,
        render_mode: SplatRenderMode,
        layout: ShaderLayout,
    ) -> (r: (ProjectOp, ProjectHandles))
        requires
            shapes.drawable(),
            layout.tile_width > 0,
        ensures
            defers_project(r.0, *shapes, camera, img_size, render_mode, layout),
            r.1 == handles(
                shapes.total(),
                uniforms(*shapes, camera, img_size, layout),
                img_size,
            ),
            r.1.valid(),
    {
        let n: usize = match shapes.means {
            Shape::D2 { a, .. } => a,
            _ => 0,
        };
        let row = Shape::D1 { a: n };
        let inputs = vec![
            Buffer::Means,
            Buffer::LogScales,
            Buffer::Quats,
            Buffer::ShCoeffs,
            Buffer::RawOpacities,
        ];
        let outputs = vec![
            (Buffer::ProjectedSplats, float_spec(Shape::D2 { a: n, b: layout.proj_size })),
            (Buffer::NumVisible, int_spec(Shape::D1 { a: 1 })),
            (Buffer::GlobalFromCompactGid, int_spec(row)),
            (Buffer::CumTilesHit, int_spec(row)),
        ];
        assert(outputs@ =~= project_outputs(n, layout));
        assert(inputs@ =~= project_inputs());
        let desc = CustomOp { name: "project_prepare".to_owned(), inputs, outputs };
        let project_uniforms = make_uniforms(shapes, camera, img_size, layout);
        let op = ProjectOp { desc, camera, img_size, render_mode };
        (op, make_handles(n, project_uniforms, img_size))
    }

    /// Declares the second pass, and says where its mask comes from and what goes along
    /// with the picture.
    pub fn rasterize(
        project_output: &ProjectHandles,
        num_intersections: u32,
        background: Vec3Bits,
        mode: RasterizeMode,
        has_mask: bool,
        layout: ShaderLayout,
    ) -> (r: FusedPicture)
        requires
            project_output.valid(),
            layout.tile_width > 0,
            mode.needs_mask() ==> has_mask,
        ensures
            defers_rasterize(r.op, *project_output, num_intersections, background, mode, layout),
            r.mask == if mode.needs_mask() {
                MaskSource::Given
            } else {
                MaskSource::Dummy
            },
            r.out_img == Buffer::OutImg,
            r.aux == aux_plan(*project_output, num_intersections),
            r.isects == Buffer::SortedCompactGids,
    {
        let total_splats: usize = project_output.total_splats;
        let img_size = project_output.img_size;
        let tiles = calc_tile_bounds(img_size, layout.tile_width);
        let needs_mask = mode.bwd_info && mode.high_error_info;
        let room: usize = if num_intersections == 0 {
            1
        } else {
            num_intersections as usize
        };
        let (channels, dtype): (usize, DType) = if mode.bwd_info {
            (4, DType::F32)
        } else {
            (1, DType::U32)
        };
        let one = Shape::D1 { a: 1 };
        let all = Shape::D1 { a: total_splats };
        let visible = if mode.bwd_info {
            all
        } else {
            one
        };
        let counted = if needs_mask {
            all
        } else {
            one
        };
        let picture = Shape::D3 { a: img_size.y as usize, b: img_size.x as usize, c: channels };
        let offsets = Shape::D3 { a: tiles.y as usize, b: tiles.x as usize, c: 2 };
        let inputs = vec![
            Buffer::ProjectedSplats,
            Buffer::NumVisible,
            Buffer::GlobalFromCompactGid,
            Buffer::CumTilesHit,
            Buffer::HighErrorMask,
        ];
        let outputs = vec![
            (Buffer::OutImg, TensorSpec { shape: picture, dtype }),
            (Buffer::TileOffsets, int_spec(offsets)),
            (Buffer::SortedCompactGids, int_spec(Shape::D1 { a: room })),
            (Buffer::Visible, float_spec(visible)),
            (Buffer::HighErrorCount, int_spec(counted)),
        ];
        assert(outputs@ =~= rasterize_outputs(
            total_splats,
            img_size,
            num_intersections,
            mode,
            layout,
        ));
        assert(inputs@ =~= rasterize_inputs());
        let mask = if needs_mask {
            MaskSource::Given
        } else {
            MaskSource::Dummy
        };
        let desc = CustomOp { name: "rasterize".to_owned(), inputs, outputs };
        let op = RasterizeOp {
            desc,
            img_size,
            num_intersections,
            background,
            mode,
            project_uniforms: project_output.project_uniforms,
        };
        FusedPicture {
            op,
            mask,
            out_img: Buffer::OutImg,
            aux: make_aux(project_output, num_intersections),
            isects: Buffer::SortedCompactGids,
        }
    }
}

/// A second pass that was put off and is performed later is the pass that was asked for:
/// it gives the same picture, and the same goes along with it.
pub proof fn law_deferred_pass(
    op: RasterizeOp,
    plan: RasterizePlan,
    output: ProjectHandles,
    num_intersections: u32,
    background: Vec3Bits,
    mode: RasterizeMode,
    layout: ShaderLayout,
)
    requires
        output.valid(),
        defers_rasterize(op, output, num_intersections, background, mode, layout),
        rasterizes(
            plan,
            handles(output.total_splats, op.project_uniforms, op.img_size),
            op.num_intersections,
            op.background,
            op.mode,
            layout,
        ),
    ensures
        rasterizes(plan, output, num_intersections, background, mode, layout),
{
    assert(handles(output.total_splats, op.project_uniforms, op.img_size) == output);
}

/// Tile numbers fit into the bits by which lists are sorted, so that sorting by them is
/// sorting by tile.
pub proof fn law_tile_ids_fit(num_tiles: u32, tile: u32)
    requires
        tile < num_tiles,
    ensures
        tile < pow2(bit_length(num_tiles as nat)),
        bit_length(num_tiles as nat) <= 32,
{
    lemma_bit_length(num_tiles as nat);
    lemma_bits(num_tiles);
}

/// The parameters of splats, as the first pass finds them.
pub open spec fn splat_memory(shapes: SplatShapes) -> Map<Buffer, TensorSpec> {
    Map::empty().insert(Buffer::Means, floats(shapes.means)).insert(
        Buffer::LogScales,
        floats(shapes.log_scales),
    ).insert(Buffer::Quats, floats(shapes.quats)).insert(
        Buffer::ShCoeffs,
        floats(shapes.sh_coeffs),
    ).insert(Buffer::RawOpacities, floats(shapes.raw_opacities))
}

/// Whether `memory` holds what a pass promised to give.
pub open spec fn delivers(
    memory: Map<Buffer, TensorSpec>,
    outputs: Seq<(Buffer, TensorSpec)>,
) -> bool {
    forall|i: int|
        0 <= i < outputs.len() ==> memory.contains_key((#[trigger] outputs[i]).0)
            && memory[outputs[i].0] == outputs[i].1
}

/// The first pass never works on a buffer that is not there yet, and gives what was
/// promised of it.
pub proof fn law_project_delivers(shapes: SplatShapes, mip: bool, layout: ShaderLayout)
    requires
        shapes.drawable(),
    ensures
        ({
            let n = shapes.total();
            let ops = project_ops(n, mip, layout);
            let memory = splat_memory(shapes);
            &&& runs(memory, ops)
            &&& delivers(memory_after(memory, ops, ops.len() as int), project_outputs(n, layout))
        }),
{
    let n = shapes.total();
    let ops = project_ops(n, mip, layout);
    let m0 = splat_memory(shapes);
    let row = Shape::D1 { a: n };
    reveal_with_fuel(memory_after, 15);
    let m5 = memory_after(m0, ops, 5);
    assert(m5 == m0);
    let m8 = m0.insert(Buffer::NumVisible, ints(Shape::D1 { a: 1 })).insert(
        Buffer::GlobalFromPresortGid,
        ints(row),
    ).insert(Buffer::Depths, floats(row));
    assert(memory_after(m0, ops, 8) == m8);
    assert(memory_after(m0, ops, 9) == m8);
    let m10 = m8.insert(Buffer::SortedDepths, floats(row)).insert(
        Buffer::GlobalFromCompactGid,
        ints(row),
    );
    assert(memory_after(m0, ops, 10) == m10);
    let m12 = m10.insert(
        Buffer::ProjectedSplats,
        floats(Shape::D2 { a: n, b: layout.proj_size }),
    ).insert(Buffer::SplatIntersectCounts, ints(row));
    assert(memory_after(m0, ops, 12) == m12);
    assert(memory_after(m0, ops, 13) == m12);
    let m14 = m12.insert(Buffer::CumTilesHit, ints(row));
    assert(memory_after(m0, ops, 14) == m14);
    assert(ops.len() == 14);
    assert forall|i: int| 0 <= i < ops.len() implies performable(
        memory_after(m0, ops, i),
        #[trigger] ops[i],
    ) by {
        if i == 8 {
            assert(performable(m8, ops[8]));
        } else if i == 12 {
            assert(performable(m12, ops[12]));
        }
    }
}

/// What the second pass finds.
pub open spec fn projected_memory(n: usize, layout: ShaderLayout, mask: TensorSpec) -> Map<
    Buffer,
    TensorSpec,
> {
    let row = ints(Shape::D1 { a: n });
    Map::empty().insert(
        Buffer::ProjectedSplats,
        floats(Shape::D2 { a: n, b: layout.proj_size }),
    ).insert(Buffer::NumVisible, ints(Shape::D1 { a: 1 })).insert(
        Buffer::GlobalFromCompactGid,
        row,
    ).insert(Buffer::CumTilesHit, row).insert(Buffer::HighErrorMask, mask)
}

/// Whether `memory` holds buffers of the shapes that a pass promised to give.
pub open spec fn delivers_shapes(
    memory: Map<Buffer, TensorSpec>,
    outputs: Seq<(Buffer, TensorSpec)>,
) -> bool {
    forall|i: int|
        0 <= i < outputs.len() ==> memory.contains_key((#[trigger] outputs[i]).0)
            && memory[outputs[i].0].shape == outputs[i].1.shape
}

/// The second pass never works on a buffer that is not there yet. On the way to a
/// gradient it gives exactly what was promised of it; a picture that is only looked at
/// has the shape that was promised.
pub proof fn law_rasterize_delivers(
    n: usize,
    img_size: UVec2,
    num_intersections: u32,
    mode: RasterizeMode,
    layout: ShaderLayout,
    mask: TensorSpec,
)
    requires
        layout.tile_width > 0,
        tile_count(img_size, layout.tile_width) <= u32::MAX,
    ensures
        ({
            let ops = rasterize_ops(n, img_size, num_intersections, mode, layout);
            let memory = projected_memory(n, layout, mask);
            let after = memory_after(memory, ops, ops.len() as int);
            let outputs = rasterize_outputs(n, img_size, num_intersections, mode, layout);
            &&& runs(memory, ops)
            &&& delivers_shapes(after, outputs)
            &&& mode.bwd_info ==> delivers(after, outputs)
        }),
{
    let ops = rasterize_ops(n, img_size, num_intersections, mode, layout);
    let m0 = projected_memory(n, layout, mask);
    let tiles = tile_bounds(img_size, layout.tile_width);
    let num_tiles = (tiles.x * tiles.y) as u32;
    let list = ints(Shape::D1 { a: isect_room(num_intersections) });
    lemma_bits(num_tiles);
    reveal_with_fuel(memory_after, 12);
    let m2 = m0.insert(Buffer::TileIdFromIsect, list).insert(Buffer::CompactGidFromIsect, list);
    assert(memory_after(m0, ops, 2) == m2);
    assert(memory_after(m0, ops, 3) == m2);
    let m4 = m2.insert(Buffer::SortedTileIds, list).insert(Buffer::SortedCompactGids, list);
    assert(memory_after(m0, ops, 4) == m4);
    let m6 = m4.insert(
        Buffer::TileOffsets,
        ints(Shape::D3 { a: tiles.y as usize, b: tiles.x as usize, c: 2 }),
    ).insert(Buffer::NumIntersections, ints(Shape::D1 { a: 1 }));
    assert(memory_after(m0, ops, 6) == m6);
    assert(memory_after(m0, ops, 7) == m6);
    let m10 = m6.insert(
        Buffer::OutImg,
        floats(Shape::D3 { a: img_size.y as usize, b: img_size.x as usize, c: mode.channels() }),
    ).insert(Buffer::Visible, floats(per_splat(mode.bwd_info, n))).insert(
        Buffer::HighErrorCount,
        ints(per_splat(mode.needs_mask(), n)),
    );
    assert(memory_after(m0, ops, 10) == m10);
    assert(memory_after(m0, ops, 11) == m10);
    assert(ops.len() == 11);
    assert forall|i: int| 0 <= i < ops.len() implies performable(
        memory_after(m0, ops, i),
        #[trigger] ops[i],
    ) by {
        if i == 2 {
            assert(performable(m2, ops[2]));
        } else if i == 6 {
            assert(performable(m6, ops[6]));
        } else if i == 10 {
            assert(performable(m10, ops[10]));
        }
    }
}

proof fn lemma_bits(n: u32)
    ensures
        bit_length(n as nat) <= 32,
{
    lemma_bit_length(n as nat);
    let bits = bit_length(n as nat);
    if bits > 32 {
        vstd::arithmetic::power2::lemma2_to64();
        if bits > 33 {
            vstd::arithmetic::power2::lemma_pow2_strictly_increases(32, (bits - 1) as nat);
        }
    }
}

} // verus!
