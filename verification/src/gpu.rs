//! Work for the device: which buffers there are, and what is run on them.
//!
//! A pass over the splats is a list of operations on named buffers. The program performs
//! them one after the other; each kernel gets its buffers in a fixed order.

use vstd::prelude::*;

verus! {

/// The kind of number that a buffer holds.
#[derive(Clone, Copy, PartialEq, Eq, Structural, Debug)]
pub enum DType {
    F32,
    U32,
}

/// The extents of a buffer, the outermost first.
#[derive(Clone, Copy, PartialEq, Eq, Structural, Debug)]
pub enum Shape {
    D1 { a: usize },
    D2 { a: usize, b: usize },
    D3 { a: usize, b: usize, c: usize },
}

/// What a buffer is like.
#[derive(Clone, Copy, PartialEq, Eq, Structural, Debug)]
pub struct TensorSpec {
    pub shape: Shape,
    pub dtype: DType,
}

/// The buffers that a pass works on.
#[derive(Clone, Copy, PartialEq, Eq, Structural, Debug)]
pub enum Buffer {
    Means,
    LogScales,
    Quats,
    ShCoeffs,
    RawOpacities,
    /// How many splats can be seen.
    NumVisible,
    /// The numbers of the splats that can be seen, in any order.
    GlobalFromPresortGid,
    Depths,
    SortedDepths,
    /// The numbers of the splats that can be seen, the nearest first.
    GlobalFromCompactGid,
    ProjectedSplats,
    SplatIntersectCounts,
    /// How many tiles are touched by a splat and those before it.
    CumTilesHit,
    TileIdFromIsect,
    CompactGidFromIsect,
    SortedTileIds,
    SortedCompactGids,
    NumIntersections,
    /// Where the splats of each tile begin and end.
    TileOffsets,
    OutImg,
    Visible,
    HighErrorMask,
    HighErrorCount,
    Uniforms,
    OutColor,
    OutNormal,
    OutDepth,
    OutDistance,
    VOutput,
    VOutColor,
    VOutNormal,
    VOutDepth,
    VOutDistance,
    VMeans,
    VScales,
    VQuats,
    VCoeffs,
    VRawOpac,
    VGrads,
    VNormals,
    VPlaneDistances,
    VRefineWeight,
    VProjectedSplats,
    VRawOpacIn,
    VRefineWeightIn,
}

/// The programs that run on the device.
#[derive(Clone, Copy, PartialEq, Eq, Structural, Debug)]
pub enum Kernel {
    ProjectSplats { mip: bool },
    ProjectVisible { mip: bool },
    MapGaussiansToIntersect,
    GetTileOffsets,
    Rasterize { bwd_info: bool, high_error_info: bool },
    /// `hard_float` if the device adds floating-point numbers in one go, `webgpu` if it is
    /// that of a browser.
    RasterizeBackwards { hard_float: bool, webgpu: bool, render_depth: bool },
    ProjectBackwards { render_depth: bool },
}

/// How many groups of a kernel are run.
#[derive(Clone, Copy, PartialEq, Eq, Structural, Debug)]
pub enum Dispatch {
    /// As many as it takes for so many items.
    Items { count: u32 },
    /// As many as it takes for the number that this buffer holds.
    Counted { by: Buffer },
    /// So many.
    Groups { count: u32 },
}

/// One operation of a pass.
#[derive(Clone, Copy, PartialEq, Eq, Structural, Debug)]
pub enum GpuOp {
    /// Bring an input into one piece.
    Contiguous { buffer: Buffer },
    /// Make a buffer full of zeros.
    Zeros { buffer: Buffer, spec: TensorSpec },
    /// Make a buffer with anything in it.
    Empty { buffer: Buffer, spec: TensorSpec },
    /// Make a buffer that holds one number.
    Constant { buffer: Buffer, value: u32 },
    /// Take channels out of a picture.
    Channels { from: Buffer, to: Buffer, rows: usize, cols: usize, start: usize, end: usize },
    /// Sort pairs by the low bits of their keys; only as many as `limit` says, if it is
    /// given.
    Sort {
        keys: Buffer,
        values: Buffer,
        sorted_keys: Buffer,
        sorted_values: Buffer,
        bits: u32,
        limit: Option<Buffer>,
    },
    /// Add up everything before and at each place.
    PrefixSum { from: Buffer, to: Buffer },
    /// Run a kernel.
    Launch { kernel: Kernel, dispatch: Dispatch },
}

/// The buffers that a kernel gets, in order.
pub open spec fn bindings(kernel: Kernel) -> Seq<Buffer> {
    match kernel {
        Kernel::ProjectSplats { .. } => seq![
            Buffer::Means,
            Buffer::Quats,
            Buffer::LogScales,
            Buffer::RawOpacities,
            Buffer::GlobalFromPresortGid,
            Buffer::Depths,
            Buffer::NumVisible,
        ],
        Kernel::ProjectVisible { .. } => seq![
            Buffer::NumVisible,
            Buffer::Means,
            Buffer::LogScales,
            Buffer::Quats,
            Buffer::ShCoeffs,
            Buffer::RawOpacities,
            Buffer::GlobalFromCompactGid,
            Buffer::ProjectedSplats,
            Buffer::SplatIntersectCounts,
        ],
        Kernel::MapGaussiansToIntersect => seq![
            Buffer::NumVisible,
            Buffer::ProjectedSplats,
            Buffer::CumTilesHit,
            Buffer::TileIdFromIsect,
            Buffer::CompactGidFromIsect,
        ],
        Kernel::GetTileOffsets => seq![
            Buffer::SortedTileIds,
            Buffer::TileOffsets,
            Buffer::NumIntersections,
        ],
        Kernel::Rasterize { bwd_info, high_error_info } => seq![
            Buffer::SortedCompactGids,
            Buffer::TileOffsets,
            Buffer::ProjectedSplats,
            Buffer::OutImg,
        ] + (if bwd_info {
            seq![Buffer::GlobalFromCompactGid, Buffer::Visible]
        } else {
            Seq::empty()
        }) + (if bwd_info && high_error_info {
            seq![Buffer::HighErrorMask, Buffer::HighErrorCount]
        } else {
            Seq::empty()
        }),
        Kernel::RasterizeBackwards { render_depth, .. } => seq![
            Buffer::Uniforms,
            Buffer::SortedCompactGids,
            Buffer::GlobalFromCompactGid,
            Buffer::TileOffsets,
            Buffer::ProjectedSplats,
            if render_depth {
                Buffer::OutColor
            } else {
                Buffer::OutImg
            },
            if render_depth {
                Buffer::VOutColor
            } else {
                Buffer::VOutput
            },
            Buffer::VGrads,
            Buffer::VRawOpac,
            Buffer::VRefineWeight,
        ] + (if render_depth {
            seq![
                Buffer::OutNormal,
                Buffer::OutDistance,
                Buffer::VOutNormal,
                Buffer::VOutDepth,
            ]
        } else {
            Seq::empty()
        }),
        Kernel::ProjectBackwards { render_depth } => seq![
            Buffer::Uniforms,
            Buffer::Means,
            Buffer::LogScales,
            Buffer::Quats,
            Buffer::GlobalFromCompactGid,
            Buffer::VGrads,
            Buffer::VMeans,
            Buffer::VScales,
            Buffer::VQuats,
            Buffer::VCoeffs,
        ] + (if render_depth {
            seq![Buffer::VNormals, Buffer::VPlaneDistances]
        } else {
            Seq::empty()
        }),
    }
}

/// Lists the buffers that a kernel gets, in order.
pub fn kernel_bindings(kernel: Kernel) -> (r: Vec<Buffer>)
    ensures
        r@ == bindings(kernel),
{
    let out = match kernel {
        Kernel::ProjectSplats { .. } => vec![
            Buffer::Means,
            Buffer::Quats,
            Buffer::LogScales,
            Buffer::RawOpacities,
            Buffer::GlobalFromPresortGid,
            Buffer::Depths,
            Buffer::NumVisible,
        ],
        Kernel::ProjectVisible { .. } => vec![
            Buffer::NumVisible,
            Buffer::Means,
            Buffer::LogScales,
            Buffer::Quats,
            Buffer::ShCoeffs,
            Buffer::RawOpacities,
            Buffer::GlobalFromCompactGid,
            Buffer::ProjectedSplats,
            Buffer::SplatIntersectCounts,
        ],
        Kernel::MapGaussiansToIntersect => vec![
            Buffer::NumVisible,
            Buffer::ProjectedSplats,
            Buffer::CumTilesHit,
            Buffer::TileIdFromIsect,
            Buffer::CompactGidFromIsect,
        ],
        Kernel::GetTileOffsets => vec![
            Buffer::SortedTileIds,
            Buffer::TileOffsets,
            Buffer::NumIntersections,
        ],
        Kernel::Rasterize { bwd_info, high_error_info } => {
            let mut out = vec![
                Buffer::SortedCompactGids,
                Buffer::TileOffsets,
                Buffer::ProjectedSplats,
                Buffer::OutImg,
            ];
            if bwd_info {
                out.push(Buffer::GlobalFromCompactGid);
                out.push(Buffer::Visible);
                if high_error_info {
                    out.push(Buffer::HighErrorMask);
                    out.push(Buffer::HighErrorCount);
                }
            }
            out
        },
        Kernel::RasterizeBackwards { render_depth, .. } => {
            let (color, v_color) = if render_depth {
                (Buffer::OutColor, Buffer::VOutColor)
            } else {
                (Buffer::OutImg, Buffer::VOutput)
            };
            let mut out = vec![
                Buffer::Uniforms,
                Buffer::SortedCompactGids,
                Buffer::GlobalFromCompactGid,
                Buffer::TileOffsets,
                Buffer::ProjectedSplats,
                color,
                v_color,
                Buffer::VGrads,
                Buffer::VRawOpac,
                Buffer::VRefineWeight,
            ];
            if render_depth {
                out.push(Buffer::OutNormal);
                out.push(Buffer::OutDistance);
                out.push(Buffer::VOutNormal);
                out.push(Buffer::VOutDepth);
            }
            out
        },
        Kernel::ProjectBackwards { render_depth } => {
            let mut out = vec![
                Buffer::Uniforms,
                Buffer::Means,
                Buffer::LogScales,
                Buffer::Quats,
                Buffer::GlobalFromCompactGid,
                Buffer::VGrads,
                Buffer::VMeans,
                Buffer::VScales,
                Buffer::VQuats,
                Buffer::VCoeffs,
            ];
            if render_depth {
                out.push(Buffer::VNormals);
                out.push(Buffer::VPlaneDistances);
            }
            out
        },
    };
    assert(out@ =~= bindings(kernel));
    out
}


/// The number of threads in a group of the kernel that finds where tiles begin and end.
pub const TILE_OFFSET_THREADS: u32 = 256;

/// What the kernels fix about their groups: how many threads one has, and how many items a
/// thread looks at when it finds where tiles begin and end.
#[derive(Clone, Copy, PartialEq, Eq, Structural, Debug)]
pub struct GroupLayout {
    pub project_splats: u32,
    pub project_visible: u32,
    pub map_gaussians: u32,
    pub project_backwards: u32,
    pub checks_per_iter: u32,
}

/// How many threads a group has, and how many items each of them takes.
#[derive(Clone, Copy, PartialEq, Eq, Structural, Debug)]
pub struct GroupSize {
    pub threads: u32,
    pub items_per_thread: u32,
}

impl GroupSize {
    /// How many items a group takes.
    pub open spec fn total(self) -> int {
        self.threads * self.items_per_thread
    }

    /// Counts the items that a group takes.
    pub fn items(&self) -> (r: Option<u32>)
        ensures
            r == if self.total() <= u32::MAX {
                Some(self.total() as u32)
            } else {
                None
            },
    {
        self.threads.checked_mul(self.items_per_thread)
    }
}

/// The groups of a kernel that is run for so many items. A kernel that is run for tiles
/// takes one tile with each group, whatever its size.
pub open spec fn groups_of(kernel: Kernel, layout: GroupLayout) -> Option<GroupSize> {
    match kernel {
        Kernel::ProjectSplats { .. } => Some(
            GroupSize { threads: layout.project_splats, items_per_thread: 1 },
        ),
        Kernel::ProjectVisible { .. } => Some(
            GroupSize { threads: layout.project_visible, items_per_thread: 1 },
        ),
        Kernel::MapGaussiansToIntersect => Some(
            GroupSize { threads: layout.map_gaussians, items_per_thread: 1 },
        ),
        Kernel::GetTileOffsets => Some(
            GroupSize { threads: TILE_OFFSET_THREADS, items_per_thread: layout.checks_per_iter },
        ),
        Kernel::ProjectBackwards { .. } => Some(
            GroupSize { threads: layout.project_backwards, items_per_thread: 1 },
        ),
        Kernel::Rasterize { .. } | Kernel::RasterizeBackwards { .. } => None,
    }
}

/// Finds the size of the groups of a kernel, if it is run for so many items.
pub fn group_size(kernel: Kernel, layout: GroupLayout) -> (r: Option<GroupSize>)
    ensures
        r == groups_of(kernel, layout),
{
    let (threads, items_per_thread): (u32, u32) = match kernel {
        Kernel::ProjectSplats { .. } => (layout.project_splats, 1),
        Kernel::ProjectVisible { .. } => (layout.project_visible, 1),
        Kernel::MapGaussiansToIntersect => (layout.map_gaussians, 1),
        Kernel::GetTileOffsets => (TILE_OFFSET_THREADS, layout.checks_per_iter),
        Kernel::ProjectBackwards { .. } => (layout.project_backwards, 1),
        Kernel::Rasterize { .. } | Kernel::RasterizeBackwards { .. } => {
            return None;
        },
    };
    Some(GroupSize { threads, items_per_thread })
}

/// Whether a launch says for how many items, or for how many groups, its kernel is run: for
/// items exactly if the kernel has groups for them.
pub open spec fn fits_groups(op: GpuOp, layout: GroupLayout) -> bool {
    op matches GpuOp::Launch { kernel, dispatch } ==> (dispatch is Groups <==> groups_of(
        kernel,
        layout,
    ) is None)
}

/// Whether `op` makes `buffer`, or makes it anew.
pub open spec fn makes(op: GpuOp, buffer: Buffer) -> bool {
    match op {
        GpuOp::Zeros { buffer: b, .. } | GpuOp::Empty { buffer: b, .. } | GpuOp::Constant {
            buffer: b,
            ..
        } => b == buffer,
        GpuOp::Channels { to, .. } | GpuOp::PrefixSum { to, .. } => to == buffer,
        GpuOp::Sort { sorted_keys, sorted_values, .. } => sorted_keys == buffer || sorted_values
            == buffer,
        GpuOp::Contiguous { .. } | GpuOp::Launch { .. } => false,
    }
}

/// Whether `op` takes a part out of `buffer`.
pub open spec fn takes_apart(op: GpuOp, buffer: Buffer) -> bool {
    op matches GpuOp::Channels { from, .. } && from == buffer
}

/// The memory after `op`.
pub open spec fn perform(memory: Map<Buffer, TensorSpec>, op: GpuOp) -> Map<Buffer, TensorSpec> {
    match op {
        GpuOp::Zeros { buffer, spec } | GpuOp::Empty { buffer, spec } => memory.insert(
            buffer,
            spec,
        ),
        GpuOp::Constant { buffer, .. } => memory.insert(
            buffer,
            TensorSpec { shape: Shape::D1 { a: 1 }, dtype: DType::U32 },
        ),
        GpuOp::Channels { from, to, rows, cols, start, end } => memory.insert(
            to,
            TensorSpec {
                shape: Shape::D3 { a: rows, b: cols, c: (end - start) as usize },
                dtype: memory[from].dtype,
            },
        ),
        GpuOp::Sort { keys, values, sorted_keys, sorted_values, .. } => memory.insert(
            sorted_keys,
            memory[keys],
        ).insert(sorted_values, memory[values]),
        GpuOp::PrefixSum { from, to } => memory.insert(to, memory[from]),
        GpuOp::Contiguous { .. } | GpuOp::Launch { .. } => memory,
    }
}

/// Whether `op` can be performed: the buffers that it works on are there.
pub open spec fn performable(memory: Map<Buffer, TensorSpec>, op: GpuOp) -> bool {
    match op {
        GpuOp::Zeros { .. } | GpuOp::Empty { .. } | GpuOp::Constant { .. } => true,
        GpuOp::Contiguous { buffer } => memory.contains_key(buffer),
        GpuOp::Channels { from, rows, cols, start, end, .. } => memory.contains_key(from)
            && start <= end && (memory[from].shape matches Shape::D3 { a, b, c } && a == rows && b
            == cols && end <= c),
        GpuOp::Sort { keys, values, bits, limit, .. } => memory.contains_key(keys)
            && memory.contains_key(values) && memory[keys].shape == memory[values].shape && bits
            <= 32 && (limit matches Some(b) ==> memory.contains_key(b)),
        GpuOp::PrefixSum { from, .. } => memory.contains_key(from),
        GpuOp::Launch { kernel, dispatch } => (forall|i: int|
            0 <= i < bindings(kernel).len() ==> memory.contains_key(#[trigger] bindings(kernel)[i]))
            && (dispatch matches Dispatch::Counted { by } ==> memory.contains_key(by)),
    }
}

/// The memory after the first `n` operations of a pass.
pub open spec fn memory_after(
    memory: Map<Buffer, TensorSpec>,
    ops: Seq<GpuOp>,
    n: int,
) -> Map<Buffer, TensorSpec>
    decreases n,
{
    if n <= 0 {
        memory
    } else {
        perform(memory_after(memory, ops, n - 1), ops[n - 1])
    }
}

/// Whether all operations of a pass can be performed, one after the other.
pub open spec fn runs(memory: Map<Buffer, TensorSpec>, ops: Seq<GpuOp>) -> bool {
    forall|i: int|
        0 <= i < ops.len() ==> performable(memory_after(memory, ops, i), #[trigger] ops[i])
}

} // verus!
