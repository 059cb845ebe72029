//! What is known once splats were projected or drawn, read back from the device.

use crate::camera::UVec2;
use crate::num::F32Bits;
use crate::render::{calc_tile_bounds, tile_bounds, AuxPlan, ProjectHandles, ProjectUniforms};
use crate::text::{decimal, push_decimal};
use vstd::prelude::*;
use vstd::string::*;

verus! {

/// What the first pass gives.
#[derive(Debug)]
pub struct ProjectOutput {
    pub project_uniforms: ProjectUniforms,
    pub num_visible: u32,
    pub global_from_compact_gid: Vec<u32>,
    pub cum_tiles_hit: Vec<u32>,
    pub img_size: UVec2,
}

/// What is wrong with the outcome of a pass.
#[derive(Clone, Copy, PartialEq, Eq, Structural, Debug)]
pub enum Fault {
    /// More splats can be seen than there are.
    TooManyVisible { num_visible: u32, total_splats: u32 },
    /// There is no splat with this number.
    UnknownSplat { gid: u32, total_splats: u32 },
    /// A tile ends before it begins.
    TileReversed { start: u32, end: u32 },
    /// A tile holds more splats than can be seen.
    TileTooFull { hits: u32, num_visible: u32 },
}

/// A fault in words.
pub open spec fn fault_text(fault: Fault) -> Seq<char> {
    match fault {
        Fault::TooManyVisible { num_visible, total_splats } => "num_visible ("@ + decimal(
            num_visible as nat,
        ) + ") > total_splats ("@ + decimal(total_splats as nat) + ")"@,
        Fault::UnknownSplat { gid, total_splats } =>
        "Invalid gaussian ID in global_from_compact_gid: "@ + decimal(gid as nat) + " >= "@
            + decimal(total_splats as nat),
        Fault::TileReversed { start, end } => "Invalid tile offsets: start "@ + decimal(
            start as nat,
        ) + " > end "@ + decimal(end as nat),
        Fault::TileTooFull { hits, num_visible } => "Tile has more hits ("@ + decimal(hits as nat)
            + ") than visible splats ("@ + decimal(num_visible as nat) + ")"@,
    }
}

impl Fault {
    /// The fault in words.
    pub fn message(&self) -> (r: String)
        ensures
            r@ == fault_text(*self),
    {
        match self {
            Fault::TooManyVisible { num_visible, total_splats } => {
                let mut out: String = "num_visible (".to_owned();
                push_decimal(&mut out, *num_visible as u64);
                out.append(") > total_splats (");
                push_decimal(&mut out, *total_splats as u64);
                out.append(")");
                out
            },
            Fault::UnknownSplat { gid, total_splats } => {
                let mut out: String = "Invalid gaussian ID in global_from_compact_gid: ".to_owned();
                push_decimal(&mut out, *gid as u64);
                out.append(" >= ");
                push_decimal(&mut out, *total_splats as u64);
                out
            },
            Fault::TileReversed { start, end } => {
                let mut out: String = "Invalid tile offsets: start ".to_owned();
                push_decimal(&mut out, *start as u64);
                out.append(" > end ");
                push_decimal(&mut out, *end as u64);
                out
            },
            Fault::TileTooFull { hits, num_visible } => {
                let mut out: String = "Tile has more hits (".to_owned();
                push_decimal(&mut out, *hits as u64);
                out.append(") than visible splats (");
                push_decimal(&mut out, *num_visible as u64);
                out.append(")");
                out
            },
        }
    }
}

/// The first of `gids` that is no number of a splat.
pub open spec fn first_unknown(gids: Seq<u32>, total_splats: u32) -> Option<u32>
    decreases gids.len(),
{
    if gids.len() == 0 {
        None
    } else if gids[0] >= total_splats {
        Some(gids[0])
    } else {
        first_unknown(gids.skip(1), total_splats)
    }
}

/// The number of intersections of splats and tiles, when the last splat and those before
/// it touch `last_hit` tiles.
pub open spec fn intersections(total_splats: u32, last_hit: Option<u32>) -> u32 {
    match last_hit {
        Some(hits) if total_splats > 0 => hits,
        _ => 0,
    }
}

/// Counts the intersections of splats and tiles, when the last splat and those before it
/// touch `last_hit` tiles.
pub fn count_intersections(total_splats: u32, last_hit: Option<u32>) -> (r: u32)
    ensures
        r == intersections(total_splats, last_hit),
{
    match last_hit {
        Some(hits) => if total_splats > 0 {
            hits
        } else {
            0
        },
        None => 0,
    }
}

/// The last of `hits`.
pub open spec fn last_hit(hits: Seq<u32>) -> Option<u32> {
    if hits.len() > 0 {
        Some(hits.last())
    } else {
        None
    }
}

impl ProjectOutput {
    /// Puts what was read back from the device to what the first pass handed on.
    pub fn read(
        output: &ProjectHandles,
        num_visible: u32,
        global_from_compact_gid: Vec<u32>,
        cum_tiles_hit: Vec<u32>,
    ) -> (r: ProjectOutput)
        ensures
            r.project_uniforms == output.project_uniforms,
            r.num_visible == num_visible,
            r.global_from_compact_gid == global_from_compact_gid,
            r.cum_tiles_hit == cum_tiles_hit,
            r.img_size == output.img_size,
    {
        ProjectOutput {
            project_uniforms: output.project_uniforms,
            num_visible,
            global_from_compact_gid,
            cum_tiles_hit,
            img_size: output.img_size,
        }
    }

    /// There is an entry for each splat.
    pub open spec fn complete(self) -> bool {
        &&& self.global_from_compact_gid@.len() == self.project_uniforms.total_splats
        &&& self.cum_tiles_hit@.len() == self.project_uniforms.total_splats
    }

    /// What is wrong, if anything.
    pub open spec fn fault(self) -> Option<Fault> {
        let total_splats = self.project_uniforms.total_splats;
        let num_visible = self.num_visible;
        if num_visible > total_splats {
            Some(Fault::TooManyVisible { num_visible, total_splats })
        } else {
            match first_unknown(
                self.global_from_compact_gid@.take(num_visible as int),
                total_splats,
            ) {
                Some(gid) => Some(Fault::UnknownSplat { gid, total_splats }),
                None => None,
            }
        }
    }

    /// The number of intersections of splats and tiles.
    pub fn read_num_intersections(&self) -> (r: u32)
        requires
            self.complete(),
        ensures
            r == intersections(
                self.project_uniforms.total_splats,
                last_hit(self.cum_tiles_hit@),
            ),
    {
        let total: usize = self.project_uniforms.total_splats as usize;
        if total > 0 {
            self.cum_tiles_hit[total - 1]
        } else {
            0
        }
    }

    /// Looks for something wrong with the outcome of the first pass.
    pub fn validate(&self) -> (r: Result<(), Fault>)
        requires
            self.complete(),
        ensures
            r == match self.fault() {
                Some(fault) => Err::<(), Fault>(fault),
                None => Ok::<(), Fault>(()),
            },
    {
        let total_splats: u32 = self.project_uniforms.total_splats;
        let num_visible: u32 = self.num_visible;
        if num_visible > total_splats {
            return Err(Fault::TooManyVisible { num_visible, total_splats });
        }
        let ghost seen = self.global_from_compact_gid@.take(num_visible as int);
        let mut i: usize = 0;
        assert(seen.skip(0) == seen);
        while i < num_visible as usize
            invariant
                i <= num_visible,
                num_visible <= self.global_from_compact_gid@.len(),
                num_visible == self.num_visible,
                total_splats == self.project_uniforms.total_splats,
                num_visible <= total_splats,
                seen == self.global_from_compact_gid@.take(num_visible as int),
                first_unknown(seen, total_splats) == first_unknown(
                    seen.skip(i as int),
                    total_splats,
                ),
            decreases num_visible - i,
        {
            let gid: u32 = self.global_from_compact_gid[i];
            assert(seen.skip(i as int)[0] == gid);
            assert(seen.skip(i as int).skip(1) == seen.skip(i + 1));
            if gid >= total_splats {
                return Err(Fault::UnknownSplat { gid, total_splats });
            }
            i = i + 1;
        }
        Ok(())
    }
}

/// What comes along with a picture.
#[derive(Debug)]
pub struct RenderAux {
    pub num_visible: u32,
    pub num_intersections: u32,
    /// How much of each splat can be seen.
    pub visible: Vec<F32Bits>,
    /// For each tile, row by row, where its splats begin and end.
    pub tile_offsets: Vec<u32>,
    pub img_size: UVec2,
    pub high_error_count: Vec<u32>,
}

/// What is wrong with a tile whose splats begin and end here, if anything.
pub open spec fn tile_fault(start: u32, end: u32, num_visible: u32) -> Option<Fault> {
    if end < start {
        Some(Fault::TileReversed { start, end })
    } else if end - start > num_visible {
        Some(Fault::TileTooFull { hits: (end - start) as u32, num_visible })
    } else {
        None
    }
}

/// What is wrong with the first tile that something is wrong with.
pub open spec fn first_tile_fault(offsets: Seq<u32>, from: int, num_visible: u32) -> Option<Fault>
    decreases offsets.len() - 2 * from,
{
    if from < 0 || 2 * from + 1 >= offsets.len() {
        None
    } else {
        match tile_fault(offsets[2 * from], offsets[2 * from + 1], num_visible) {
            Some(fault) => Some(fault),
            None => first_tile_fault(offsets, from + 1, num_visible),
        }
    }
}

/// How many splats lie over a tile, as the device counts them: without sign, and starting
/// over when it runs out of numbers.
pub open spec fn tile_depth(start: u32, end: u32) -> int {
    (end - start) % 0x1_0000_0000
}

impl RenderAux {
    /// Puts what was read back from the device to what goes along with a picture.
    pub fn read(
        plan: &AuxPlan,
        num_visible: u32,
        visible: Vec<F32Bits>,
        tile_offsets: Vec<u32>,
        high_error_count: Vec<u32>,
    ) -> (r: RenderAux)
        ensures
            r.num_visible == num_visible,
            r.num_intersections == plan.num_intersections,
            r.visible == visible,
            r.tile_offsets == tile_offsets,
            r.img_size == plan.img_size,
            r.high_error_count == high_error_count,
    {
        RenderAux {
            num_visible,
            num_intersections: plan.num_intersections,
            visible,
            tile_offsets,
            img_size: plan.img_size,
            high_error_count,
        }
    }

    /// How many splats can be seen.
    pub fn get_num_visible(&self) -> (r: u32)
        ensures
            r == self.num_visible,
    {
        self.num_visible
    }

    /// Counts the splats over each tile, row by row. Also gives the number of rows and
    /// columns.
    pub fn calc_tile_depth(&self, tile_width: u32) -> (r: (Vec<u32>, u32, u32))
        requires
            tile_width > 0,
            self.tile_offsets@.len() == 2 * (tile_bounds(self.img_size, tile_width).x
                * tile_bounds(self.img_size, tile_width).y),
        ensures
            ({
                let t = tile_bounds(self.img_size, tile_width);
                &&& r.1 == t.y
                &&& r.2 == t.x
                &&& r.0@.len() == t.x * t.y
            }),
            forall|i: int|
                0 <= i < r.0@.len() ==> #[trigger] r.0@[i] == tile_depth(
                    self.tile_offsets@[2 * i],
                    self.tile_offsets@[2 * i + 1],
                ),
    {
        let tiles = calc_tile_bounds(self.img_size, tile_width);
        let count: usize = self.tile_offsets.len() / 2;
        let mut out: Vec<u32> = Vec::new();
        for i in 0..count
            invariant
                count == self.tile_offsets.len() / 2,
                out@.len() == i,
                forall|k: int|
                    0 <= k < i ==> #[trigger] out@[k] == tile_depth(
                        self.tile_offsets@[2 * k],
                        self.tile_offsets@[2 * k + 1],
                    ),
        {
            let start: u32 = self.tile_offsets[2 * i];
            let end: u32 = self.tile_offsets[2 * i + 1];
            let depth: u32 = if start <= end {
                end - start
            } else {
                (0x1_0000_0000u64 + end as u64 - start as u64) as u32
            };
            out.push(depth);
        }
        (out, tiles.y, tiles.x)
    }

    /// Looks for something wrong with what came along with a picture.
    pub fn validate(&self) -> (r: Result<(), Fault>)
        ensures
            r == match first_tile_fault(self.tile_offsets@, 0, self.num_visible) {
                Some(fault) => Err::<(), Fault>(fault),
                None => Ok::<(), Fault>(()),
            },
    {
        let count: usize = self.tile_offsets.len() / 2;
        let num_visible: u32 = self.num_visible;
        let mut i: usize = 0;
        while i < count
            invariant
                i <= count,
                count == self.tile_offsets.len() / 2,
                num_visible == self.num_visible,
                first_tile_fault(self.tile_offsets@, 0, num_visible) == first_tile_fault(
                    self.tile_offsets@,
                    i as int,
                    num_visible,
                ),
            decreases count - i,
        {
            let start: u32 = self.tile_offsets[2 * i];
            let end: u32 = self.tile_offsets[2 * i + 1];
            if end < start {
                return Err(Fault::TileReversed { start, end });
            }
            if end - start > num_visible {
                return Err(Fault::TileTooFull { hits: end - start, num_visible });
            }
            i = i + 1;
        }
        Ok(())
    }
}

/// A picture that nothing is wrong with has no tile with more splats than can be seen.
pub proof fn law_valid_tiles(offsets: Seq<u32>, num_visible: u32, tile: int)
    requires
        first_tile_fault(offsets, 0, num_visible) is None,
        0 <= tile < offsets.len() / 2,
    ensures
        tile_depth(offsets[2 * tile], offsets[2 * tile + 1]) <= num_visible,
{
    lemma_no_fault(offsets, 0, num_visible, tile);
}

proof fn lemma_no_fault(offsets: Seq<u32>, from: int, num_visible: u32, tile: int)
    requires
        first_tile_fault(offsets, from, num_visible) is None,
        0 <= from <= tile < offsets.len() / 2,
    ensures
        tile_fault(offsets[2 * tile], offsets[2 * tile + 1], num_visible) is None,
    decreases tile - from,
{
    if from < tile {
        lemma_no_fault(offsets, from + 1, num_visible, tile);
    }
}

} // verus!
