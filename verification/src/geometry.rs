//! Where things lie in pictures and point clouds.

use vstd::prelude::*;

verus! {

/// The channels of a picture with depth.
pub const RENDER_CHANNELS: usize = 10;

/// A part of the channels of a picture with depth.
#[derive(Clone, Copy, PartialEq, Eq, Structural, Debug)]
pub enum Channel {
    Color,
    Alpha,
    Normal,
    Depth,
    Distance,
}

/// Where a part of the channels begins and ends.
pub open spec fn channel_range(channel: Channel) -> (usize, usize) {
    match channel {
        Channel::Color => (0, 4),
        Channel::Alpha => (3, 4),
        Channel::Normal => (4, 7),
        Channel::Depth => (8, 9),
        Channel::Distance => (9, 10),
    }
}

/// Finds where a part of the channels begins and ends, in a picture that has all of them.
pub fn channels_of(channels: usize, channel: Channel) -> (r: Option<(usize, usize)>)
    ensures
        r == if channels == RENDER_CHANNELS {
            Some(channel_range(channel))
        } else {
            None
        },
{
    if channels != RENDER_CHANNELS {
        return None;
    }
    Some(
        match channel {
            Channel::Color => (0, 4),
            Channel::Alpha => (3, 4),
            Channel::Normal => (4, 7),
            Channel::Depth => (8, 9),
            Channel::Distance => (9, 10),
        },
    )
}

/// All parts lie within the picture.
pub proof fn law_channels_within(channel: Channel)
    ensures
        channel_range(channel).0 < channel_range(channel).1 <= RENDER_CHANNELS,
{
}

/// A rectangle of a picture: its rows and columns, without the last ones.
#[derive(Clone, Copy, PartialEq, Eq, Structural, Debug)]
pub struct Window {
    pub row_start: usize,
    pub row_end: usize,
    pub col_start: usize,
    pub col_end: usize,
}

/// The neighbors of all inner pixels of a picture, as four rectangles.
#[derive(Clone, Copy, PartialEq, Eq, Structural, Debug)]
pub struct Neighbors {
    pub top: Window,
    pub bottom: Window,
    pub left: Window,
    pub right: Window,
}

/// The pixels that lie `down` rows below and `right` columns beside the inner ones; one
/// of both is zero.
pub open spec fn shifted(height: usize, width: usize, down: int, right: int) -> Window {
    Window {
        row_start: (1 + down) as usize,
        row_end: (height - 1 + down) as usize,
        col_start: (1 + right) as usize,
        col_end: (width - 1 + right) as usize,
    }
}

/// Finds the neighbors of all inner pixels.
pub fn neighbor_windows(height: usize, width: usize) -> (r: Neighbors)
    requires
        height >= 2,
        width >= 2,
    ensures
        r.top == shifted(height, width, -1, 0),
        r.bottom == shifted(height, width, 1, 0),
        r.left == shifted(height, width, 0, -1),
        r.right == shifted(height, width, 0, 1),
{
    let inner_rows: (usize, usize) = (1, height - 1);
    let inner_cols: (usize, usize) = (1, width - 1);
    Neighbors {
        top: Window {
            row_start: 0,
            row_end: height - 2,
            col_start: inner_cols.0,
            col_end: inner_cols.1,
        },
        bottom: Window {
            row_start: 2,
            row_end: height,
            col_start: inner_cols.0,
            col_end: inner_cols.1,
        },
        left: Window {
            row_start: inner_rows.0,
            row_end: inner_rows.1,
            col_start: 0,
            col_end: width - 2,
        },
        right: Window {
            row_start: inner_rows.0,
            row_end: inner_rows.1,
            col_start: 2,
            col_end: width,
        },
    }
}

/// Whether a rectangle lies within a picture.
pub open spec fn inside(w: Window, height: usize, width: usize) -> bool {
    w.row_start <= w.row_end <= height && w.col_start <= w.col_end <= width
}

/// The neighbors on all four sides have the same extents, lie within the picture, and
/// with a border of one pixel make up a picture of its size.
pub proof fn law_neighbors_fit(height: usize, width: usize, down: int, right: int)
    requires
        height >= 2,
        width >= 2,
        -1 <= down <= 1,
        -1 <= right <= 1,
    ensures
        inside(shifted(height, width, down, right), height, width),
        shifted(height, width, down, right).row_end - shifted(height, width, down, right).row_start
            + 2 == height,
        shifted(height, width, down, right).col_end - shifted(height, width, down, right).col_start
            + 2 == width,
{
}

/// Where the four pixels around a place in a picture lie, row by row.
#[derive(Clone, Copy, PartialEq, Eq, Structural, Debug)]
pub struct Corners {
    pub q11: usize,
    pub q21: usize,
    pub q12: usize,
    pub q22: usize,
}

/// The pixel after `i`, or the last one.
pub open spec fn next_clamped(i: int, size: int) -> int {
    if i + 1 < size {
        i + 1
    } else {
        size - 1
    }
}

/// Finds the four pixels around a place; `u` and `v` are the column and row that it lies
/// in. At the border the last pixel is taken twice.
pub fn sample_corners(u: usize, v: usize, width: usize, height: usize) -> (r: Corners)
    requires
        u < width,
        v < height,
        width * height <= usize::MAX,
    ensures
        r.q11 == v * width + u,
        r.q21 == v * width + next_clamped(u as int, width as int),
        r.q12 == next_clamped(v as int, height as int) * width + u,
        r.q22 == next_clamped(v as int, height as int) * width + next_clamped(
            u as int,
            width as int,
        ),
        r.q11 < width * height,
        r.q21 < width * height,
        r.q12 < width * height,
        r.q22 < width * height,
{
    let u2: usize = if u + 1 < width {
        u + 1
    } else {
        width - 1
    };
    let v2: usize = if v + 1 < height {
        v + 1
    } else {
        height - 1
    };
    proof {
        lemma_within(u as int, v as int, width as int, height as int);
        lemma_within(u2 as int, v as int, width as int, height as int);
        lemma_within(u as int, v2 as int, width as int, height as int);
        lemma_within(u2 as int, v2 as int, width as int, height as int);
    }
    Corners {
        q11: v * width + u,
        q21: v * width + u2,
        q12: v2 * width + u,
        q22: v2 * width + u2,
    }
}

proof fn lemma_within(u: int, v: int, width: int, height: int)
    requires
        0 <= u < width,
        0 <= v < height,
    ensures
        0 <= v * width,
        v * width + u < width * height,
{
    assert(0 <= v * width && v * width + u < width * height) by (nonlinear_arith)
        requires
            0 <= u < width,
            0 <= v < height,
    ;
}

/// Whether there is a point for each pixel of a picture.
pub fn one_per_pixel(points: usize, width: u32, height: u32) -> (r: bool)
    requires
        width * height <= u32::MAX,
    ensures
        r == (points == width * height),
{
    points == (width * height) as usize
}

/// The column and row of pixel `i`, counted row by row.
pub fn pixel_position(i: usize, width: usize) -> (r: (usize, usize))
    requires
        width > 0,
    ensures
        r.0 == i as int % width as int,
        r.1 == i as int / width as int,
        i == r.1 * width + r.0,
        r.0 < width,
{
    proof {
        let n = i as int;
        let w = width as int;
        assert(n == n / w * w + n % w && 0 <= n % w < w) by (nonlinear_arith)
            requires
                w > 0,
        ;
    }
    (i % width, i / width)
}

/// Whether rows of so many coordinates are points in space.
pub fn is_spatial(coordinates: usize) -> (r: bool)
    ensures
        r == (coordinates == 3),
{
    coordinates == 3
}

/// The neighbors of a pixel lie at its own place in their rectangles: the pixel above it in
/// the upper one, the one below it in the lower one, and those beside it in the other two.
pub proof fn law_neighbors_of_pixel(
    height: usize,
    width: usize,
    down: int,
    right: int,
    row: int,
    col: int,
)
    requires
        height >= 2,
        width >= 2,
        -1 <= down <= 1,
        -1 <= right <= 1,
        1 <= row < height - 1,
        1 <= col < width - 1,
    ensures
        ({
            let w = shifted(height, width, down, right);
            &&& w.row_start + (row - 1) == row + down
            &&& w.col_start + (col - 1) == col + right
            &&& w.row_start <= row + down < w.row_end
            &&& w.col_start <= col + right < w.col_end
        }),
{
}

/// The pixel after one is the next one, or the same one where there is none.
pub proof fn law_next_pixel(i: int, size: int)
    requires
        0 <= i < size,
    ensures
        i <= next_clamped(i, size) < size,
        next_clamped(i, size) <= i + 1,
        next_clamped(i, size) == i <==> i == size - 1,
{
}

/// The parts of a picture with depth follow each other: four channels of color, of which
/// the last is opacity, three of normals, one that is left out, one of depth, and one of
/// distance.
pub proof fn law_channels_apart()
    ensures
        channel_range(Channel::Color).0 == 0,
        channel_range(Channel::Color).1 == 4,
        channel_range(Channel::Alpha).0 + 1 == channel_range(Channel::Color).1,
        channel_range(Channel::Alpha).1 == channel_range(Channel::Color).1,
        channel_range(Channel::Normal).0 == channel_range(Channel::Color).1,
        channel_range(Channel::Normal).1 == channel_range(Channel::Normal).0 + 3,
        channel_range(Channel::Depth).0 == channel_range(Channel::Normal).1 + 1,
        channel_range(Channel::Depth).1 == channel_range(Channel::Depth).0 + 1,
        channel_range(Channel::Distance).0 == channel_range(Channel::Depth).1,
        channel_range(Channel::Distance).1 == channel_range(Channel::Distance).0 + 1,
        channel_range(Channel::Distance).1 == 10,
{
}

} // verus!
