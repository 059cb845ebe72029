//! Pictures of what was rendered, for people to look at.

use crate::geometry::{channel_range, Channel};
use crate::num::{magnitude32, F32Bits, INFINITY_BITS, MAX_BITS, ONE_BITS};
use image::{GenericImage, RgbaImage};
use vstd::prelude::*;
use vstd::string::*;

verus! {

/// The pictures that a rendering is saved as.
#[derive(Clone, Copy, PartialEq, Eq, Structural, Debug)]
pub enum RenderFile {
    Rgb,
    Normal,
    Depth,
    Distance,
    PointCloud,
}

/// What is put behind the prefix of a file name.
pub open spec fn file_suffix(file: RenderFile) -> Seq<char> {
    match file {
        RenderFile::Rgb => "_render_rgb.png"@,
        RenderFile::Normal => "_render_normal.png"@,
        RenderFile::Depth => "_render_depth.png"@,
        RenderFile::Distance => "_render_distance.png"@,
        RenderFile::PointCloud => "_pointcloud.ply"@,
    }
}

/// The name of the file that a rendering is saved as.
pub fn render_file(prefix: &str, file: RenderFile) -> (r: String)
    ensures
        r@ == prefix@ + file_suffix(file),
{
    let mut out: String = prefix.to_owned();
    match file {
        RenderFile::Rgb => out.append("_render_rgb.png"),
        RenderFile::Normal => out.append("_render_normal.png"),
        RenderFile::Depth => out.append("_render_depth.png"),
        RenderFile::Distance => out.append("_render_distance.png"),
        RenderFile::PointCloud => out.append("_pointcloud.ply"),
    }
    out
}

/// A file that a rendering is saved as, and the channels that it shows.
#[derive(Debug)]
pub struct SavedFile {
    pub file: RenderFile,
    pub path: String,
    pub first_channel: usize,
    pub end_channel: usize,
}

/// The channels that a picture shows; a point cloud is made from depth.
pub open spec fn shown_channels(file: RenderFile) -> (usize, usize) {
    match file {
        RenderFile::Rgb => channel_range(Channel::Color),
        RenderFile::Normal => channel_range(Channel::Normal),
        RenderFile::Depth => channel_range(Channel::Depth),
        RenderFile::Distance => channel_range(Channel::Distance),
        RenderFile::PointCloud => channel_range(Channel::Depth),
    }
}

/// The files that a rendering is saved as, in order. A point cloud without points is not
/// saved.
pub open spec fn render_files(save_point_cloud: bool, has_points: bool) -> Seq<RenderFile> {
    let pictures = seq![
        RenderFile::Rgb,
        RenderFile::Normal,
        RenderFile::Depth,
        RenderFile::Distance,
    ];
    if save_point_cloud && has_points {
        pictures.push(RenderFile::PointCloud)
    } else {
        pictures
    }
}

/// Whether `saved` says how `file` is saved.
pub open spec fn saves(saved: SavedFile, file: RenderFile, prefix: Seq<char>) -> bool {
    &&& saved.file == file
    &&& saved.path@ == prefix + file_suffix(file)
    &&& (saved.first_channel, saved.end_channel) == shown_channels(file)
}

fn saved_file(prefix: &str, file: RenderFile) -> (r: SavedFile)
    ensures
        saves(r, file, prefix@),
{
    let (first_channel, end_channel): (usize, usize) = match file {
        RenderFile::Rgb => (0, 4),
        RenderFile::Normal => (4, 7),
        RenderFile::Depth => (8, 9),
        RenderFile::Distance => (9, 10),
        RenderFile::PointCloud => (8, 9),
    };
    SavedFile { file, path: render_file(prefix, file), first_channel, end_channel }
}

/// Whether `saved` lists the files that a rendering is saved as.
pub open spec fn lists_files(
    saved: Seq<SavedFile>,
    prefix: Seq<char>,
    save_point_cloud: bool,
    has_points: bool,
) -> bool {
    let files = render_files(save_point_cloud, has_points);
    &&& saved.len() == files.len()
    &&& forall|i: int| 0 <= i < saved.len() ==> saves(#[trigger] saved[i], files[i], prefix)
}

fn list_files(prefix: &str, save_point_cloud: bool, has_points: bool) -> (r: Vec<SavedFile>)
    ensures
        lists_files(r@, prefix@, save_point_cloud, has_points),
{
    let mut out: Vec<SavedFile> = Vec::new();
    out.push(saved_file(prefix, RenderFile::Rgb));
    out.push(saved_file(prefix, RenderFile::Normal));
    out.push(saved_file(prefix, RenderFile::Depth));
    out.push(saved_file(prefix, RenderFile::Distance));
    if save_point_cloud && has_points {
        out.push(saved_file(prefix, RenderFile::PointCloud));
    }
    out
}

/// What a rendering is saved as: its files, and the points of its point cloud.
#[derive(Debug)]
pub struct RenderOutput {
    pub files: Vec<SavedFile>,
    pub points: Vec<PointSource>,
}

/// Decides what a rendering is saved as. `depth` and `rgba` are its depths and colors, row
/// by row. Points are looked for only if a point cloud was asked for.
pub fn save_render_output(
    prefix: &str,
    depth: &Vec<F32Bits>,
    rgba: &Vec<u8>,
    w: usize,
    h: usize,
    save_point_cloud: bool,
) -> (r: RenderOutput)
    requires
        depth@.len() == w * h,
        rgba@.len() == 4 * (w * h),
    ensures
        r.points@ == if save_point_cloud {
            points_of(depth@, rgba@, w as int, w * h)
        } else {
            Seq::empty()
        },
        lists_files(r.files@, prefix@, save_point_cloud, r.points@.len() > 0),
{
    let points: Vec<PointSource> = if save_point_cloud {
        collect_points(depth, rgba, w, h)
    } else {
        Vec::new()
    };
    RenderOutput { files: list_files(prefix, save_point_cloud, points.len() > 0), points }
}

/// A point cloud is saved exactly if it was asked for and some pixel gives a point.
pub proof fn law_point_cloud_saved(
    saved: Seq<SavedFile>,
    prefix: Seq<char>,
    depth: Seq<F32Bits>,
    rgba: Seq<u8>,
    w: int,
    save_point_cloud: bool,
)
    requires
        lists_files(
            saved,
            prefix,
            save_point_cloud,
            save_point_cloud && points_of(depth, rgba, w, depth.len() as int).len() > 0,
        ),
    ensures
        (exists|i: int| 0 <= i < saved.len() && (#[trigger] saved[i]).file is PointCloud) <==> (
        save_point_cloud && exists|i: int|
            0 <= i < depth.len() && gives_point(#[trigger] depth[i])),
{
    lemma_some_point(depth, rgba, w, depth.len() as int);
    let points = points_of(depth, rgba, w, depth.len() as int);
    let files = render_files(save_point_cloud, save_point_cloud && points.len() > 0);
    if save_point_cloud && points.len() > 0 {
        assert(saves(saved[4], files[4], prefix));
        assert(saved[4].file is PointCloud);
    } else {
        assert forall|i: int| 0 <= i < saved.len() implies !((#[trigger] saved[i]).file
            is PointCloud) by {
            assert(saves(saved[i], files[i], prefix));
        }
    }
}

proof fn lemma_some_point(depth: Seq<F32Bits>, rgba: Seq<u8>, w: int, n: int)
    requires
        0 <= n <= depth.len(),
    ensures
        points_of(depth, rgba, w, n).len() > 0 <==> exists|i: int|
            0 <= i < n && gives_point(#[trigger] depth[i]),
    decreases n,
{
    if n > 0 {
        lemma_some_point(depth, rgba, w, n - 1);
        if gives_point(depth[n - 1]) {
            assert(points_of(depth, rgba, w, n).len() > 0);
        }
    }
}

/// The range that values above zero span.
#[derive(Clone, Copy, PartialEq, Eq, Structural, Debug)]
pub struct Span {
    pub min: F32Bits,
    pub max: F32Bits,
}

impl Span {
    /// Whether there is more than one value in it.
    pub open spec fn wide(self) -> bool {
        self.min.bits < self.max.bits
    }
}

/// The range of the values above zero among `data`. The lower end is finite.
pub open spec fn positive_span(data: Seq<F32Bits>) -> Option<Span>
    decreases data.len(),
{
    if data.len() == 0 {
        None
    } else {
        let before = positive_span(data.drop_last());
        let v = data.last();
        if !v.positive() {
            before
        } else {
            let span = match before {
                Some(s) => s,
                None => Span { min: F32Bits { bits: MAX_BITS }, max: v },
            };
            Some(
                Span {
                    min: if v.bits < span.min.bits {
                        v
                    } else {
                        span.min
                    },
                    max: if v.bits > span.max.bits {
                        v
                    } else {
                        span.max
                    },
                },
            )
        }
    }
}

/// Finds the range of the values above zero.
pub fn find_span(data: &Vec<F32Bits>) -> (r: Option<Span>)
    ensures
        r == positive_span(data@),
{
    let mut span: Option<Span> = None;
    let mut i: usize = 0;
    while i < data.len()
        invariant
            i <= data.len(),
            span == positive_span(data@.take(i as int)),
        decreases data.len() - i,
    {
        let v = data[i];
        if v.is_positive() {
            let s = match span {
                Some(s) => s,
                None => Span { min: F32Bits { bits: MAX_BITS }, max: v },
            };
            let min = if v.bits < s.min.bits {
                v
            } else {
                s.min
            };
            let max = if v.bits > s.max.bits {
                v
            } else {
                s.max
            };
            span = Some(Span { min, max });
        }
        i = i + 1;
        assert(data@.take(i as int).drop_last() == data@.take(i - 1));
        assert(data@.take(i as int).last() == data@[i - 1]);
    }
    assert(data@.take(data@.len() as int) == data@);
    span
}

/// Whether a value is drawn by where it lies in its range. The others are drawn as if
/// they were at the lower end.
pub open spec fn is_graded(value: F32Bits, span: Option<Span>) -> bool {
    value.positive() && (span matches Some(s) && s.wide())
}

/// Says of each value whether it is drawn by where it lies in its range.
pub fn graded(data: &Vec<F32Bits>, span: Option<Span>) -> (r: Vec<bool>)
    ensures
        r@ == data@.map_values(|v: F32Bits| is_graded(v, span)),
{
    let wide = match span {
        Some(s) => s.min.bits < s.max.bits,
        None => false,
    };
    let mut out: Vec<bool> = Vec::new();
    let mut i: usize = 0;
    while i < data.len()
        invariant
            i <= data.len(),
            wide == (span matches Some(s) && s.wide()),
            out@ == data@.take(i as int).map_values(|v: F32Bits| is_graded(v, span)),
        decreases data.len() - i,
    {
        out.push(data[i].is_positive() && wide);
        i = i + 1;
        assert(out@ == data@.take(i as int).map_values(|v: F32Bits| is_graded(v, span)));
    }
    assert(data@.take(data@.len() as int) == data@);
    out
}

/// Values that are drawn by where they lie in their range do lie in it.
pub proof fn law_graded_in_span(data: Seq<F32Bits>, i: int)
    requires
        0 <= i < data.len(),
        data[i].positive(),
    ensures
        positive_span(data) matches Some(s) && (s.min.bits <= data[i].bits || data[i].bits
            == INFINITY_BITS) && data[i].bits <= s.max.bits,
    decreases data.len(),
{
    if i < data.len() - 1 {
        law_graded_in_span(data.drop_last(), i);
        assert(data.drop_last()[i] == data[i]);
    }
}

/// Where a point of a point cloud comes from: a pixel, its depth and its color.
#[derive(Clone, Copy, PartialEq, Eq, Structural, Debug)]
pub struct PointSource {
    pub x: usize,
    pub y: usize,
    pub depth: F32Bits,
    pub red: u8,
    pub green: u8,
    pub blue: u8,
}

/// Whether a depth gives a point: it is neither zero or less, nor more than one.
pub open spec fn gives_point(depth: F32Bits) -> bool {
    !((magnitude32(depth.bits) <= INFINITY_BITS && (depth.bits == 0 || depth.bits >= 0x8000_0000))
        || ONE_BITS < depth.bits <= INFINITY_BITS)
}

/// Whether a depth gives a point.
pub fn is_point(depth: F32Bits) -> (r: bool)
    ensures
        r == gives_point(depth),
{
    let magnitude: u32 = if depth.bits >= 0x8000_0000 {
        depth.bits - 0x8000_0000
    } else {
        depth.bits
    };
    !((magnitude <= INFINITY_BITS && (depth.bits == 0 || depth.bits >= 0x8000_0000)) || (ONE_BITS
        < depth.bits && depth.bits <= INFINITY_BITS))
}

/// The point that pixel `i` gives.
pub open spec fn point_at(depth: Seq<F32Bits>, rgba: Seq<u8>, w: int, i: int) -> PointSource {
    PointSource {
        x: (i % w) as usize,
        y: (i / w) as usize,
        depth: depth[i],
        red: rgba[4 * i],
        green: rgba[4 * i + 1],
        blue: rgba[4 * i + 2],
    }
}

/// The points that the first `n` pixels give, row by row.
pub open spec fn points_of(depth: Seq<F32Bits>, rgba: Seq<u8>, w: int, n: int) -> Seq<PointSource>
    decreases n,
{
    if n <= 0 {
        Seq::empty()
    } else {
        let before = points_of(depth, rgba, w, n - 1);
        if gives_point(depth[n - 1]) {
            before.push(point_at(depth, rgba, w, n - 1))
        } else {
            before
        }
    }
}

/// Finds the points that a picture with depth gives, row by row.
pub fn collect_points(depth: &Vec<F32Bits>, rgba: &Vec<u8>, w: usize, h: usize) -> (r: Vec<
    PointSource,
>)
    requires
        depth@.len() == w * h,
        rgba@.len() == 4 * (w * h),
    ensures
        r@ == points_of(depth@, rgba@, w as int, w * h),
{
    let mut out: Vec<PointSource> = Vec::new();
    let mut i: usize = 0;
    let mut x: usize = 0;
    let mut y: usize = 0;
    while i < depth.len()
        invariant
            i <= depth.len(),
            depth@.len() == w * h,
            rgba.len() == 4 * depth.len(),
            i < depth.len() ==> x < w && y < h,
            i == y * w + x,
            out@ == points_of(depth@, rgba@, w as int, i as int),
        decreases depth.len() - i,
    {
        proof {
            lemma_row(i as int, x as int, y as int, w as int);
        }
        if is_point(depth[i]) {
            out.push(
                PointSource {
                    x,
                    y,
                    depth: depth[i],
                    red: rgba[4 * i],
                    green: rgba[4 * i + 1],
                    blue: rgba[4 * i + 2],
                },
            );
        }
        i = i + 1;
        proof {
            assert((y + 1) * w == y * w + w) by (nonlinear_arith);
            if x + 1 == w {
                assert(i < w * h ==> y + 1 < h) by (nonlinear_arith)
                    requires
                        i == (y + 1) * w,
                        w > 0,
                ;
            }
        }
        if x + 1 < w {
            x = x + 1;
        } else {
            x = 0;
            y = y + 1;
        }
    }
    out
}

proof fn lemma_row(i: int, x: int, y: int, w: int)
    requires
        i == y * w + x,
        0 <= x < w,
        0 <= y,
    ensures
        i % w == x,
        i / w == y,
{
    assert(i % w == x && i / w == y) by (nonlinear_arith)
        requires
            i == y * w + x,
            0 <= x < w,
            0 <= y,
    ;
}

/// Turns a mask into a gray picture: white where it holds, black where it does not.
pub fn mask_bytes(mask: &Vec<bool>) -> (r: Vec<u8>)
    ensures
        r@ == mask@.map_values(
            |m: bool|
                if m {
                    255u8
                } else {
                    0u8
                },
        ),
{
    let mut out: Vec<u8> = Vec::new();
    let ghost shade = |m: bool|
        if m {
            255u8
        } else {
            0u8
        };
    let mut i: usize = 0;
    while i < mask.len()
        invariant
            i <= mask.len(),
            shade == (|m: bool|
                if m {
                    255u8
                } else {
                    0u8
                }),
            out@ == mask@.take(i as int).map_values(shade),
        decreases mask.len() - i,
    {
        out.push(
            if mask[i] {
                255
            } else {
                0
            },
        );
        i = i + 1;
        assert(out@ == mask@.take(i as int).map_values(shade));
    }
    assert(mask@.take(mask@.len() as int) == mask@);
    out
}

/// Whether a picture of normals has the channels that it has to have.
pub fn is_normal_map(channels: usize) -> (r: bool)
    ensures
        r == (channels == 3),
{
    channels == 3
}

/// The first `pixels` pixels of a picture with three channels, with full opacity.
pub open spec fn opaque_bytes(rgb: Seq<u8>, pixels: nat) -> Seq<u8> {
    Seq::new(
        4 * pixels,
        |i: int|
            if i % 4 == 3 {
                255u8
            } else {
                rgb[i / 4 * 3 + i % 4]
            },
    )
}

/// Makes the first `pixels` pixels of a picture with three channels fully opaque.
pub fn with_alpha(rgb: &Vec<u8>, pixels: usize) -> (r: Vec<u8>)
    requires
        rgb@.len() >= 3 * pixels,
        4 * pixels <= usize::MAX,
    ensures
        r@ == opaque_bytes(rgb@, pixels as nat),
{
    let mut out: Vec<u8> = Vec::new();
    let mut i: usize = 0;
    while i < pixels
        invariant
            i <= pixels,
            rgb.len() >= 3 * pixels,
            4 * pixels <= usize::MAX,
            out@.len() == 4 * i,
            forall|k: int| 0 <= k < 4 * i ==> out@[k] == opaque_bytes(rgb@, pixels as nat)[k],
        decreases pixels - i,
    {
        out.push(rgb[3 * i]);
        out.push(rgb[3 * i + 1]);
        out.push(rgb[3 * i + 2]);
        out.push(255);
        i = i + 1;
    }
    assert(out@ == opaque_bytes(rgb@, pixels as nat));
    out
}

/// What byte `i` of a picture is once a smaller picture was put on it with its corner at
/// `x`, `y`.
pub open spec fn pasted(
    canvas: Seq<u8>,
    canvas_w: int,
    tile: Seq<u8>,
    w: int,
    h: int,
    x: int,
    y: int,
    i: int,
) -> u8 {
    let px = i / 4 % canvas_w;
    let py = i / 4 / canvas_w;
    if x <= px < x + w && y <= py < y + h {
        tile[((py - y) * w + (px - x)) * 4 + i % 4]
    } else {
        canvas[i]
    }
}

/// `image::GenericImage::copy_from` on pictures of four channels: it puts one picture on
/// another, pixel by pixel.
#[verifier::external_body]
fn copy_from(
    canvas: Vec<u8>,
    canvas_w: u32,
    canvas_h: u32,
    tile: Vec<u8>,
    w: u32,
    h: u32,
    x: u32,
    y: u32,
) -> (r: Vec<u8>)
    requires
        canvas@.len() == canvas_w * canvas_h * 4,
        tile@.len() == w * h * 4,
        x + w <= canvas_w,
        y + h <= canvas_h,
        4 * canvas_w <= usize::MAX,
    ensures
        r@.len() == canvas@.len(),
        forall|i: int|
            0 <= i < r@.len() ==> #[trigger] r@[i] == pasted(
                canvas@,
                canvas_w as int,
                tile@,
                w as int,
                h as int,
                x as int,
                y as int,
                i,
            ),
{
    let mut picture = RgbaImage::from_raw(canvas_w, canvas_h, canvas).unwrap();
    let part = RgbaImage::from_raw(w, h, tile).unwrap();
    picture.copy_from(&part, x, y).unwrap();
    picture.into_raw()
}

/// What byte `i` of a grid of pictures is: two rows of three.
pub open spec fn grid_byte(tiles: Seq<Seq<u8>>, w: int, h: int, i: int) -> u8 {
    let px = i / 4 % (3 * w);
    let py = i / 4 / (3 * w);
    tiles[py / h * 3 + px / w][(py % h * w + px % w) * 4 + i % 4]
}

/// The bytes of pictures.
pub open spec fn tile_bytes(tiles: Seq<Vec<u8>>) -> Seq<Seq<u8>> {
    tiles.map_values(|t: Vec<u8>| t@)
}

fn zero_bytes(n: usize) -> (r: Vec<u8>)
    ensures
        r@.len() == n,
{
    let mut out: Vec<u8> = Vec::new();
    let mut i: usize = 0;
    while i < n
        invariant
            i <= n,
            out@.len() == i,
        decreases n - i,
    {
        out.push(0);
        i = i + 1;
    }
    out
}

proof fn lemma_cell(p: int, size: int, cells: int, cell: int)
    requires
        size > 0,
        0 <= p < cells * size,
        0 <= cell < cells,
    ensures
        cell * size <= p < cell * size + size <==> p / size == cell,
        p / size == cell ==> p - cell * size == p % size,
        0 <= p / size < cells,
{
    let q = p / size;
    let m = p % size;
    assert(p == q * size + m && 0 <= m < size) by (nonlinear_arith)
        requires
            q == p / size,
            m == p % size,
            size > 0,
    ;
    assert(0 <= q < cells) by (nonlinear_arith)
        requires
            p == q * size + m,
            0 <= m < size,
            0 <= p < cells * size,
    ;
    if cell * size <= p < cell * size + size {
        assert(q == cell) by (nonlinear_arith)
            requires
                p == q * size + m,
                0 <= m < size,
                cell * size <= p < cell * size + size,
        ;
    }
}

/// Puts six pictures of the same size into two rows of three.
pub fn compose_grid(tiles: Vec<Vec<u8>>, w: u32, h: u32) -> (r: Vec<u8>)
    requires
        tiles@.len() == 6,
        forall|t: int| 0 <= t < 6 ==> (#[trigger] tiles@[t])@.len() == w * h * 4,
        w * 3 <= u32::MAX,
        h * 2 <= u32::MAX,
        (w * 3) * (h * 2) * 4 <= usize::MAX,
        4 * (w * 3) <= usize::MAX,
    ensures
        r@.len() == (w * 3) * (h * 2) * 4,
        forall|i: int|
            0 <= i < r@.len() ==> #[trigger] r@[i] == grid_byte(
                tile_bytes(tiles@),
                w as int,
                h as int,
                i,
            ),
{
    let canvas_w: u32 = w * 3;
    let canvas_h: u32 = h * 2;
    assert((canvas_w as int) * (canvas_h as int) <= usize::MAX && (canvas_w as int) * (
    canvas_h as int) >= 0) by (nonlinear_arith)
        requires
            (canvas_w as int) * (canvas_h as int) * 4 <= usize::MAX,
            canvas_w >= 0,
            canvas_h >= 0,
    ;
    let pixels: usize = canvas_w as usize * canvas_h as usize;
    let mut canvas: Vec<u8> = zero_bytes(pixels * 4);
    let ghost all = tile_bytes(tiles@);
    let mut rest: Vec<Vec<u8>> = tiles;
    let mut k: usize = 0;
    proof {
        assert forall|i: int| 0 <= i < canvas@.len() implies #[trigger] cell_of(
            i,
            w as int,
            h as int,
        ) >= 0 by {
            lemma_paste_cell(i, w as int, h as int, 0, 0, canvas@.len() as int);
        }
        assert(all.skip(0) == all);
    }
    while k < 6
        invariant
            k <= 6,
            canvas_w == w * 3,
            canvas_h == h * 2,
            4 * canvas_w <= usize::MAX,
            canvas@.len() == canvas_w * canvas_h * 4,
            all.len() == 6,
            forall|t: int| 0 <= t < 6 ==> (#[trigger] all[t]).len() == w * h * 4,
            tile_bytes(rest@) == all.skip(k as int),
            rest@.len() == 6 - k,
            forall|i: int|
                0 <= i < canvas@.len() && cell_of(i, w as int, h as int) < k ==> #[trigger] canvas@[i]
                    == grid_byte(all, w as int, h as int, i),
        decreases 6 - k,
    {
        let ghost left = rest@;
        assert(tile_bytes(left)[0] == all.skip(k as int)[0]);
        let tile: Vec<u8> = rest.remove(0);
        assert(tile@ == all[k as int]);
        assert(tile_bytes(rest@) == all.skip(k + 1)) by {
            assert forall|j: int| 0 <= j < rest@.len() implies #[trigger] tile_bytes(rest@)[j]
                == all.skip(k + 1)[j] by {
                assert(tile_bytes(left)[j + 1] == all.skip(k as int)[j + 1]);
            }
        }
        let (col, row): (u32, u32) = if k < 3 {
            (k as u32, 0)
        } else {
            ((k - 3) as u32, 1)
        };
        assert(col * w + w <= canvas_w && row * h + h <= canvas_h) by (nonlinear_arith)
            requires
                col <= 2,
                row <= 1,
                canvas_w == w * 3,
                canvas_h == h * 2,
                w >= 0,
                h >= 0,
        ;
        let ghost before = canvas@;
        canvas = copy_from(canvas, canvas_w, canvas_h, tile, w, h, col * w, row * h);
        proof {
            assert forall|i: int|
                0 <= i < canvas@.len() && cell_of(i, w as int, h as int) < k
                    + 1 implies #[trigger] canvas@[i] == grid_byte(all, w as int, h as int, i) by {
                lemma_paste_cell(i, w as int, h as int, col as int, row as int, canvas@.len() as int);
                assert(canvas@[i] == pasted(
                    before,
                    canvas_w as int,
                    tile@,
                    w as int,
                    h as int,
                    col * w,
                    row * h,
                    i,
                ));
                if cell_of(i, w as int, h as int) < k {
                    assert(before[i] == grid_byte(all, w as int, h as int, i));
                }
            }
        }
        k = k + 1;
    }
    proof {
        assert forall|i: int| 0 <= i < canvas@.len() implies #[trigger] canvas@[i] == grid_byte(
            all,
            w as int,
            h as int,
            i,
        ) by {
            lemma_paste_cell(i, w as int, h as int, 0, 0, canvas@.len() as int);
            assert(cell_of(i, w as int, h as int) < 6);
        }
    }
    canvas
}

/// Which picture of a grid byte `i` belongs to.
pub open spec fn cell_of(i: int, w: int, h: int) -> int {
    i / 4 / (3 * w) / h * 3 + i / 4 % (3 * w) / w
}

proof fn lemma_paste_cell(i: int, w: int, h: int, col: int, row: int, len: int)
    requires
        w >= 0,
        h >= 0,
        len == (w * 3) * (h * 2) * 4,
        0 <= i < len,
        0 <= col < 3,
        0 <= row < 2,
    ensures
        ({
            let px = i / 4 % (3 * w);
            let py = i / 4 / (3 * w);
            &&& w > 0 && h > 0
            &&& 0 <= px / w < 3
            &&& 0 <= py / h < 2
            &&& (col * w <= px < col * w + w && row * h <= py < row * h + h) <==> cell_of(i, w, h)
                == row * 3 + col
            &&& cell_of(i, w, h) == row * 3 + col ==> px - col * w == px % w && py - row * h == py
                % h
        }),
{
    assert(w > 0 && h > 0) by (nonlinear_arith)
        requires
            w >= 0,
            h >= 0,
            0 < (w * 3) * (h * 2) * 4,
    ;
    let p = i / 4;
    let cw = 3 * w;
    let px = p % cw;
    let py = p / cw;
    assert(0 <= p < (w * 3) * (h * 2));
    assert(p == py * cw + px && 0 <= px < cw && 0 <= py) by (nonlinear_arith)
        requires
            px == p % cw,
            py == p / cw,
            cw > 0,
            p >= 0,
    ;
    assert(py < h * 2) by (nonlinear_arith)
        requires
            p == py * cw + px,
            0 <= px,
            p < (w * 3) * (h * 2),
            cw == 3 * w,
            w > 0,
    ;
    lemma_cell(px, w, 3, col);
    lemma_cell(py, h, 2, row);
}

/// Puts the six pictures that show an optimization step into one. Of longer buffers only
/// the beginning is used.
pub fn create_visualization_image(
    depth: &Vec<u8>,
    image: Vec<u8>,
    normal: &Vec<u8>,
    weights: &Vec<u8>,
    img_weight: &Vec<u8>,
    depth_normal: &Vec<u8>,
    w: u32,
    h: u32,
) -> (r: Vec<u8>)
    requires
        depth@.len() >= 3 * (w * h),
        image@.len() >= 4 * (w * h),
        normal@.len() >= 3 * (w * h),
        weights@.len() >= 3 * (w * h),
        img_weight@.len() >= 3 * (w * h),
        depth_normal@.len() >= 3 * (w * h),
        w * 3 <= u32::MAX,
        h * 2 <= u32::MAX,
        (w * 3) * (h * 2) * 4 <= usize::MAX,
        4 * (w * 3) <= usize::MAX,
    ensures
        r@.len() == (w * 3) * (h * 2) * 4,
        ({
            let n = (w * h) as nat;
            let tiles = seq![
                opaque_bytes(depth@, n),
                image@.take(4 * (w * h)),
                opaque_bytes(normal@, n),
                opaque_bytes(weights@, n),
                opaque_bytes(img_weight@, n),
                opaque_bytes(depth_normal@, n),
            ];
            forall|i: int|
                0 <= i < r@.len() ==> #[trigger] r@[i] == grid_byte(tiles, w as int, h as int, i)
        }),
{
    assert(0 <= w * h && 4 * (w * h) <= (w * 3) * (h * 2) * 4) by (nonlinear_arith)
        requires
            w >= 0,
            h >= 0,
    ;
    let pixels: usize = w as usize * h as usize;
    let mut picture: Vec<u8> = image;
    picture.truncate(4 * pixels);
    assert(picture@ == image@.take(4 * pixels));
    let tiles = vec![
        with_alpha(depth, pixels),
        picture,
        with_alpha(normal, pixels),
        with_alpha(weights, pixels),
        with_alpha(img_weight, pixels),
        with_alpha(depth_normal, pixels),
    ];
    let ghost n = (w * h) as nat;
    assert(tile_bytes(tiles@) =~= seq![
        opaque_bytes(depth@, n),
        image@.take(4 * (w * h)),
        opaque_bytes(normal@, n),
        opaque_bytes(weights@, n),
        opaque_bytes(img_weight@, n),
        opaque_bytes(depth_normal@, n),
    ]);
    compose_grid(tiles, w, h)
}

/// The range of values spans what is above zero and nothing else: there is one exactly if
/// some value is above zero, its upper end is the largest of these values, and its lower
/// end is the smallest of them, or the largest finite number if all of them are infinite.
pub proof fn law_span_ends(data: Seq<F32Bits>)
    ensures
        positive_span(data) is Some <==> exists|i: int|
            0 <= i < data.len() && 0 < (#[trigger] data[i]).bits <= 0x7f80_0000,
        positive_span(data) matches Some(span) ==> {
            &&& exists|i: int| 0 <= i < data.len() && #[trigger] data[i] == span.max
            &&& 0 < span.max.bits <= 0x7f80_0000
            &&& 0 < span.min.bits <= 0x7f7f_ffff
            &&& span.min.bits == 0x7f7f_ffff || exists|i: int|
                0 <= i < data.len() && #[trigger] data[i] == span.min
            &&& forall|i: int|
                0 <= i < data.len() && 0 < (#[trigger] data[i]).bits <= 0x7f80_0000 ==> data[i].bits
                    <= span.max.bits
            &&& forall|i: int|
                0 <= i < data.len() && 0 < (#[trigger] data[i]).bits <= 0x7f7f_ffff
                    ==> span.min.bits <= data[i].bits
        },
    decreases data.len(),
{
    if data.len() > 0 {
        let before = data.drop_last();
        let v = data.last();
        law_span_ends(before);
        assert forall|i: int| 0 <= i < before.len() implies before[i] == #[trigger] data[i] by {}
        if let Some(span) = positive_span(before) {
            let i = choose|i: int| 0 <= i < before.len() && #[trigger] before[i] == span.max;
            assert(data[i] == span.max);
            if span.min.bits != 0x7f7f_ffff {
                let j = choose|j: int| 0 <= j < before.len() && #[trigger] before[j] == span.min;
                assert(data[j] == span.min);
            }
        }
        if v.positive() {
            assert(data[data.len() - 1] == v);
        }
        if exists|i: int| 0 <= i < data.len() && 0 < (#[trigger] data[i]).bits <= 0x7f80_0000 {
            let i = choose|i: int|
                0 <= i < data.len() && 0 < (#[trigger] data[i]).bits <= 0x7f80_0000;
            if i < before.len() {
                assert(before[i] == data[i]);
            }
        }
    }
}

/// A value is drawn by where it lies in its range exactly if it is above zero and the range
/// has two ends that differ.
pub proof fn law_graded_values(value: F32Bits, span: Option<Span>)
    ensures
        is_graded(value, span) <==> {
            &&& 0 < value.bits <= 0x7f80_0000
            &&& span is Some
            &&& span->0.min.bits < span->0.max.bits
        },
{
}

/// A depth gives a point unless it is zero or less, or more than one; what is no number
/// gives a point too. The numbers are told apart by where they lie among all numbers.
pub proof fn law_depths_of_points(depth: F32Bits)
    ensures
        ({
            let place = crate::scene_laws::place32(depth);
            gives_point(depth) <==> {
                ||| 0 < place <= 0x3f80_0000
                ||| place > 0x7f80_0000
                ||| place < -0x7f80_0000
            }
        }),
{
}

/// Every pixel whose depth gives a point has its point in the cloud, and every point of the
/// cloud is that of such a pixel: where the pixel lies, its depth and its color. The points
/// come in the order of the pixels.
pub proof fn law_points_of_pixels(
    depth: Seq<F32Bits>,
    rgba: Seq<u8>,
    w: int,
    n: int,
    i: int,
    k: int,
)
    requires
        0 < w <= usize::MAX,
        0 <= n <= depth.len() <= usize::MAX,
    ensures
        0 <= i < n && gives_point(depth[i]) ==> exists|j: int|
            0 <= j < points_of(depth, rgba, w, n).len() && pixel_of(
                #[trigger] points_of(depth, rgba, w, n)[j],
                w,
            ) == i,
        0 <= k < points_of(depth, rgba, w, n).len() ==> {
            let point = points_of(depth, rgba, w, n)[k];
            let p = pixel_of(point, w);
            &&& 0 <= p < n
            &&& point.x < w
            &&& gives_point(depth[p])
            &&& point.depth == depth[p]
            &&& point.red == rgba[4 * p]
            &&& point.green == rgba[4 * p + 1]
            &&& point.blue == rgba[4 * p + 2]
            &&& k > 0 ==> pixel_of(points_of(depth, rgba, w, n)[k - 1], w) < p
        },
    decreases n,
{
    if n > 0 {
        let before = points_of(depth, rgba, w, n - 1);
        let all = points_of(depth, rgba, w, n);
        law_points_of_pixels(depth, rgba, w, n - 1, i, k);
        lemma_pixel(depth, rgba, w, n - 1);
        if 0 <= i < n && gives_point(depth[i]) {
            if i < n - 1 {
                let j = choose|j: int|
                    0 <= j < before.len() && pixel_of(#[trigger] before[j], w) == i;
                assert(all[j] == before[j]);
                assert(pixel_of(all[j], w) == i);
            } else {
                assert(pixel_of(all[all.len() - 1], w) == i);
            }
        }
        if 0 <= k < all.len() {
            if k < before.len() {
                assert(all[k] == before[k]);
            } else {
                law_points_of_pixels(depth, rgba, w, n - 1, i, k - 1);
            }
        }
    }
}

/// The pixel that a point comes from, counted row by row.
pub open spec fn pixel_of(point: PointSource, w: int) -> int {
    point.y * w + point.x
}

proof fn lemma_pixel(depth: Seq<F32Bits>, rgba: Seq<u8>, w: int, i: int)
    requires
        0 < w <= usize::MAX,
        0 <= i < depth.len() <= usize::MAX,
    ensures
        pixel_of(point_at(depth, rgba, w, i), w) == i,
        point_at(depth, rgba, w, i).x < w,
{
    assert(i == (i / w) * w + i % w && 0 <= i % w < w && 0 <= i / w <= i) by (nonlinear_arith)
        requires
            w > 0,
            i >= 0,
    ;
}

/// A picture that is made opaque keeps its colors, pixel by pixel, and every pixel has full
/// opacity.
pub proof fn law_opaque_pixels(rgb: Seq<u8>, pixels: nat, p: int)
    requires
        0 <= p < pixels,
    ensures
        opaque_bytes(rgb, pixels).len() == 4 * pixels,
        opaque_bytes(rgb, pixels)[4 * p] == rgb[3 * p],
        opaque_bytes(rgb, pixels)[4 * p + 1] == rgb[3 * p + 1],
        opaque_bytes(rgb, pixels)[4 * p + 2] == rgb[3 * p + 2],
        opaque_bytes(rgb, pixels)[4 * p + 3] == 255,
{
}

/// Each of six pictures stands in the grid as it is: the first three beside each other in
/// the upper row, and the other three in the lower one.
pub proof fn law_pictures_in_grid(
    tiles: Seq<Seq<u8>>,
    w: int,
    h: int,
    tile_col: int,
    tile_row: int,
    x: int,
    y: int,
    channel: int,
)
    requires
        0 <= tile_col < 3,
        0 <= tile_row < 2,
        0 <= x < w,
        0 <= y < h,
        0 <= channel < 4,
    ensures
        ({
            let col = tile_col * w + x;
            let row = tile_row * h + y;
            grid_byte(tiles, w, h, (row * (3 * w) + col) * 4 + channel) == tiles[tile_row * 3
                + tile_col][(y * w + x) * 4 + channel]
        }),
{
    let col = tile_col * w + x;
    let row = tile_row * h + y;
    let cw = 3 * w;
    let i = (row * cw + col) * 4 + channel;
    assert(0 <= col < cw) by (nonlinear_arith)
        requires
            0 <= tile_col < 3,
            0 <= x < w,
            col == tile_col * w + x,
            cw == 3 * w,
    ;
    assert(0 <= row) by (nonlinear_arith)
        requires
            0 <= tile_row,
            0 <= y < h,
            row == tile_row * h + y,
    ;
    assert(0 <= row * cw) by (nonlinear_arith)
        requires
            0 <= row,
            0 < cw,
    ;
    assert(i / 4 == row * cw + col && i % 4 == channel);
    lemma_row(i / 4, col, row, cw);
    lemma_row(col, x, tile_col, w);
    lemma_row(row, y, tile_row, h);
}

/// What a rendering is saved as: its color, its normals, its depth and its distance, each
/// from its own channels under its own name, and a point cloud exactly if it was asked for
/// and has points.
pub proof fn law_saved_files(
    saved: Seq<SavedFile>,
    prefix: Seq<char>,
    save_point_cloud: bool,
    has_points: bool,
    i: int,
)
    requires
        lists_files(saved, prefix, save_point_cloud, has_points),
        0 <= i < saved.len(),
    ensures
        saved.len() == if save_point_cloud && has_points {
            5int
        } else {
            4
        },
        saved[i].file is Rgb <==> i == 0,
        saved[i].file is Normal <==> i == 1,
        saved[i].file is Depth <==> i == 2,
        saved[i].file is Distance <==> i == 3,
        saved[i].file is PointCloud <==> i == 4,
        match saved[i].file {
            RenderFile::Rgb => saved[i].path@ == prefix + "_render_rgb.png"@
                && saved[i].first_channel == 0 && saved[i].end_channel == 4,
            RenderFile::Normal => saved[i].path@ == prefix + "_render_normal.png"@
                && saved[i].first_channel == 4 && saved[i].end_channel == 7,
            RenderFile::Depth => saved[i].path@ == prefix + "_render_depth.png"@
                && saved[i].first_channel == 8 && saved[i].end_channel == 9,
            RenderFile::Distance => saved[i].path@ == prefix + "_render_distance.png"@
                && saved[i].first_channel == 9 && saved[i].end_channel == 10,
            RenderFile::PointCloud => saved[i].path@ == prefix + "_pointcloud.ply"@
                && saved[i].first_channel == 8 && saved[i].end_channel == 9,
        },
{
    let files = render_files(save_point_cloud, has_points);
    assert(saves(saved[i], files[i], prefix));
}

} // verus!
