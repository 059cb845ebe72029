//! Point clouds as PLY text.

use crate::recording::Rgb;
use crate::text::{decimal, push_decimal};
use vstd::prelude::*;
use vstd::string::*;

verus! {

/// A point, with its coordinates as they are printed.
#[derive(Debug)]
pub struct PlyPoint {
    pub x: String,
    pub y: String,
    pub z: String,
}

/// Everything before the points.
pub open spec fn ply_header(count: nat, colored: bool) -> Seq<char> {
    "ply\nformat ascii 1.0\nelement vertex "@ + decimal(count)
        + "\nproperty float x\nproperty float y\nproperty float z\n"@ + (if colored {
        "property uchar red\nproperty uchar green\nproperty uchar blue\n"@
    } else {
        Seq::empty()
    }) + "end_header\n"@
}

/// The line of a point, up to its color.
pub open spec fn coordinates(point: PlyPoint) -> Seq<char> {
    point.x@ + " "@ + point.y@ + " "@ + point.z@
}

/// The color of a point.
pub open spec fn color_text(color: Rgb) -> Seq<char> {
    " "@ + decimal(color.r as nat) + " "@ + decimal(color.g as nat) + " "@ + decimal(
        color.b as nat,
    )
}

/// The lines of the first `n` points.
pub open spec fn point_lines(points: Seq<PlyPoint>, colors: Option<Seq<Rgb>>, n: int) -> Seq<char>
    decreases n,
{
    if n <= 0 {
        Seq::empty()
    } else {
        point_lines(points, colors, n - 1) + coordinates(points[n - 1]) + (match colors {
            Some(list) => color_text(list[n - 1]),
            None => Seq::empty(),
        }) + "\n"@
    }
}

/// A point cloud as PLY text.
pub open spec fn ply_text(points: Seq<PlyPoint>, colors: Option<Seq<Rgb>>) -> Seq<char> {
    ply_header(points.len(), colors is Some) + point_lines(points, colors, points.len() as int)
}

fn push_color(out: &mut String, color: Rgb)
    ensures
        final(out)@ == old(out)@ + color_text(color),
{
    let ghost before = out@;
    out.append(" ");
    push_decimal(out, color.r as u64);
    out.append(" ");
    push_decimal(out, color.g as u64);
    out.append(" ");
    push_decimal(out, color.b as u64);
    assert(out@ == before + color_text(color));
}

/// The colors of points, if they have any.
pub open spec fn color_list(colors: Option<&Vec<Rgb>>) -> Option<Seq<Rgb>> {
    match colors {
        Some(list) => Some(list@),
        None => None,
    }
}

/// Writes a point cloud as PLY text. There is a color for every point, or for none.
pub fn save_point_cloud_to_ply(points: &Vec<PlyPoint>, colors: Option<&Vec<Rgb>>) -> (r: String)
    requires
        colors matches Some(list) ==> list@.len() == points@.len(),
    ensures
        r@ == ply_text(points@, color_list(colors)),
{
    let mut out: String = "ply\nformat ascii 1.0\nelement vertex ".to_owned();
    push_decimal(&mut out, points.len() as u64);
    out.append("\nproperty float x\nproperty float y\nproperty float z\n");
    if colors.is_some() {
        out.append("property uchar red\nproperty uchar green\nproperty uchar blue\n");
    }
    out.append("end_header\n");
    let ghost header = ply_header(points@.len(), colors is Some);
    assert(out@ == header);
    let ghost list = color_list(colors);
    assert(header + point_lines(points@, list, 0) == header);
    let mut i: usize = 0;
    while i < points.len()
        invariant
            i <= points.len(),
            colors matches Some(c) ==> c@.len() == points@.len(),
            list == color_list(colors),
            out@ == header + point_lines(points@, list, i as int),
        decreases points.len() - i,
    {
        let ghost before = out@;
        out.append(points[i].x.as_str());
        out.append(" ");
        out.append(points[i].y.as_str());
        out.append(" ");
        out.append(points[i].z.as_str());
        assert(out@ == before + coordinates(points@[i as int]));
        if let Some(c) = colors {
            push_color(&mut out, c[i]);
        }
        out.append("\n");
        i = i + 1;
        assert(out@ == header + point_lines(points@, list, i as int));
    }
    out
}

/// A point cloud grows by one line when it grows by a point: the coordinates of the point
/// in order, its color behind them if points have colors, and the end of the line. What
/// was there stays.
pub proof fn law_one_line_per_point(points: Seq<PlyPoint>, colors: Option<Seq<Rgb>>, n: int)
    requires
        0 <= n < points.len(),
        colors matches Some(list) ==> list.len() == points.len(),
    ensures
        point_lines(points, colors, 0).len() == 0,
        colors is None ==> point_lines(points, colors, n + 1) == point_lines(points, colors, n)
            + points[n].x@ + " "@ + points[n].y@ + " "@ + points[n].z@ + "\n"@,
        colors matches Some(list) ==> point_lines(points, colors, n + 1) == point_lines(
            points,
            colors,
            n,
        ) + points[n].x@ + " "@ + points[n].y@ + " "@ + points[n].z@ + " "@ + decimal(
            list[n].r as nat,
        ) + " "@ + decimal(list[n].g as nat) + " "@ + decimal(list[n].b as nat) + "\n"@,
{
    let p = points[n];
    let before = point_lines(points, colors, n);
    match colors {
        None => {
            assert(point_lines(points, colors, n + 1) == before + p.x@ + " "@ + p.y@ + " "@ + p.z@
                + "\n"@);
        },
        Some(list) => {
            let c = list[n];
            assert(point_lines(points, colors, n + 1) == before + p.x@ + " "@ + p.y@ + " "@ + p.z@
                + " "@ + decimal(c.r as nat) + " "@ + decimal(c.g as nat) + " "@ + decimal(
                c.b as nat,
            ) + "\n"@);
        },
    }
}

/// A point cloud begins by saying how many points follow and what is said of each: three
/// coordinates, and three parts of a color exactly if points have colors. The lines of all
/// points follow.
pub proof fn law_header_of_cloud(points: Seq<PlyPoint>, colors: Option<Seq<Rgb>>)
    ensures
        colors is None ==> ply_text(points, colors) == "ply\nformat ascii 1.0\nelement vertex "@
            + decimal(points.len()) + "\nproperty float x\nproperty float y\nproperty float z\n"@
            + "end_header\n"@ + point_lines(points, colors, points.len() as int),
        colors is Some ==> ply_text(points, colors) == "ply\nformat ascii 1.0\nelement vertex "@
            + decimal(points.len()) + "\nproperty float x\nproperty float y\nproperty float z\n"@
            + "property uchar red\nproperty uchar green\nproperty uchar blue\n"@ + "end_header\n"@
            + point_lines(points, colors, points.len() as int),
{
    let head = "ply\nformat ascii 1.0\nelement vertex "@ + decimal(points.len())
        + "\nproperty float x\nproperty float y\nproperty float z\n"@;
    assert(head + Seq::<char>::empty() == head);
}

} // verus!
