//! What a picture of the scene depends on.

use crate::message::{QuatBits, Vec3Bits};
use crate::num::{equal_f32, equal_f64, same_f32, same_f64, F32Bits, F64Bits, ONE_BITS};
use crate::paths::text_view;
use crate::text::same_text;
use vstd::prelude::*;
use vstd::string::*;

verus! {

/// A size in pixels.
#[derive(Clone, Copy, PartialEq, Eq, Structural, Debug)]
pub struct UVec2 {
    pub x: u32,
    pub y: u32,
}

/// Two numbers.
#[derive(Clone, Copy, PartialEq, Eq, Structural, Debug)]
pub struct Vec2Bits {
    pub x: F32Bits,
    pub y: F32Bits,
}

/// Four numbers.
#[derive(Clone, Copy, PartialEq, Eq, Structural, Debug)]
pub struct Vec4Bits {
    pub x: F32Bits,
    pub y: F32Bits,
    pub z: F32Bits,
    pub w: F32Bits,
}

/// Four columns of four numbers.
#[derive(Clone, Copy, PartialEq, Eq, Structural, Debug)]
pub struct Mat4Bits {
    pub x: Vec4Bits,
    pub y: Vec4Bits,
    pub z: Vec4Bits,
    pub w: Vec4Bits,
}

/// `v` with a fourth number.
pub open spec fn extended(v: Vec3Bits, w: F32Bits) -> Vec4Bits {
    Vec4Bits { x: v.x, y: v.y, z: v.z, w }
}

/// Puts a fourth number behind three.
pub fn extend(v: Vec3Bits, w: F32Bits) -> (r: Vec4Bits)
    ensures
        r == extended(v, w),
{
    Vec4Bits { x: v.x, y: v.y, z: v.z, w }
}

/// What a camera gives for a picture: how the world turns into what it sees, where it
/// stands, and where points of the world fall on the picture.
#[derive(Clone, Copy, PartialEq, Eq, Structural, Debug)]
pub struct CameraView {
    pub viewmat: Mat4Bits,
    pub position: Vec3Bits,
    pub focal: Vec2Bits,
    pub center: Vec2Bits,
}

/// Where the scene is looked at from, and how.
#[derive(Clone, Copy, PartialEq, Eq, Structural, Debug)]
pub struct Camera {
    pub fov_x: F64Bits,
    pub fov_y: F64Bits,
    pub center_u: F32Bits,
    pub center_v: F32Bits,
    pub position: Vec3Bits,
    pub rotation: QuatBits,
}

/// What the user has set about the picture.
#[derive(Clone, Copy, PartialEq, Eq, Structural, Debug)]
pub struct CameraSettings {
    pub background: Option<Vec3Bits>,
    pub splat_scale: Option<F32Bits>,
    pub grid_enabled: Option<bool>,
}

/// Everything that a picture of the scene depends on.
#[derive(Debug)]
pub struct RenderState {
    pub size: UVec2,
    pub cam: Camera,
    pub frame: F32Bits,
    pub settings: CameraSettings,
    pub grid_opacity: F32Bits,
    pub selected_aux_splat: Option<String>,
}

/// What a render state says.
pub struct RenderKey {
    pub size: UVec2,
    pub cam: Camera,
    pub frame: F32Bits,
    pub settings: CameraSettings,
    pub grid_opacity: F32Bits,
    pub selected: Option<Seq<char>>,
}

impl View for RenderState {
    type V = RenderKey;

    open spec fn view(&self) -> RenderKey {
        RenderKey {
            size: self.size,
            cam: self.cam,
            frame: self.frame,
            settings: self.settings,
            grid_opacity: self.grid_opacity,
            selected: text_view(self.selected_aux_splat),
        }
    }
}

pub open spec fn same_vec3(a: Vec3Bits, b: Vec3Bits) -> bool {
    same_f32(a.x, b.x) && same_f32(a.y, b.y) && same_f32(a.z, b.z)
}

pub open spec fn same_quat(a: QuatBits, b: QuatBits) -> bool {
    same_f32(a.x, b.x) && same_f32(a.y, b.y) && same_f32(a.z, b.z) && same_f32(a.w, b.w)
}

pub open spec fn same_camera(a: Camera, b: Camera) -> bool {
    &&& same_f64(a.fov_x, b.fov_x)
    &&& same_f64(a.fov_y, b.fov_y)
    &&& same_f32(a.center_u, b.center_u)
    &&& same_f32(a.center_v, b.center_v)
    &&& same_vec3(a.position, b.position)
    &&& same_quat(a.rotation, b.rotation)
}

pub open spec fn same_settings(a: CameraSettings, b: CameraSettings) -> bool {
    &&& match (a.background, b.background) {
        (Some(x), Some(y)) => same_vec3(x, y),
        (None, None) => true,
        _ => false,
    }
    &&& match (a.splat_scale, b.splat_scale) {
        (Some(x), Some(y)) => same_f32(x, y),
        (None, None) => true,
        _ => false,
    }
    &&& a.grid_enabled == b.grid_enabled
}

/// Whether two render states give the same picture.
pub open spec fn same_picture(a: RenderKey, b: RenderKey) -> bool {
    &&& a.size == b.size
    &&& same_camera(a.cam, b.cam)
    &&& same_f32(a.frame, b.frame)
    &&& same_settings(a.settings, b.settings)
    &&& same_f32(a.grid_opacity, b.grid_opacity)
    &&& a.selected == b.selected
}

impl CameraSettings {
    /// Whether the grid is shown; it is not, unless it was asked for.
    pub fn shows_grid(&self) -> (r: bool)
        ensures
            r == (self.grid_enabled == Some(true)),
    {
        match self.grid_enabled {
            Some(enabled) => enabled,
            None => false,
        }
    }

    /// How large splats are drawn; as large as they are, unless something else was asked
    /// for.
    pub fn scale(&self) -> (r: F32Bits)
        ensures
            r == match self.splat_scale {
                Some(scale) => scale,
                None => F32Bits { bits: ONE_BITS },
            },
    {
        match self.splat_scale {
            Some(scale) => scale,
            None => F32Bits { bits: ONE_BITS },
        }
    }

    /// The color behind the scene; black, unless another one was asked for.
    pub fn background_or_black(&self) -> (r: Vec3Bits)
        ensures
            r == match self.background {
                Some(color) => color,
                None => {
                    let zero = F32Bits { bits: 0 };
                    Vec3Bits { x: zero, y: zero, z: zero }
                },
            },
    {
        match self.background {
            Some(color) => color,
            None => {
                let zero = F32Bits { bits: 0 };
                Vec3Bits { x: zero, y: zero, z: zero }
            },
        }
    }
}

fn equal_vec3(a: Vec3Bits, b: Vec3Bits) -> (r: bool)
    ensures
        r == same_vec3(a, b),
{
    equal_f32(a.x, b.x) && equal_f32(a.y, b.y) && equal_f32(a.z, b.z)
}

fn equal_camera(a: Camera, b: Camera) -> (r: bool)
    ensures
        r == same_camera(a, b),
{
    equal_f64(a.fov_x, b.fov_x) && equal_f64(a.fov_y, b.fov_y) && equal_f32(
        a.center_u,
        b.center_u,
    ) && equal_f32(a.center_v, b.center_v) && equal_vec3(a.position, b.position) && equal_f32(
        a.rotation.x,
        b.rotation.x,
    ) && equal_f32(a.rotation.y, b.rotation.y) && equal_f32(a.rotation.z, b.rotation.z)
        && equal_f32(a.rotation.w, b.rotation.w)
}

fn equal_settings(a: CameraSettings, b: CameraSettings) -> (r: bool)
    ensures
        r == same_settings(a, b),
{
    let background = match (a.background, b.background) {
        (Some(x), Some(y)) => equal_vec3(x, y),
        (None, None) => true,
        _ => false,
    };
    let scale = match (a.splat_scale, b.splat_scale) {
        (Some(x), Some(y)) => equal_f32(x, y),
        (None, None) => true,
        _ => false,
    };
    let grid = match (a.grid_enabled, b.grid_enabled) {
        (Some(x), Some(y)) => x == y,
        (None, None) => true,
        _ => false,
    };
    background && scale && grid
}

/// Whether two optional texts are the same.
pub fn equal_option(a: &Option<String>, b: &Option<String>) -> (r: bool)
    ensures
        r == (text_view(*a) == text_view(*b)),
{
    match (a, b) {
        (Some(x), Some(y)) => same_text(x.as_str(), y.as_str()),
        (None, None) => true,
        _ => false,
    }
}

impl RenderState {
    /// Whether both give the same picture.
    pub fn same(&self, other: &RenderState) -> (r: bool)
        ensures
            r == same_picture(self@, other@),
    {
        self.size == other.size && equal_camera(self.cam, other.cam) && equal_f32(
            self.frame,
            other.frame,
        ) && equal_settings(self.settings, other.settings) && equal_f32(
            self.grid_opacity,
            other.grid_opacity,
        ) && equal_option(&self.selected_aux_splat, &other.selected_aux_splat)
    }
}

} // verus!
