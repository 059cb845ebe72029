//! What holds of the scene whatever it is told: when its picture is drawn again, and what
//! becomes of the messages of a process.

use crate::camera::{same_picture, Camera, RenderKey};
use crate::message::{ProcessMessage, QuatBits, SplatId, Vec3Bits};
use crate::num::{same_f32, same_f64, F32Bits, F64Bits};
use crate::scene::{lookup, names_differ, with_named, EffectView, Scene, UiMode};
use crate::view_stream::{tells, PlyView, SplatMeta};
use vstd::prelude::*;
use vstd::string::*;

verus! {

/// Where a number lies among all numbers, counted from zero: each step leads to the next
/// number that single precision has.
pub open spec fn place32(x: F32Bits) -> int {
    if x.bits < 0x8000_0000 {
        x.bits as int
    } else {
        0x8000_0000 - x.bits
    }
}

/// Whether two patterns stand for the same number. Beyond infinity, on both sides of
/// zero, patterns stand for none.
pub open spec fn one_number32(a: F32Bits, b: F32Bits) -> bool {
    -0x7f80_0000 <= place32(a) == place32(b) <= 0x7f80_0000
}

/// Where a number lies among all numbers of double precision.
pub open spec fn place64(x: F64Bits) -> int {
    if x.bits < 0x8000_0000_0000_0000 {
        x.bits as int
    } else {
        0x8000_0000_0000_0000 - x.bits
    }
}

/// Whether two patterns of double precision stand for the same number.
pub open spec fn one_number64(a: F64Bits, b: F64Bits) -> bool {
    -0x7ff0_0000_0000_0000 <= place64(a) == place64(b) <= 0x7ff0_0000_0000_0000
}

/// Numbers are the same exactly if they lie at the same place.
pub proof fn law_equal_numbers(a: F32Bits, b: F32Bits, c: F64Bits, d: F64Bits)
    ensures
        same_f32(a, b) <==> one_number32(a, b),
        same_f64(c, d) <==> one_number64(c, d),
{
}

/// The picture stays as it is exactly if nothing that it depends on is another number,
/// another size, another choice or another name.
pub proof fn law_unchanged_picture(a: RenderKey, b: RenderKey)
    ensures
        same_picture(a, b) <==> {
            &&& a.size.x == b.size.x
            &&& a.size.y == b.size.y
            &&& one_number64(a.cam.fov_x, b.cam.fov_x)
            &&& one_number64(a.cam.fov_y, b.cam.fov_y)
            &&& one_number32(a.cam.center_u, b.cam.center_u)
            &&& one_number32(a.cam.center_v, b.cam.center_v)
            &&& one_number32(a.cam.position.x, b.cam.position.x)
            &&& one_number32(a.cam.position.y, b.cam.position.y)
            &&& one_number32(a.cam.position.z, b.cam.position.z)
            &&& one_number32(a.cam.rotation.x, b.cam.rotation.x)
            &&& one_number32(a.cam.rotation.y, b.cam.rotation.y)
            &&& one_number32(a.cam.rotation.z, b.cam.rotation.z)
            &&& one_number32(a.cam.rotation.w, b.cam.rotation.w)
            &&& one_number32(a.frame, b.frame)
            &&& a.settings.background is Some <==> b.settings.background is Some
            &&& a.settings.background is Some ==> {
                &&& one_number32(a.settings.background->0.x, b.settings.background->0.x)
                &&& one_number32(a.settings.background->0.y, b.settings.background->0.y)
                &&& one_number32(a.settings.background->0.z, b.settings.background->0.z)
            }
            &&& a.settings.splat_scale is Some <==> b.settings.splat_scale is Some
            &&& a.settings.splat_scale is Some ==> one_number32(
                a.settings.splat_scale->0,
                b.settings.splat_scale->0,
            )
            &&& a.settings.grid_enabled == b.settings.grid_enabled
            &&& one_number32(a.grid_opacity, b.grid_opacity)
            &&& a.selected == b.selected
        },
{
    if a.settings.grid_enabled is Some && b.settings.grid_enabled is Some {
        assert(a.settings.grid_enabled->0 == b.settings.grid_enabled->0
            ==> a.settings.grid_enabled == b.settings.grid_enabled);
    }
}

/// A camera that moved, turned or sees more or less gives another picture, and so do
/// another time of the animation and another opacity of the grid.
pub proof fn law_change_is_seen(
    last: RenderKey,
    position: Vec3Bits,
    rotation: QuatBits,
    other: RenderKey,
)
    ensures
        place32(last.cam.position.x) != place32(position.x) || place32(last.cam.position.y)
            != place32(position.y) || place32(last.cam.position.z) != place32(position.z)
            ==> !same_picture(
            last,
            (RenderKey { cam: Camera { position, ..last.cam }, ..last }),
        ),
        place32(last.cam.rotation.x) != place32(rotation.x) || place32(last.cam.rotation.y)
            != place32(rotation.y) || place32(last.cam.rotation.z) != place32(rotation.z)
            || place32(last.cam.rotation.w) != place32(rotation.w) ==> !same_picture(
            last,
            (RenderKey { cam: Camera { rotation, ..last.cam }, ..last }),
        ),
        place64(last.cam.fov_x) != place64(other.cam.fov_x) || place64(last.cam.fov_y) != place64(
            other.cam.fov_y,
        ) || place32(last.cam.center_u) != place32(other.cam.center_u) || place32(
            last.cam.center_v,
        ) != place32(other.cam.center_v) || place32(last.frame) != place32(other.frame) || place32(
            last.grid_opacity,
        ) != place32(other.grid_opacity) ==> !same_picture(last, other),
{
    law_unchanged_picture(last, RenderKey { cam: Camera { position, ..last.cam }, ..last });
    law_unchanged_picture(last, RenderKey { cam: Camera { rotation, ..last.cam }, ..last });
    law_unchanged_picture(last, other);
}

/// What is read of the main splats is told with all that the file says of them: the
/// splats, which way is up, and how much of the file was read. A file that stands alone
/// tells its own frame, and each of several files is a frame.
pub proof fn law_main_part_is_told(
    message: ProcessMessage,
    file: PlyView,
    path_count: int,
    meta: SplatMeta,
    part: SplatId,
)
    requires
        tells(message, file, path_count, meta, part),
        file.auxiliary is None,
        0 <= file.index,
        0 <= path_count,
    ensures
        message matches ProcessMessage::ViewSplats {
            up_axis,
            splats,
            frame,
            total_frames,
            progress,
        } && {
            &&& up_axis == meta.up_axis
            &&& progress == meta.progress
            &&& splats == part
            &&& path_count == 1 ==> frame == meta.current_frame && total_frames
                == meta.frame_count
            &&& path_count != 1 ==> frame == file.index % 0x1_0000_0000 && total_frames
                == path_count % 0x1_0000_0000
        },
{
}

/// What is read of auxiliary splats is told with the name of their file.
pub proof fn law_auxiliary_part_is_told(
    message: ProcessMessage,
    file: PlyView,
    path_count: int,
    meta: SplatMeta,
    part: SplatId,
)
    requires
        tells(message, file, path_count, meta, part),
        file.auxiliary is Some,
    ensures
        message matches ProcessMessage::ViewAuxiliarySplat { name, splats } && splats == part
            && Some(name@) == file.auxiliary,
{
}

/// A direction that a file names as up turns the scene that way, unless a training run is
/// shown; a file that names none turns nothing.
pub proof fn law_up_axis_turns_scene(
    scene: Scene,
    message: ProcessMessage,
    file: PlyView,
    path_count: int,
    meta: SplatMeta,
    part: SplatId,
    training: bool,
)
    requires
        tells(message, file, path_count, meta, part),
        file.auxiliary is None,
    ensures
        meta.up_axis is Some && !training ==> scene.effects_of(message, training) == seq![
            EffectView::SetModelUp { up: meta.up_axis->0 },
        ],
        meta.up_axis is None || training ==> scene.effects_of(message, training).len() == 0,
{
}

/// Main splats that were read in full are shown, and alone, if they are no animation.
/// What is left of the panel stays as it was; a panel that follows the process draws a
/// new picture.
pub proof fn law_read_splats_are_shown(
    scene: Scene,
    message: ProcessMessage,
    file: PlyView,
    path_count: int,
    meta: SplatMeta,
    part: SplatId,
)
    requires
        tells(message, file, path_count, meta, part),
        file.auxiliary is None,
        path_count == 1,
    ensures
        ({
            let after = scene.on_message(message);
            &&& after.frame_count == meta.frame_count
            &&& 0x3f80_0000 <= meta.progress.bits <= 0x7f80_0000 ==> after.fully_loaded
            &&& meta.progress.bits < 0x3f80_0000 ==> after.fully_loaded == scene.fully_loaded
            &&& meta.progress.bits > 0x7f80_0000 ==> after.fully_loaded == scene.fully_loaded
            &&& meta.frame_count <= 1 && after.fully_loaded && !scene.fully_loaded
                ==> after.view_splats == seq![part]
            &&& meta.frame_count <= 1 && 0x3f80_0000 <= meta.progress.bits <= 0x7f80_0000
                ==> after.view_splats == seq![part]
            &&& meta.frame_count <= 1 && !scene.fully_loaded ==> after.view_splats == seq![part]
            &&& meta.frame_count > 1 ==> after.view_splats.len() == meta.current_frame + 1
            &&& scene.live_update ==> after.last_state is None
            &&& !scene.live_update ==> after.last_state == scene.last_state
        }),
{
}

/// A frame of an animation leaves the frames before it as they are, and is the last one
/// that is shown if it is new; frames that are missing before it are filled with it.
pub proof fn law_frame_is_placed(
    scene: Scene,
    up_axis: Option<Vec3Bits>,
    splats: SplatId,
    frame: u32,
    total_frames: u32,
    progress: F32Bits,
    i: int,
)
    requires
        total_frames > 1,
        0 <= i <= frame,
    ensures
        ({
            let after = scene.on_message(
                ProcessMessage::ViewSplats { up_axis, splats, frame, total_frames, progress },
            );
            &&& after.view_splats.len() == frame + 1
            &&& frame == 0 ==> after.view_splats[0] == splats
            &&& frame > 0 && i < scene.view_splats.len() ==> after.view_splats[i]
                == scene.view_splats[i]
            &&& i >= scene.view_splats.len() ==> after.view_splats[i] == splats
        }),
{
}

/// Auxiliary splats that were told are found under the name that they were told with, and
/// nothing else of the panel changes.
pub proof fn law_auxiliary_splats_are_found(
    scene: Scene,
    message: ProcessMessage,
    file: PlyView,
    path_count: int,
    meta: SplatMeta,
    part: SplatId,
    other: Seq<char>,
    training: bool,
)
    requires
        tells(message, file, path_count, meta, part),
        file.auxiliary is Some,
        names_differ(scene.aux),
    ensures
        ({
            let after = scene.on_message(message);
            &&& lookup(after.aux, file.auxiliary->0) == Some(part)
            &&& other != file.auxiliary->0 ==> lookup(after.aux, other) == lookup(scene.aux, other)
            &&& after == (Scene { aux: after.aux, ..scene })
            &&& scene.effects_of(message, training).len() == 0
        }),
{
    let name = file.auxiliary->0;
    crate::scene::law_named_splats(scene.aux, name, part, other);
    let after = scene.on_message(message);
    assert(after.aux == with_named(scene.aux, name, part));
    assert(after == (Scene { aux: after.aux, ..scene }));
}

/// What each message can change, and into what. Whatever is not named here no message
/// changes: the pause, the guide and the recording.
pub proof fn law_what_messages_change(scene: Scene, message: ProcessMessage)
    ensures
        ({
            let after = scene.on_message(message);
            let starts = message matches ProcessMessage::StartLoading { training: true };
            &&& after.paused == scene.paused
            &&& after.has_guide == scene.has_guide
            &&& after.recording == scene.recording
            &&& after.live_update == (scene.live_update || message is NewSource)
            &&& after.err == if message is NewSource {
                None
            } else {
                scene.err
            }
            &&& starts ==> {
                &&& after.view_splats.len() == 0
                &&& after.frame_count == 0
                &&& after.frame.bits == 0
                &&& after.selected is None
                &&& after.last_draw is None
                &&& after.last_state is None
            }
            &&& !starts ==> {
                &&& after.frame == scene.frame
                &&& after.selected == scene.selected
                &&& after.last_draw == scene.last_draw
            }
            &&& !starts && !(message is ViewSplats) ==> after.frame_count == scene.frame_count
            &&& !starts && !(message is ViewSplats) && !(message is TrainStep) ==> {
                &&& after.view_splats == scene.view_splats
                &&& after.last_state == scene.last_state
            }
            &&& message is ViewSplats || message is TrainStep ==> after.last_state == if
                scene.live_update {
                None
            } else {
                scene.last_state
            }
            &&& !(message is ViewSplats) ==> after.fully_loaded == scene.fully_loaded
            &&& message matches ProcessMessage::TrainStep { splats, .. } ==> after.view_splats
                == seq![splats]
            &&& !(message is ViewAuxiliarySplat) ==> after.aux == scene.aux
            &&& !(message is Warning) ==> after.warnings == scene.warnings
            &&& message matches ProcessMessage::Warning { error } ==> {
                &&& after.warnings.len() == scene.warnings.len() + 1
                &&& after.warnings.drop_last() == scene.warnings
                &&& error.chain@.len() > 0 ==> {
                    &&& after.warnings.last().headline == error.chain@[0]@
                    &&& after.warnings.last().context.len() == error.chain@.len() - 1
                    &&& forall|i: int|
                        0 <= i < error.chain@.len() - 1
                            ==> #[trigger] after.warnings.last().context[i] == error.chain@[i
                            + 1]@
                }
            }
            &&& message matches ProcessMessage::ObjectMetadata { metadata }
                ==> after.object_metadata == metadata@
            &&& !(message is ObjectMetadata) ==> after.object_metadata == scene.object_metadata
        }),
{
    let after = scene.on_message(message);
    if let ProcessMessage::Warning { error } = message {
        assert(after.warnings.drop_last() == scene.warnings);
        assert(after.warnings.last() == crate::failure::shown(error.causes()));
    }
}

/// What each message asks of the rest of the program. Once loading is over there is a
/// guide who knows what was told of the scene and can point at every auxiliary splat, or
/// at nothing, and only the scene is shown.
pub proof fn law_what_messages_ask(scene: Scene, message: ProcessMessage, training: bool, i: int)
    ensures
        ({
            let asked = scene.effects_of(message, training);
            &&& !(message is ViewSplats) && !(message is CameraData) && !(message is DoneLoading)
                ==> asked.len() == 0
            &&& message matches ProcessMessage::CameraData { focal_point, focus_distance, rotation }
                ==> asked == seq![
                EffectView::SetFocalPoint { focal_point, focus_distance, rotation },
            ]
            &&& message is DoneLoading ==> {
                &&& asked.len() == 2
                &&& asked[1] == (EffectView::SetUiMode { mode: UiMode::FullScreenSplat })
                &&& asked[0] matches EffectView::CreateGuide { instructions, keywords } && {
                    &&& instructions == scene.object_metadata
                    &&& keywords.len() == scene.aux.len() + 1
                    &&& keywords.last() == "nothing"@
                    &&& 0 <= i < scene.aux.len() ==> keywords[i] == scene.aux[i].0
                }
            }
        }),
{
}

} // verus!
