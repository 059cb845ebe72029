//! What callers of the viewer's functions can rely on, said of the functions themselves:
//! of what goes into a call and what comes out of it.

use crate::camera::{CameraSettings, RenderState};
use crate::cli::{Cli, ProcessUi, UiAction, UiFlow};
use crate::config::AlphaMode;
use crate::controls::{controls_box, play_pause_button, ControlsBox, PlayPauseButton};
use crate::failure::{ErrorDisplay, Failure};
use crate::message::{ProcessMessage, SplatId, Vec3Bits};
use crate::num::F32Bits;
use crate::recording::{
    press_voice_button, voice_button, AudioState, SceneCommand, VoiceButton, VoicePress,
};
use crate::scene::{
    draws_checkerboard, draws_picture, explain_export_failure, is_interactive, Drawn, SceneBody,
    SceneEffect, ScenePanel, UiMode,
};
use crate::scene_laws::{law_unchanged_picture, one_number32, one_number64, place32, place64};
use crate::text::{decimal, texts};
use crate::view_stream::{part_message, PlyFile, SplatMeta, ViewStream};
use vstd::prelude::*;
use vstd::string::*;

verus! {

/// Whether all switches and counters of a panel are as they were.
pub open spec fn same_switches(a: ScenePanel, b: ScenePanel) -> bool {
    &&& a.has_guide == b.has_guide
    &&& a.fully_loaded == b.fully_loaded
    &&& a.frame_count == b.frame_count
    &&& a.frame == b.frame
    &&& a.live_update == b.live_update
    &&& a.paused == b.paused
    &&& a.recording == b.recording
    &&& a.last_draw == b.last_draw
}

/// Whether a panel holds the same splats, under the same names, and the same words.
pub open spec fn same_contents(a: ScenePanel, b: ScenePanel) -> bool {
    &&& a.view_splats@ == b.view_splats@
    &&& a.view_auxiliary_splats@.len() == b.view_auxiliary_splats@.len()
    &&& forall|i: int|
        0 <= i < a.view_auxiliary_splats@.len() ==> (#[trigger] a.view_auxiliary_splats@[i]).0@
            == b.view_auxiliary_splats@[i].0@ && a.view_auxiliary_splats@[i].1
            == b.view_auxiliary_splats@[i].1
    &&& a.object_metadata@ == b.object_metadata@
    &&& a.warnings@.len() == b.warnings@.len()
    &&& a.err is Some <==> b.err is Some
}

/// What the panel of a scene shows tells what it holds.
proof fn lemma_contents(a: ScenePanel, b: ScenePanel)
    requires
        a@.view_splats == b@.view_splats,
        a@.aux == b@.aux,
        a@.object_metadata == b@.object_metadata,
        a@.warnings == b@.warnings,
        a@.err == b@.err,
    ensures
        same_contents(a, b),
{
    assert(a@.aux.len() == a.view_auxiliary_splats@.len());
    assert(b@.aux.len() == b.view_auxiliary_splats@.len());
    assert forall|i: int| 0 <= i < a.view_auxiliary_splats@.len() implies (
    #[trigger] a.view_auxiliary_splats@[i]).0@ == b.view_auxiliary_splats@[i].0@
        && a.view_auxiliary_splats@[i].1 == b.view_auxiliary_splats@[i].1 by {
        assert(a@.aux[i] == b@.aux[i]);
    }
    assert(a@.warnings.len() == a.warnings@.len());
    assert(b@.warnings.len() == b.warnings@.len());
}

/// A picture is left as it is only if nothing that it depends on has changed: neither its
/// size, nor any number of the camera, the animation or the grid, nor what is shown on top.
/// So a camera that stands elsewhere always gives a new picture.
pub proof fn promise_refresh(panel: &mut ScenePanel, state: RenderState, dirty: bool)
    requires
        call_ensures(ScenePanel::refresh, (panel, state), dirty),
    ensures
        old(panel).last_state is None ==> dirty,
        old(panel).last_state matches Some(last) ==> {
            &&& !dirty ==> {
                &&& last.size.x == state.size.x && last.size.y == state.size.y
                &&& one_number64(last.cam.fov_x, state.cam.fov_x)
                &&& one_number64(last.cam.fov_y, state.cam.fov_y)
                &&& one_number32(last.cam.center_u, state.cam.center_u)
                &&& one_number32(last.cam.center_v, state.cam.center_v)
                &&& one_number32(last.cam.position.x, state.cam.position.x)
                &&& one_number32(last.cam.position.y, state.cam.position.y)
                &&& one_number32(last.cam.position.z, state.cam.position.z)
                &&& one_number32(last.cam.rotation.x, state.cam.rotation.x)
                &&& one_number32(last.cam.rotation.y, state.cam.rotation.y)
                &&& one_number32(last.cam.rotation.z, state.cam.rotation.z)
                &&& one_number32(last.cam.rotation.w, state.cam.rotation.w)
                &&& one_number32(last.frame, state.frame)
                &&& one_number32(last.grid_opacity, state.grid_opacity)
                &&& last.settings.grid_enabled == state.settings.grid_enabled
                &&& last.settings.background is Some == state.settings.background is Some
                &&& last.settings.splat_scale is Some == state.settings.splat_scale is Some
                &&& last.selected_aux_splat is Some == state.selected_aux_splat is Some
                &&& last.selected_aux_splat is Some ==> last.selected_aux_splat->0@
                    == state.selected_aux_splat->0@
            }
            &&& place32(last.cam.position.x) != place32(state.cam.position.x) ==> dirty
            &&& place32(last.cam.position.y) != place32(state.cam.position.y) ==> dirty
            &&& place32(last.cam.position.z) != place32(state.cam.position.z) ==> dirty
            &&& place32(last.cam.rotation.x) != place32(state.cam.rotation.x) ==> dirty
            &&& place32(last.cam.rotation.y) != place32(state.cam.rotation.y) ==> dirty
            &&& place32(last.cam.rotation.z) != place32(state.cam.rotation.z) ==> dirty
            &&& place32(last.cam.rotation.w) != place32(state.cam.rotation.w) ==> dirty
            &&& place64(last.cam.fov_x) != place64(state.cam.fov_x) ==> dirty
            &&& place64(last.cam.fov_y) != place64(state.cam.fov_y) ==> dirty
            &&& place32(last.cam.center_u) != place32(state.cam.center_u) ==> dirty
            &&& place32(last.cam.center_v) != place32(state.cam.center_v) ==> dirty
            &&& place32(last.frame) != place32(state.frame) ==> dirty
            &&& place32(last.grid_opacity) != place32(state.grid_opacity) ==> dirty
            &&& last.size.x != state.size.x || last.size.y != state.size.y ==> dirty
            &&& last.settings.grid_enabled != state.settings.grid_enabled ==> dirty
        },
        same_switches(*old(panel), *final(panel)),
        same_contents(*old(panel), *final(panel)),
        dirty ==> (final(panel).last_state matches Some(now) && now.size == state.size && now.cam
            == state.cam && now.frame == state.frame && now.settings == state.settings
            && now.grid_opacity == state.grid_opacity),
        !dirty ==> final(panel).last_state is Some == old(panel).last_state is Some,
{
    if let Some(last) = old(panel).last_state {
        law_unchanged_picture(last@, state@);
    }
    lemma_contents(*old(panel), *final(panel));
}

/// Two states with the same numbers, choices and names give the same picture.
pub proof fn promise_same(a: RenderState, b: RenderState, r: bool)
    requires
        call_ensures(RenderState::same, (&a, &b), r),
    ensures
        r ==> one_number32(a.cam.position.x, b.cam.position.x) && one_number32(
            a.cam.position.y,
            b.cam.position.y,
        ) && one_number32(a.cam.position.z, b.cam.position.z),
        r <==> {
            &&& a.size.x == b.size.x && a.size.y == b.size.y
            &&& one_number64(a.cam.fov_x, b.cam.fov_x)
            &&& one_number64(a.cam.fov_y, b.cam.fov_y)
            &&& one_number32(a.cam.center_u, b.cam.center_u)
            &&& one_number32(a.cam.center_v, b.cam.center_v)
            &&& one_number32(a.cam.position.x, b.cam.position.x)
            &&& one_number32(a.cam.position.y, b.cam.position.y)
            &&& one_number32(a.cam.position.z, b.cam.position.z)
            &&& one_number32(a.cam.rotation.x, b.cam.rotation.x)
            &&& one_number32(a.cam.rotation.y, b.cam.rotation.y)
            &&& one_number32(a.cam.rotation.z, b.cam.rotation.z)
            &&& one_number32(a.cam.rotation.w, b.cam.rotation.w)
            &&& one_number32(a.frame, b.frame)
            &&& a.settings.background is Some <==> b.settings.background is Some
            &&& a.settings.background is Some ==> {
                &&& one_number32(a.settings.background->0.x, b.settings.background->0.x)
                &&& one_number32(a.settings.background->0.y, b.settings.background->0.y)
                &&& one_number32(a.settings.background->0.z, b.settings.background->0.z)
            }
            &&& a.settings.splat_scale is Some <==> b.settings.splat_scale is Some
            &&& a.settings.splat_scale is Some ==> one_number32(
                a.settings.splat_scale->0,
                b.settings.splat_scale->0,
            )
            &&& a.settings.grid_enabled == b.settings.grid_enabled
            &&& one_number32(a.grid_opacity, b.grid_opacity)
            &&& a.selected_aux_splat is Some <==> b.selected_aux_splat is Some
            &&& a.selected_aux_splat is Some ==> a.selected_aux_splat->0@
                == b.selected_aux_splat->0@
        },
{
    law_unchanged_picture(a@, b@);
}

/// What the user has set is what counts; what was not set is no grid, splats as large as
/// they are, and black.
pub proof fn promise_settings(settings: CameraSettings, grid: bool, scale: F32Bits, color: Vec3Bits)
    requires
        call_ensures(CameraSettings::shows_grid, (&settings,), grid),
        call_ensures(CameraSettings::scale, (&settings,), scale),
        call_ensures(CameraSettings::background_or_black, (&settings,), color),
    ensures
        settings.grid_enabled is None ==> !grid,
        settings.grid_enabled matches Some(enabled) ==> grid == enabled,
        settings.splat_scale is None ==> scale.bits == 0x3f80_0000,
        settings.splat_scale matches Some(s) ==> scale == s,
        settings.background is None ==> color.x.bits == 0 && color.y.bits == 0 && color.z.bits
            == 0,
        settings.background matches Some(c) ==> color == c,
{
}

/// What is read of a file is told in full: the message of a main file carries the up axis
/// and the progress that the file gave, and the splats; the message of another file carries
/// its name.
pub proof fn promise_part_message(
    file: PlyFile,
    path_count: usize,
    meta: SplatMeta,
    part: SplatId,
    message: ProcessMessage,
)
    requires
        call_ensures(part_message, (&file, path_count, meta, part), message),
    ensures
        file.auxiliary is None ==> (message matches ProcessMessage::ViewSplats {
            up_axis,
            splats,
            frame,
            total_frames,
            progress,
        } && {
            &&& up_axis == meta.up_axis
            &&& progress == meta.progress
            &&& splats == part
            &&& path_count == 1 ==> frame == meta.current_frame && total_frames
                == meta.frame_count
            &&& path_count != 1 ==> frame == file.index as int % 0x1_0000_0000 && total_frames
                == path_count as int % 0x1_0000_0000
        }),
        file.auxiliary matches Some(text) ==> (message matches ProcessMessage::ViewAuxiliarySplat {
            name,
            splats,
        } && name@ == text@ && splats == part),
{
}

/// An up axis that a main file names turns the scene that way, whatever the panel held,
/// unless a training run is shown.
pub proof fn promise_up_axis(
    file: PlyFile,
    path_count: usize,
    meta: SplatMeta,
    part: SplatId,
    message: ProcessMessage,
    panel: &mut ScenePanel,
    training: bool,
    asked: Vec<SceneEffect>,
)
    requires
        call_ensures(part_message, (&file, path_count, meta, part), message),
        call_ensures(ScenePanel::on_message, (panel, &message, training), asked),
        file.auxiliary is None,
    ensures
        meta.up_axis is Some && !training ==> asked@.len() == 1 && asked@[0]
            == (SceneEffect::SetModelUp { up: meta.up_axis->0 }),
        meta.up_axis is None || training ==> asked@.len() == 0,
        !old(panel).fully_loaded ==> final(panel).view_splats@.len() > 0,
        final(panel).live_update ==> final(panel).last_state is None,
{
    assert(asked@.len() == crate::scene::effects(asked@).len());
    if asked@.len() > 0 {
        assert(crate::scene::effects(asked@)[0] == asked@[0]@);
    }
    if final(panel).live_update {
        assert(final(panel)@.last_state is None);
    }
}

/// What a panel makes of each message, in its own fields.
pub proof fn promise_on_message(
    panel: &mut ScenePanel,
    message: ProcessMessage,
    training: bool,
    asked: Vec<SceneEffect>,
)
    requires
        call_ensures(ScenePanel::on_message, (panel, &message, training), asked),
    ensures
        ({
            let starts = message matches ProcessMessage::StartLoading { training: true };
            let was = *old(panel);
            let now = *final(panel);
            &&& now.paused == was.paused
            &&& now.has_guide == was.has_guide
            &&& now.recording == was.recording
            &&& now.live_update == (was.live_update || message is NewSource)
            &&& message is NewSource ==> now.err is None
            &&& !(message is NewSource) ==> now.err is Some == was.err is Some
            &&& starts ==> {
                &&& now.view_splats@.len() == 0
                &&& now.frame_count == 0
                &&& now.frame.bits == 0
                &&& now.selected_aux_splat is None
                &&& now.last_draw is None
                &&& now.last_state is None
            }
            &&& !starts ==> {
                &&& now.frame == was.frame
                &&& now.last_draw == was.last_draw
                &&& now.selected_aux_splat is Some == was.selected_aux_splat is Some
                &&& was.selected_aux_splat is Some ==> now.selected_aux_splat->0@
                    == was.selected_aux_splat->0@
            }
            &&& message matches ProcessMessage::TrainStep { splats, .. } ==> now.view_splats@
                == seq![splats]
            &&& message matches ProcessMessage::ViewSplats { total_frames, progress, .. } ==> {
                &&& now.frame_count == total_frames
                &&& now.fully_loaded == (was.fully_loaded || 0x3f80_0000 <= progress.bits
                    <= 0x7f80_0000)
            }
            &&& !starts && !(message is ViewSplats) ==> now.frame_count == was.frame_count
            &&& !(message is ViewSplats) ==> now.fully_loaded == was.fully_loaded
            &&& !starts && !(message is ViewSplats) && !(message is TrainStep)
                ==> now.view_splats@ == was.view_splats@
            &&& message is ViewSplats || message is TrainStep ==> (if was.live_update {
                now.last_state is None
            } else {
                now.last_state is Some == was.last_state is Some
            })
            &&& message is Warning ==> now.warnings@.len() == was.warnings@.len() + 1
            &&& !(message is Warning) ==> now.warnings@.len() == was.warnings@.len()
            &&& message matches ProcessMessage::ObjectMetadata { metadata }
                ==> now.object_metadata@ == metadata@
            &&& !(message is ObjectMetadata) ==> now.object_metadata@ == was.object_metadata@
        }),
{
    assert(final(panel)@.warnings.len() == final(panel).warnings@.len());
    assert(old(panel)@.warnings.len() == old(panel).warnings@.len());
    crate::scene_laws::law_what_messages_change(old(panel)@, message);
}

/// What the simple operations of a panel do, and that they do nothing else.
pub proof fn promise_switches(
    a: &mut ScenePanel,
    paused: bool,
    b: &mut ScenePanel,
    c: &mut ScenePanel,
    d: &mut ScenePanel,
    created: bool,
    e: &mut ScenePanel,
    f: &mut ScenePanel,
    stopped: bool,
)
    requires
        call_ensures(ScenePanel::toggle_paused, (a,), paused),
        call_ensures(ScenePanel::toggle_live_update, (b,), ()),
        call_ensures(ScenePanel::clear_warnings, (c,), ()),
        call_ensures(ScenePanel::guide_created, (d, created), ()),
        call_ensures(ScenePanel::recording_started, (e,), ()),
        call_ensures(ScenePanel::stop_recording, (f,), stopped),
    ensures
        final(a).paused == paused && paused != old(a).paused,
        final(a).live_update == old(a).live_update && final(a).recording == old(a).recording,
        final(b).live_update != old(b).live_update,
        final(b).paused == old(b).paused && final(b).recording == old(b).recording,
        final(c).warnings@.len() == 0,
        same_switches(*old(c), *final(c)),
        final(d).has_guide == (old(d).has_guide || created),
        final(d).paused == old(d).paused && final(d).live_update == old(d).live_update,
        final(e).recording && final(e).paused == old(e).paused,
        !final(f).recording && stopped == old(f).recording && final(f).paused == old(f).paused,
        same_contents(*old(a), *final(a)),
        same_contents(*old(b), *final(b)),
        same_contents(*old(d), *final(d)),
        same_contents(*old(e), *final(e)),
        same_contents(*old(f), *final(f)),
{
    assert(final(c)@.warnings.len() == final(c).warnings@.len());
    lemma_contents(*old(a), *final(a));
    lemma_contents(*old(b), *final(b));
    lemma_contents(*old(d), *final(d));
    lemma_contents(*old(e), *final(e));
    lemma_contents(*old(f), *final(f));
}

/// What is chosen is selected; of several commands the last one counts, each of them asks
/// for a new picture, and an error hides the scene.
pub proof fn promise_selection(
    a: &mut ScenePanel,
    name: Option<String>,
    b: &mut ScenePanel,
    commands: Vec<SceneCommand>,
    drawn: bool,
)
    requires
        call_ensures(ScenePanel::select, (a, name), ()),
        call_ensures(ScenePanel::ui, (b, commands), drawn),
    ensures
        final(a).selected_aux_splat is Some == name is Some,
        name is Some ==> final(a).selected_aux_splat->0@ == name->0@,
        same_switches(*old(a), *final(a)),
        drawn == (old(b).err is None),
        commands@.len() > 0 ==> {
            let SceneCommand::SelectSplat(last) = commands@[commands@.len() - 1];
            &&& final(b).selected_aux_splat is Some == last is Some
            &&& last is Some ==> final(b).selected_aux_splat->0@ == last->0@
            &&& final(b).last_state is None
        },
        commands@.len() == 0 ==> final(b).selected_aux_splat is Some == old(b).selected_aux_splat
            is Some && final(b).last_state is Some == old(b).last_state is Some,
        same_switches(*old(b), *final(b)),
        same_contents(*old(a), *final(a)),
        same_contents(*old(b), *final(b)),
{
    lemma_contents(*old(a), *final(a));
    lemma_contents(*old(b), *final(b));
}

/// A turn of the panel begins with the time since the last one; a hint is shown exactly if
/// there is nothing to show, nothing is trained, and the window has its other parts.
pub proof fn promise_begin(
    panel: &mut ScenePanel,
    now: u64,
    training: bool,
    mode: UiMode,
    body: SceneBody,
)
    requires
        call_ensures(ScenePanel::begin, (panel, now, training, mode), body),
    ensures
        final(panel).last_draw == Some(now),
        body is Hint <==> !training && old(panel).view_splats@.len() == 0 && mode is Default,
        body matches SceneBody::Splats { elapsed } ==> {
            &&& old(panel).last_draw is None ==> elapsed == 0
            &&& old(panel).last_draw matches Some(last) ==> {
                &&& last <= now ==> last + elapsed == now
                &&& last > now ==> elapsed == 0
            }
        },
        final(panel).paused == old(panel).paused,
        final(panel).live_update == old(panel).live_update,
        final(panel).frame == old(panel).frame,
        same_contents(*old(panel), *final(panel)),
{
    lemma_contents(*old(panel), *final(panel));
}

/// What is drawn at a frame are the splats of that frame, and on top of them the auxiliary
/// splats that are selected by name, if there are any of that name.
pub proof fn promise_pick(panel: ScenePanel, frame: usize, drawn: Option<Drawn>, i: int)
    requires
        call_ensures(ScenePanel::pick, (&panel, frame), drawn),
    ensures
        drawn is Some <==> frame < panel.view_splats@.len(),
        drawn matches Some(d) ==> {
            &&& d.splats == panel.view_splats@[frame as int]
            &&& panel.selected_aux_splat is None ==> d.highlighted is None
            &&& panel.selected_aux_splat matches Some(name) ==> {
                &&& panel@.valid() && 0 <= i < panel.view_auxiliary_splats@.len()
                    && panel.view_auxiliary_splats@[i].0@ == name@ ==> d.highlighted == Some(
                    panel.view_auxiliary_splats@[i].1,
                )
                &&& d.highlighted is Some ==> exists|k: int|
                    0 <= k < panel.view_auxiliary_splats@.len() && (
                    #[trigger] panel.view_auxiliary_splats@[k]).0@ == name@
            }
        },
{
    if let Some(d) = drawn {
        if let Some(name) = panel.selected_aux_splat {
            crate::scene::law_found_by_name(panel@.aux, name@, i);
            if let Some(k) = crate::scene::find(panel@.aux, name@) {
                assert(panel@.aux[k].0 == panel.view_auxiliary_splats@[k].0@);
            }
            if 0 <= i < panel.view_auxiliary_splats@.len() {
                assert(panel@.aux[i].0 == panel.view_auxiliary_splats@[i].0@);
                assert(panel@.aux[i].1 == panel.view_auxiliary_splats@[i].1);
            }
        }
    }
}

/// While frames are missing an animation goes no further than the last one that is there;
/// it can be played and stopped once all of them are.
pub proof fn promise_frames(panel: ScenePanel, last: Option<usize>, shown: bool)
    requires
        call_ensures(ScenePanel::last_frame, (&panel,), last),
        call_ensures(ScenePanel::shows_play_pause, (&panel,), shown),
        0 < panel.view_splats@.len() < 0x1_0000_0000,
    ensures
        last is None <==> panel.view_splats@.len() == panel.frame_count,
        last matches Some(i) ==> i + 1 == panel.view_splats@.len(),
        shown <==> panel.view_splats@.len() > 1 && panel.view_splats@.len() == panel.frame_count,
{
}

/// Pictures are drawn only if something changed and they have more than eight pixels each
/// way; the scene takes input unless it is embedded; and a checkerboard shows what is meant
/// to be transparent.
pub proof fn promise_drawing(
    width: u32,
    height: u32,
    dirty: bool,
    drawn: bool,
    mode: UiMode,
    interactive: bool,
    view: Option<AlphaMode>,
    alpha: Option<bool>,
    board: bool,
)
    requires
        call_ensures(draws_picture, (width, height, dirty), drawn),
        call_ensures(is_interactive, (mode,), interactive),
        call_ensures(draws_checkerboard, (view, alpha), board),
    ensures
        drawn <==> dirty && width >= 9 && height >= 9,
        interactive <==> !(mode is EmbeddedViewer),
        board <==> (view matches Some(v) && v is Transparent) && (alpha matches Some(a) && a),
{
}

/// An error is shown with its text on top, marked, and its causes below it as a list.
pub proof fn promise_error_display(
    error: Failure,
    display: ErrorDisplay,
    heading: String,
    bullets: Vec<String>,
    i: int,
)
    requires
        call_ensures(ErrorDisplay::new, (&error,), display),
        call_ensures(ErrorDisplay::heading, (&display,), heading),
        call_ensures(ErrorDisplay::bullets, (&display,), bullets),
        error.chain@.len() > 0,
    ensures
        heading@ == "❌ "@ + error.chain@[0]@,
        bullets@.len() + 1 == error.chain@.len(),
        0 < i < error.chain@.len() ==> bullets@[i - 1]@ == "• "@ + error.chain@[i]@,
{
    let causes = error.causes();
    assert(causes[0] == error.chain@[0]@);
    assert(display@.context == causes.skip(1));
    assert(texts(bullets@).len() == bullets@.len());
    if 0 < i < error.chain@.len() {
        assert(display@.context[i - 1] == causes[i]);
        assert(texts(bullets@)[i - 1] == bullets@[i - 1]@);
    }
}

/// An error has the text that it was made with; a context is put before it, and everything
/// that was there stays behind.
pub proof fn promise_failures(
    text: String,
    made: Failure,
    error: Failure,
    context: String,
    wrapped: Failure,
    explained: Failure,
    i: int,
)
    requires
        call_ensures(Failure::msg, (text,), made),
        call_ensures(Failure::context, (error, context), wrapped),
        call_ensures(explain_export_failure, (error,), explained),
    ensures
        made.chain@.len() == 1 && made.chain@[0]@ == text@,
        wrapped.chain@.len() == error.chain@.len() + 1,
        wrapped.chain@[0]@ == context@,
        0 <= i < error.chain@.len() ==> wrapped.chain@[i + 1]@ == error.chain@[i]@,
        explained.chain@.len() == error.chain@.len() + 1,
        explained.chain@[0]@ == "Failed to export splat"@,
        0 <= i < error.chain@.len() ==> explained.chain@[i + 1]@ == error.chain@[i]@,
{
    assert(made.causes().len() == 1 && made.causes()[0] == made.chain@[0]@);
    assert(wrapped.causes().len() == wrapped.chain@.len());
    assert(explained.causes().len() == explained.chain@.len());
    assert(wrapped.causes()[0] == wrapped.chain@[0]@);
    assert(explained.causes()[0] == explained.chain@[0]@);
    if 0 <= i < error.chain@.len() {
        assert(wrapped.causes()[i + 1] == wrapped.chain@[i + 1]@);
        assert(explained.causes()[i + 1] == explained.chain@[i + 1]@);
        assert(error.causes()[i] == error.chain@[i]@);
    }
}

/// The box with the controls is there unless something is loaded; its parts are there as
/// far as they apply, and say how things stand.
pub proof fn promise_controls(
    panel: ScenePanel,
    loading: bool,
    training: bool,
    has_splats: bool,
    shown: ControlsBox,
    i: int,
)
    requires
        call_ensures(controls_box, (&panel, loading, training, has_splats), shown),
    ensures
        shown is Loading <==> loading,
        shown matches ControlsBox::Panel { selector, training: controls } ==> {
            &&& controls is Some <==> training
            &&& controls matches Some(c) ==> {
                &&& c.running == !panel.paused
                &&& c.live_update == panel.live_update
                &&& c.can_export == has_splats
            }
            &&& selector is Some <==> panel.view_auxiliary_splats@.len() > 0
            &&& selector matches Some(s) ==> {
                &&& s.entries@.len() == panel.view_auxiliary_splats@.len() + 1
                &&& s.entries@[0].name is None
                &&& s.entries@[0].selected == (panel.selected_aux_splat is None)
                &&& 0 <= i < panel.view_auxiliary_splats@.len() ==> {
                    &&& s.entries@[i + 1].name is Some
                    &&& s.entries@[i + 1].name->0@ == panel.view_auxiliary_splats@[i].0@
                    &&& s.entries@[i + 1].selected == (panel.selected_aux_splat is Some
                        && panel.selected_aux_splat->0@ == panel.view_auxiliary_splats@[i].0@)
                }
            }
        },
{
    if let ControlsBox::Panel { selector, training: controls } = shown {
        crate::controls::law_selector_lines(selector, panel@, i);
        assert(panel@.aux.len() == panel.view_auxiliary_splats@.len());
        if 0 <= i < panel.view_auxiliary_splats@.len() {
            assert(panel@.aux[i].0 == panel.view_auxiliary_splats@[i].0@);
        }
    }
}

/// The button for voice can be pressed exactly while pressing it does something: it begins
/// a recording, or ends one.
pub proof fn promise_voice_button(
    button: VoiceButton,
    state: &mut AudioState,
    pressed: VoicePress,
)
    requires
        call_ensures(voice_button, (*old(state),), button),
        call_ensures(press_voice_button, (state,), pressed),
    ensures
        button.enabled <==> !(pressed is Nothing),
        pressed is Start <==> *old(state) is Idle,
        pressed is Stop <==> *old(state) is Recording,
        pressed is Start ==> *final(state) is Recording,
        pressed is Stop ==> *final(state) is Thinking,
        pressed is Nothing ==> *final(state) == *old(state),
        *old(state) is Idle ==> button.text@ == "✨ Ask Gemini"@,
        *old(state) is Recording ==> button.text@ == "⏹ Stop Recording"@,
        *old(state) is Thinking ==> button.text@ == "🤔 Thinking..."@,
        *old(state) is Playing ==> button.text@ == "▶️ Playing..."@,
        *old(state) is Idle ==> button.fill.r == 60 && button.fill.g == 120 && button.fill.b
            == 200,
        *old(state) is Recording ==> button.fill.r == 200 && button.fill.g == 60 && button.fill.b
            == 60,
        *old(state) is Thinking ==> button.fill.r == 120 && button.fill.g == 120 && button.fill.b
            == 120,
        *old(state) is Playing ==> button.fill.r == 60 && button.fill.g == 200 && button.fill.b
            == 120,
{
}

/// The button of an animation shows what pressing it would do, and stands out while the
/// animation plays.
pub proof fn promise_play_pause(playing: PlayPauseButton, paused: PlayPauseButton)
    requires
        call_ensures(play_pause_button, (false,), playing),
        call_ensures(play_pause_button, (true,), paused),
    ensures
        playing.highlighted && !paused.highlighted,
        playing.icon@ == "⏸"@,
        paused.icon@ == "⏵"@,
        playing.background.a > paused.background.a,
{
}

/// Arguments are refused exactly if there is neither a window nor anything to load; those
/// that are not refused come back as they are.
pub proof fn promise_arguments(cli: Cli, checked: Result<Cli, crate::cli::CliError>, window: bool)
    requires
        call_ensures(Cli::validate, (cli,), checked),
        call_ensures(crate::cli::default_with_viewer, (&cli.source,), window),
    ensures
        checked is Err <==> !cli.with_viewer && cli.source is None,
        checked matches Ok(c) ==> c == cli,
        window <==> cli.source is None,
{
}

/// What the terminal shows and keeps of each message.
pub proof fn promise_terminal(
    ui: &mut ProcessUi,
    message: Result<ProcessMessage, Failure>,
    shown: (Vec<UiAction>, UiFlow),
)
    requires
        call_ensures(ProcessUi::on_message, (ui, &message), shown),
    ensures
        final(ui).eval_every == old(ui).eval_every,
        message is Err ==> shown.1 is Fail && shown.0@.len() == 1 && shown.0@[0] is Print,
        message matches Ok(m) ==> {
            &&& shown.1 is Stop <==> (m matches ProcessMessage::StartLoading { training }
                && !training)
            &&& !(shown.1 is Fail)
            &&& m matches ProcessMessage::TrainStep { iter, total_elapsed_secs, .. } ==> {
                &&& final(ui).elapsed_secs == total_elapsed_secs
                &&& shown.0@.len() == 2
                &&& shown.0@[0] matches UiAction::Message { spinner, text } && spinner is Main
                    && text@ == "Training"@
                &&& shown.0@[1] matches UiAction::Position { pos } && pos == iter
            }
            &&& m matches ProcessMessage::RefineStep { cur_splat_count, .. } ==> {
                &&& shown.0@.len() == 1
                &&& shown.0@[0] matches UiAction::Message { spinner, text } && spinner is Stats
                    && text@ == "Current splat count "@ + decimal(cur_splat_count as nat)
            }
            &&& m matches ProcessMessage::EvalResult { iter, avg_psnr, avg_ssim } ==> {
                &&& shown.0@.len() == 1
                &&& shown.0@[0] matches UiAction::Message { spinner, text } && spinner is Eval
                    && text@ == "Eval iter "@ + decimal(iter as nat) + ": PSNR "@ + avg_psnr@
                    + ", ssim "@ + avg_ssim@
            }
            &&& m matches ProcessMessage::Dataset { train_views, eval_views } ==> {
                &&& shown.0@.len() == if eval_views is Some {
                    2int
                } else {
                    1
                }
                &&& shown.0@[0] matches UiAction::Message { spinner, text } && spinner is Main
                    && text@ == "Loading dataset with "@ + decimal(train_views as nat)
                    + " training, "@ + decimal(
                    match eval_views {
                        Some(n) => n as nat,
                        None => 0,
                    },
                ) + " eval views"@
            }
            &&& m is Warning ==> shown.0@.len() == 1 && shown.0@[0] is MustPrint
            &&& !(m is TrainStep) ==> final(ui).elapsed_secs == old(ui).elapsed_secs
        },
        message is Err ==> final(ui).elapsed_secs == old(ui).elapsed_secs,
{
    let views = crate::cli::ui_views(shown.0@);
    assert(views.len() == shown.0@.len());
    if shown.0@.len() > 0 {
        assert(views[0] == shown.0@[0]@);
    }
    if shown.0@.len() > 1 {
        assert(views[1] == shown.0@[1]@);
    }
}

/// A new panel holds nothing, follows the process, and neither pauses nor records.
pub proof fn promise_new_panel(panel: ScenePanel)
    requires
        call_ensures(ScenePanel::new, (), panel),
    ensures
        panel.view_splats@.len() == 0,
        panel.view_auxiliary_splats@.len() == 0,
        panel.object_metadata@.len() == 0,
        panel.warnings@.len() == 0,
        panel.live_update,
        !panel.paused && !panel.recording && !panel.has_guide && !panel.fully_loaded,
        panel.frame_count == 0,
        panel.frame.bits == 0,
        panel.err is None,
        panel.last_draw is None,
        panel.last_state is None,
        panel.selected_aux_splat is None,
{
    assert(panel@.aux.len() == panel.view_auxiliary_splats@.len());
    assert(panel@.warnings.len() == panel.warnings@.len());
}

/// An error that ends the process is shown from then on; exports that failed are added to
/// the warnings, each with its own text, behind those that were there.
pub proof fn promise_errors(
    a: &mut ScenePanel,
    error: Failure,
    b: &mut ScenePanel,
    failed: Vec<Failure>,
    i: int,
)
    requires
        call_ensures(ScenePanel::on_error, (a, &error), ()),
        call_ensures(ScenePanel::take_export_errors, (b, &failed), ()),
    ensures
        final(a).err is Some,
        final(a).err->0.headline@ == error.causes()[0],
        same_switches(*old(a), *final(a)),
        final(a).warnings@.len() == old(a).warnings@.len(),
        final(b).warnings@.len() == old(b).warnings@.len() + failed@.len(),
        0 <= i < failed@.len() ==> final(b).warnings@[old(b).warnings@.len() + i].headline@
            == failed@[i].causes()[0],
        0 <= i < old(b).warnings@.len() ==> final(b).warnings@[i].headline@ == old(
            b).warnings@[i].headline@,
        same_switches(*old(b), *final(b)),
{
    assert(final(a)@.warnings.len() == final(a).warnings@.len());
    assert(old(a)@.warnings.len() == old(a).warnings@.len());
    assert(final(b)@.warnings.len() == final(b).warnings@.len());
    assert(old(b)@.warnings.len() == old(b).warnings@.len());
    if 0 <= i < failed@.len() {
        let k = old(b).warnings@.len() + i;
        assert(final(b)@.warnings[k] == final(b).warnings@[k]@);
    }
    if 0 <= i < old(b).warnings@.len() {
        assert(final(b)@.warnings[i] == final(b).warnings@[i]@);
        assert(old(b)@.warnings[i] == old(b).warnings@[i]@);
    }
}

/// What is told of a file that is loaded carries what the file says of its splats, its
/// place among all files, and how many there are.
pub proof fn promise_view_message(
    stream: ViewStream,
    file: usize,
    meta: SplatMeta,
    part: SplatId,
    message: ProcessMessage,
)
    requires
        call_ensures(ViewStream::message, (&stream, file, meta, part), message),
        file < stream.plys().len(),
    ensures
        stream.plys()[file as int].auxiliary is None ==> (message
            matches ProcessMessage::ViewSplats { up_axis, splats, progress, frame, total_frames }
            && {
            &&& up_axis == meta.up_axis
            &&& splats == part
            &&& progress == meta.progress
            &&& stream.paths() == 1 ==> frame == meta.current_frame && total_frames
                == meta.frame_count
            &&& 1 < stream.paths() < 0x1_0000_0000 && 0 <= stream.plys()[file as int].index
                < 0x1_0000_0000 ==> frame == stream.plys()[file as int].index && total_frames
                == stream.paths()
        }),
        stream.plys()[file as int].auxiliary matches Some(text) ==> (message
            matches ProcessMessage::ViewAuxiliarySplat { name, splats } && name@ == text && splats
            == part),
{
}

/// A question can be asked exactly if there is a guide, and begins by looking for a
/// microphone.
pub proof fn promise_start_recording(
    has_client: bool,
    question: Option<crate::recording::VoiceQuestion>,
)
    requires
        call_ensures(crate::recording::start_recording, (has_client,), question),
    ensures
        question is Some <==> has_client,
        question matches Some(q) ==> q@.queue.len() == 1 && q@.queue[0] is FindInput && q@.wait
            is Nothing,
{
}

/// All paths are counted, with splats or without, and the files with splats are loaded from
/// their own paths.
pub proof fn promise_view_stream(
    style: crate::paths::PathStyle,
    paths: Vec<String>,
    stream: ViewStream,
    file: usize,
    path: String,
)
    requires
        call_ensures(crate::view_stream::view_stream, (style, paths), stream),
        call_ensures(ViewStream::path, (&stream, file), path),
        file < stream.plys().len(),
    ensures
        stream.paths() == paths@.len(),
        stream@.files == stream.plys().len(),
        path@ == stream.plys()[file as int].path,
        crate::paths::extension_of(style, path@) == Some("ply"@),
        stream@.begun == 1,
        stream@.queue.len() == 2 && stream@.queue[0] is EmitStartLoading,
        stream@.queue[1] matches crate::view_stream::ViewAction::Open { file: first } && first == 0,
{
    let sorted = crate::view_stream::alphanumeric_order(texts(paths@));
    crate::view_stream::law_every_ply_file(style, sorted, 0, file as int);
}

/// The last line says how long training took, as the last step told it.
pub proof fn promise_farewell(
    eval_every: u32,
    debug: bool,
    r: (ProcessUi, Vec<UiAction>),
    ui: ProcessUi,
    line: String,
)
    requires
        call_ensures(crate::cli::process_ui, (eval_every, debug), r),
        call_ensures(ProcessUi::farewell, (&ui,), line),
    ensures
        r.0.eval_every == eval_every,
        r.0.elapsed_secs == 0,
        r.1@.len() == if debug {
            3int
        } else {
            2
        },
        line@ == "Training took "@ + crate::cli::duration_text(ui.elapsed_secs as nat),
{
    assert(crate::cli::ui_views(r.1@).len() == r.1@.len());
}

} // verus!
