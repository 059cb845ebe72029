use brush::camera::{Camera, CameraSettings, RenderState, UVec2};
use brush::config::AlphaMode;
use brush::controls::{controls_box, play_pause_button, ControlsBox, Rgba};
use brush::failure::{ErrorDisplay, Failure};
use brush::message::{ProcessMessage, QuatBits, SplatId, Vec3Bits};
use brush::num::{equal_f32, equal_f64, F32Bits, F64Bits};
use brush::recording::SceneCommand;
use brush::scene::{
    draws_checkerboard, draws_picture, explain_export_failure, export_file_name, is_interactive,
    Drawn, SceneBody, SceneEffect, ScenePanel, UiMode,
};

fn f(v: f32) -> F32Bits {
    F32Bits { bits: v.to_bits() }
}

fn vec3(x: f32, y: f32, z: f32) -> Vec3Bits {
    Vec3Bits { x: f(x), y: f(y), z: f(z) }
}

fn id(id: u64) -> SplatId {
    SplatId { id }
}

fn view(splats: u64, frame: u32, total_frames: u32, progress: f32) -> ProcessMessage {
    ProcessMessage::ViewSplats {
        up_axis: Some(vec3(0.0, 1.0, 0.0)),
        splats: id(splats),
        frame,
        total_frames,
        progress: f(progress),
    }
}

fn state(frame: f32, selected: Option<&str>) -> RenderState {
    let zero = F64Bits { bits: 0 };
    RenderState {
        size: UVec2 { x: 640, y: 480 },
        cam: Camera {
            fov_x: zero,
            fov_y: F64Bits { bits: 1.5f64.to_bits() },
            center_u: f(0.5),
            center_v: f(0.5),
            position: vec3(1.0, 2.0, 3.0),
            rotation: QuatBits { x: f(0.0), y: f(0.0), z: f(0.0), w: f(1.0) },
        },
        frame: f(frame),
        settings: CameraSettings { background: None, splat_scale: None, grid_enabled: None },
        grid_opacity: f(0.0),
        selected_aux_splat: selected.map(|s| s.to_string()),
    }
}

#[test]
fn numbers_are_equal_as_numbers() {
    assert!(equal_f32(f(0.0), f(-0.0)));
    assert!(equal_f32(f(1.5), f(1.5)));
    assert!(!equal_f32(f(1.5), f(-1.5)));
    assert!(!equal_f32(f(f32::NAN), f(f32::NAN)));
    assert!(equal_f32(f(f32::INFINITY), f(f32::INFINITY)));
    let d = |v: f64| F64Bits { bits: v.to_bits() };
    assert!(equal_f64(d(0.0), d(-0.0)) && !equal_f64(d(f64::NAN), d(f64::NAN)));
    assert!(equal_f64(d(2.5), d(2.5)) && !equal_f64(d(2.5), d(2.0)));
    assert!(f(1e-20).is_positive() && !f(-1.0).is_positive() && !f(f32::NAN).is_positive());
    assert!(f(1.0).is_at_least_one() && !f(0.999).is_at_least_one());
}

#[test]
fn fully_loaded_splats_stay_until_others_are_fully_loaded() {
    let mut panel = ScenePanel::new();
    panel.on_message(&view(1, 0, 1, 0.5), false);
    assert_eq!(panel.view_splats, vec![id(1)]);
    assert!(!panel.fully_loaded);
    panel.on_message(&view(2, 0, 1, 1.0), false);
    assert!(panel.fully_loaded);
    panel.on_message(&view(3, 0, 1, 0.9), false);
    assert_eq!(panel.view_splats, vec![id(2)]);
    panel.on_message(&view(4, 0, 1, 1.0), false);
    assert_eq!(panel.view_splats, vec![id(4)]);
}

#[test]
fn animations_show_their_frames_as_they_come() {
    let mut panel = ScenePanel::new();
    for i in 0..3 {
        panel.on_message(&view(10 + i as u64, i, 3, 1.0), false);
    }
    assert_eq!(panel.view_splats, vec![id(10), id(11), id(12)]);
    assert_eq!(panel.frame_count, 3);
    assert!(panel.shows_play_pause());
    panel.on_message(&view(20, 0, 3, 0.1), false);
    assert_eq!(panel.view_splats, vec![id(20)]);
    assert_eq!(panel.last_frame(), Some(0));
    panel.on_message(&view(22, 2, 3, 0.1), false);
    assert_eq!(panel.view_splats, vec![id(20), id(22), id(22)]);
    panel.on_message(&view(21, 1, 3, 0.1), false);
    assert_eq!(panel.view_splats, vec![id(20), id(22)]);
    assert!(!panel.shows_play_pause());
}

#[test]
fn the_scene_is_turned_only_while_nothing_is_trained() {
    let mut panel = ScenePanel::new();
    let effects = panel.on_message(&view(1, 0, 1, 1.0), false);
    assert!(matches!(effects[..], [SceneEffect::SetModelUp { up }] if up == vec3(0.0, 1.0, 0.0)));
    assert!(panel.on_message(&view(1, 0, 1, 1.0), true).is_empty());
}

#[test]
fn training_starts_afresh() {
    let mut panel = ScenePanel::new();
    panel.on_message(&view(1, 0, 1, 1.0), false);
    panel.select(Some("lens".to_string()));
    panel.refresh(state(0.0, None));
    panel.on_message(&ProcessMessage::StartLoading { training: false }, false);
    assert_eq!(panel.view_splats, vec![id(1)]);
    panel.on_message(&ProcessMessage::StartLoading { training: true }, false);
    assert!(panel.view_splats.is_empty());
    assert_eq!(panel.frame_count, 0);
    assert!(panel.selected_aux_splat.is_none() && panel.last_state.is_none());
    assert!(panel.fully_loaded);
    panel.on_message(&view(2, 0, 1, 0.5), true);
    assert_eq!(panel.frame_count, 1);
    assert!(panel.view_splats.is_empty());
    panel.on_message(&view(2, 0, 1, 1.0), true);
    assert_eq!(panel.view_splats, vec![id(2)]);
    assert_eq!(panel.last_frame(), None);
}

#[test]
fn named_splats_replace_those_of_the_same_name() {
    let mut panel = ScenePanel::new();
    let aux = |name: &str, splats: u64| ProcessMessage::ViewAuxiliarySplat {
        name: name.to_string(),
        splats: id(splats),
    };
    panel.on_message(&aux("lens", 1), false);
    panel.on_message(&aux("base", 2), false);
    panel.on_message(&aux("lens", 3), false);
    assert_eq!(
        panel.view_auxiliary_splats,
        vec![("lens".to_string(), id(3)), ("base".to_string(), id(2))]
    );
    panel.on_message(&view(9, 0, 1, 1.0), false);
    panel.select(Some("lens".to_string()));
    assert_eq!(panel.pick(0), Some(Drawn { splats: id(9), highlighted: Some(id(3)) }));
    panel.select(Some("other".to_string()));
    assert_eq!(panel.pick(0), Some(Drawn { splats: id(9), highlighted: None }));
    assert_eq!(panel.pick(1), None);
}

#[test]
fn a_guide_is_made_when_everything_is_loaded() {
    let mut panel = ScenePanel::new();
    panel.on_message(&ProcessMessage::ObjectMetadata { metadata: "A sub.".to_string() }, false);
    panel.on_message(
        &ProcessMessage::ViewAuxiliarySplat { name: "lens".to_string(), splats: id(1) },
        false,
    );
    let effects = panel.on_message(&ProcessMessage::DoneLoading, false);
    assert_eq!(effects.len(), 2);
    match &effects[0] {
        SceneEffect::CreateGuide { instructions, keywords } => {
            assert_eq!(instructions, "A sub.");
            assert_eq!(keywords, &vec!["lens".to_string(), "nothing".to_string()]);
        }
        other => panic!("{:?}", other),
    }
    assert!(matches!(effects[1], SceneEffect::SetUiMode { mode: UiMode::FullScreenSplat }));
    panel.guide_created(true);
    panel.guide_created(false);
    assert!(panel.has_guide);
}

#[test]
fn a_panel_that_does_not_follow_keeps_its_picture() {
    let mut panel = ScenePanel::new();
    assert!(panel.refresh(state(0.0, None)));
    panel.toggle_live_update();
    let step = ProcessMessage::TrainStep { splats: id(5), iter: 1, total_elapsed_secs: 0 };
    panel.on_message(&step, true);
    assert_eq!(panel.view_splats, vec![id(5)]);
    assert!(!panel.refresh(state(0.0, None)));
    panel.toggle_live_update();
    panel.on_message(&step, true);
    assert!(panel.refresh(state(0.0, None)));
}

#[test]
fn a_picture_is_drawn_again_when_something_changes() {
    let mut panel = ScenePanel::new();
    assert!(panel.refresh(state(0.0, None)));
    assert!(!panel.refresh(state(-0.0, None)));
    assert!(panel.refresh(state(1.0, None)));
    assert!(panel.refresh(state(1.0, Some("lens"))));
    assert!(!panel.refresh(state(1.0, Some("lens"))));
    assert!(panel.refresh(state(f32::NAN, None)));
    assert!(panel.refresh(state(f32::NAN, None)));
    let mut other = state(1.0, None);
    other.settings.grid_enabled = Some(true);
    assert!(panel.refresh(other));
}

#[test]
fn errors_and_warnings() {
    let mut panel = ScenePanel::new();
    let error = Failure::msg("cause".to_string()).context("what".to_string());
    panel.on_message(&ProcessMessage::Warning { error }, false);
    assert_eq!(panel.warnings[0].heading(), "❌ what");
    assert_eq!(panel.warnings[0].bullets(), vec!["• cause"]);
    panel.take_export_errors(&vec![explain_export_failure(Failure::msg("full".to_string()))]);
    assert_eq!(panel.warnings[1].headline, "Failed to export splat");
    panel.clear_warnings();
    assert!(panel.warnings.is_empty());
    assert!(panel.ui(vec![]));
    panel.on_error(&Failure::msg("gone".to_string()));
    assert!(!panel.ui(vec![]));
    panel.on_message(&ProcessMessage::NewSource, false);
    assert!(panel.ui(vec![]));
    assert_eq!(export_file_name(), "export.ply");
    let shown = ErrorDisplay::new(&Failure::msg("x".to_string()));
    assert!(shown.context.is_empty());
}

#[test]
fn commands_select_splats() {
    let mut panel = ScenePanel::new();
    panel.refresh(state(0.0, None));
    panel.ui(vec![
        SceneCommand::SelectSplat(Some("a".to_string())),
        SceneCommand::SelectSplat(Some("b".to_string())),
    ]);
    assert_eq!(panel.selected_aux_splat, Some("b".to_string()));
    assert!(panel.last_state.is_none());
}

#[test]
fn an_empty_scene_shows_a_hint() {
    let mut panel = ScenePanel::new();
    assert_eq!(panel.begin(100, false, UiMode::Default), SceneBody::Hint);
    assert_eq!(
        panel.begin(130, false, UiMode::FullScreenSplat),
        SceneBody::Splats { elapsed: 30 }
    );
    assert_eq!(panel.begin(120, true, UiMode::Default), SceneBody::Splats { elapsed: 0 });
    assert_eq!(panel.title(), "Scene");
}

#[test]
fn recordings_are_stopped_once() {
    let mut panel = ScenePanel::new();
    assert!(!panel.stop_recording());
    panel.recording_started();
    assert!(panel.stop_recording());
    assert!(!panel.stop_recording());
}

#[test]
fn when_pictures_are_drawn() {
    assert!(is_interactive(UiMode::Default) && is_interactive(UiMode::FullScreenSplat));
    assert!(!is_interactive(UiMode::EmbeddedViewer));
    assert!(draws_picture(9, 9, true) && !draws_picture(8, 9, true) && !draws_picture(9, 9, false));
    let transparent = Some(AlphaMode::Transparent);
    assert!(draws_checkerboard(transparent, Some(true)));
    assert!(!draws_checkerboard(transparent, Some(false)));
    assert!(!draws_checkerboard(Some(AlphaMode::Masked), Some(true)));
    assert!(!draws_checkerboard(transparent, None) && !draws_checkerboard(None, Some(true)));
}

#[test]
fn the_camera_is_moved_by_messages() {
    let mut panel = ScenePanel::new();
    let rotation = QuatBits { x: f(0.0), y: f(0.0), z: f(0.0), w: f(1.0) };
    let effects = panel.on_message(
        &ProcessMessage::CameraData {
            focal_point: vec3(1.0, 0.0, 0.0),
            focus_distance: f(2.0),
            rotation,
        },
        false,
    );
    assert!(matches!(
        effects[..],
        [SceneEffect::SetFocalPoint { focus_distance, .. }] if focus_distance == f(2.0)
    ));
}

#[test]
fn the_box_with_controls() {
    let mut panel = ScenePanel::new();
    assert!(matches!(controls_box(&panel, true, true, true), ControlsBox::Loading));
    match controls_box(&panel, false, false, true) {
        ControlsBox::Panel { selector, training } => {
            assert!(selector.is_none() && training.is_none())
        }
        other => panic!("{:?}", other),
    }
    panel.on_message(
        &ProcessMessage::ViewAuxiliarySplat { name: "lens".to_string(), splats: id(1) },
        false,
    );
    panel.select(Some("lens".to_string()));
    assert!(panel.toggle_paused());
    match controls_box(&panel, false, true, false) {
        ControlsBox::Panel { selector: Some(s), training: Some(t) } => {
            assert_eq!(s.selected_text, "lens");
            assert_eq!(s.entries.len(), 2);
            assert!(s.entries[0].name.is_none() && !s.entries[0].selected);
            assert_eq!(s.entries[1].name, Some("lens".to_string()));
            assert!(s.entries[1].selected);
            assert_eq!(t.label, "⏸ Paused");
            assert!(!t.running && t.live_update && !t.can_export);
        }
        other => panic!("{:?}", other),
    }
    panel.select(None);
    assert!(!panel.toggle_paused());
    match controls_box(&panel, false, true, true) {
        ControlsBox::Panel { selector: Some(s), training: Some(t) } => {
            assert_eq!(s.selected_text, "Default");
            assert_eq!(t.label, "⏵ Training");
            assert!(t.can_export);
        }
        other => panic!("{:?}", other),
    }
}

#[test]
fn the_play_button() {
    let paused = play_pause_button(true);
    assert_eq!(paused.icon, "⏵");
    assert_eq!(paused.background, Rgba { r: 0, g: 0, b: 0, a: 64 });
    let playing = play_pause_button(false);
    assert_eq!(playing.icon, "⏸");
    assert!(playing.highlighted);
}

#[test]
fn settings_have_defaults() {
    let mut s = CameraSettings { background: None, splat_scale: None, grid_enabled: None };
    assert!(!s.shows_grid());
    assert_eq!(s.scale(), f(1.0));
    assert_eq!(s.background_or_black(), vec3(0.0, 0.0, 0.0));
    s.grid_enabled = Some(true);
    s.splat_scale = Some(f(0.5));
    s.background = Some(vec3(1.0, 1.0, 1.0));
    assert!(s.shows_grid());
    assert_eq!(s.scale(), f(0.5));
    assert_eq!(s.background_or_black(), vec3(1.0, 1.0, 1.0));
}
