//! The box with the controls of the scene.

use crate::camera::equal_option;
use crate::paths::text_view;
use crate::scene::{Scene, ScenePanel};
use vstd::prelude::*;
use vstd::string::*;

verus! {

/// One line of the list of auxiliary splats.
#[derive(Debug)]
pub struct SelectorEntry {
    /// The splat that the line stands for; none for the line `Default`.
    pub name: Option<String>,
    pub selected: bool,
}

/// The list of auxiliary splats.
#[derive(Debug)]
pub struct Selector {
    pub selected_text: String,
    pub entries: Vec<SelectorEntry>,
}

/// The controls of a training run.
#[derive(Debug)]
pub struct TrainingControls {
    pub label: String,
    pub running: bool,
    pub live_update: bool,
    pub can_export: bool,
}

/// What the box shows.
#[derive(Debug)]
pub enum ControlsBox {
    /// Something is being loaded.
    Loading,
    /// The controls, as far as they apply. What is set about the picture is always
    /// there.
    Panel { selector: Option<Selector>, training: Option<TrainingControls> },
}

/// What the lines of the list say: the name, and whether it is selected.
pub open spec fn entry_views(entries: Seq<SelectorEntry>) -> Seq<(Option<Seq<char>>, bool)> {
    entries.map_values(|e: SelectorEntry| (text_view(e.name), e.selected))
}

/// The lines of the list: none selected first, and each auxiliary splat after it.
pub open spec fn selector_lines(scene: Scene) -> Seq<(Option<Seq<char>>, bool)> {
    seq![(None::<Seq<char>>, scene.selected is None)] + scene.aux.map_values(
        |p: (Seq<char>, crate::message::SplatId)| (Some(p.0), scene.selected == Some(p.0)),
    )
}

/// Whether `selector` is the list of auxiliary splats of `scene`.
pub open spec fn lists(selector: Option<Selector>, scene: Scene) -> bool {
    match selector {
        Some(s) => {
            &&& scene.aux.len() > 0
            &&& s.selected_text@ == match scene.selected {
                Some(name) => name,
                None => "Default"@,
            }
            &&& entry_views(s.entries@) == selector_lines(scene)
        },
        None => scene.aux.len() == 0,
    }
}

/// Whether `controls` are those of a training run shown in `scene`.
pub open spec fn controls_run(
    controls: Option<TrainingControls>,
    scene: Scene,
    training: bool,
    has_splats: bool,
) -> bool {
    match controls {
        Some(c) => {
            &&& training
            &&& c.label@ == if scene.paused {
                "⏸ Paused"@
            } else {
                "⏵ Training"@
            }
            &&& c.running == !scene.paused
            &&& c.live_update == scene.live_update
            &&& c.can_export == has_splats
        },
        None => !training,
    }
}

fn make_selector(panel: &ScenePanel) -> (r: Option<Selector>)
    ensures
        lists(r, panel@),
{
    if panel.view_auxiliary_splats.len() == 0 {
        return None;
    }
    let selected_text: String = match &panel.selected_aux_splat {
        Some(name) => name.clone(),
        None => "Default".to_owned(),
    };
    let mut entries: Vec<SelectorEntry> = Vec::new();
    entries.push(SelectorEntry { name: None, selected: panel.selected_aux_splat.is_none() });
    let ghost lines = selector_lines(panel@);
    assert(entry_views(entries@) == lines.take(1));
    let mut i: usize = 0;
    while i < panel.view_auxiliary_splats.len()
        invariant
            i <= panel.view_auxiliary_splats.len(),
            lines == selector_lines(panel@),
            entry_views(entries@) == lines.take(i + 1),
        decreases panel.view_auxiliary_splats.len() - i,
    {
        let name: Option<String> = Some(panel.view_auxiliary_splats[i].0.clone());
        let selected = equal_option(&panel.selected_aux_splat, &name);
        let ghost before = entries@;
        assert(panel@.aux[i as int].0 == panel.view_auxiliary_splats@[i as int].0@);
        assert(lines[i + 1] == (text_view(name), selected));
        entries.push(SelectorEntry { name, selected });
        assert(entry_views(entries@) == entry_views(before).push(lines[i + 1]));
        i = i + 1;
        assert(lines.take(i + 1) == lines.take(i as int).push(lines[i as int]));
    }
    assert(lines.take(lines.len() as int) == lines);
    Some(Selector { selected_text, entries })
}

/// Decides what the box shows.
pub fn controls_box(panel: &ScenePanel, loading: bool, training: bool, has_splats: bool) -> (r:
    ControlsBox)
    ensures
        match r {
            ControlsBox::Loading => loading,
            ControlsBox::Panel { selector, training: controls } => {
                &&& !loading
                &&& lists(selector, panel@)
                &&& controls_run(controls, panel@, training, has_splats)
            },
        },
{
    if loading {
        return ControlsBox::Loading;
    }
    let selector = make_selector(panel);
    let controls = if training {
        let label: String = if panel.paused {
            "⏸ Paused".to_owned()
        } else {
            "⏵ Training".to_owned()
        };
        Some(
            TrainingControls {
                label,
                running: !panel.paused,
                live_update: panel.live_update,
                can_export: has_splats,
            },
        )
    } else {
        None
    };
    ControlsBox::Panel { selector, training: controls }
}

/// A color with its opacity.
#[derive(Clone, Copy, PartialEq, Eq, Structural, Debug)]
pub struct Rgba {
    pub r: u8,
    pub g: u8,
    pub b: u8,
    pub a: u8,
}

/// How the button looks that plays and stops an animation.
#[derive(Debug)]
pub struct PlayPauseButton {
    pub icon: String,
    pub background: Rgba,
    pub highlighted: bool,
}

/// Decides how the button looks: it shows what pressing it would do.
pub fn play_pause_button(paused: bool) -> (r: PlayPauseButton)
    ensures
        r.icon@ == if paused {
            "⏵"@
        } else {
            "⏸"@
        },
        r.background == if paused {
            Rgba { r: 0, g: 0, b: 0, a: 64 }
        } else {
            Rgba { r: 30, g: 80, b: 200, a: 120 }
        },
        r.highlighted == !paused,
{
    if paused {
        PlayPauseButton {
            icon: "⏵".to_owned(),
            background: Rgba { r: 0, g: 0, b: 0, a: 64 },
            highlighted: false,
        }
    } else {
        PlayPauseButton {
            icon: "⏸".to_owned(),
            background: Rgba { r: 30, g: 80, b: 200, a: 120 },
            highlighted: true,
        }
    }
}

/// The list of auxiliary splats is there exactly if there are any. Its first line stands
/// for none of them; each splat has a line in the order in which they are held, and only
/// the line of what is shown is selected. What is shown is named above the list.
pub proof fn law_selector_lines(selector: Option<Selector>, scene: Scene, i: int)
    requires
        lists(selector, scene),
    ensures
        selector is Some <==> scene.aux.len() > 0,
        selector matches Some(s) ==> {
            &&& s.entries@.len() == scene.aux.len() + 1
            &&& s.entries@[0].name is None
            &&& s.entries@[0].selected <==> scene.selected is None
            &&& scene.selected is None ==> s.selected_text@ == "Default"@
            &&& scene.selected is Some ==> Some(s.selected_text@) == scene.selected
            &&& 0 <= i < scene.aux.len() ==> {
                &&& s.entries@[i + 1].name is Some
                &&& s.entries@[i + 1].name->0@ == scene.aux[i].0
                &&& s.entries@[i + 1].selected <==> scene.selected == Some(scene.aux[i].0)
            }
        },
{
    if let Some(s) = selector {
        let lines = selector_lines(scene);
        assert(entry_views(s.entries@).len() == s.entries@.len());
        assert(entry_views(s.entries@)[0] == lines[0]);
        if 0 <= i < scene.aux.len() {
            assert(entry_views(s.entries@)[i + 1] == lines[i + 1]);
        }
    }
}

/// The controls of a training run are there exactly if one is shown: they say whether it
/// runs or pauses, never both, and let splats be exported exactly if there are any.
pub proof fn law_training_controls(
    controls: Option<TrainingControls>,
    scene: Scene,
    training: bool,
    has_splats: bool,
)
    requires
        controls_run(controls, scene, training, has_splats),
    ensures
        controls is Some <==> training,
        controls matches Some(c) ==> {
            &&& c.running != scene.paused
            &&& c.running ==> c.label@ == "⏵ Training"@
            &&& !c.running ==> c.label@ == "⏸ Paused"@
            &&& c.live_update <==> scene.live_update
            &&& c.can_export <==> has_splats
        },
{
}

} // verus!
