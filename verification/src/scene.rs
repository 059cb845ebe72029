//! The panel that shows the scene.

use crate::camera::{same_picture, RenderKey, RenderState};
use crate::config::AlphaMode;
use crate::failure::{shown, ErrorDisplay, Failure, Shown};
use crate::message::{ProcessMessage, QuatBits, SplatId, Vec3Bits};
use crate::num::{low_u32, F32Bits};
use crate::paths::text_view;
use crate::recording::SceneCommand;
use crate::scene_laws::{law_unchanged_picture, one_number32, one_number64};
use crate::text::{same_text, texts};
use vstd::prelude::*;
use vstd::string::*;

verus! {

/// Pictures that are not larger than this are not drawn.
pub const MIN_PIXELS: u32 = 8;

/// How much of the window the scene takes.
#[derive(Clone, Copy, PartialEq, Eq, Structural, Debug)]
pub enum UiMode {
    Default,
    FullScreenSplat,
    EmbeddedViewer,
}

/// The panel that shows the scene.
pub struct ScenePanel {
    pub view_splats: Vec<SplatId>,
    /// Splats that can be shown on top, by name; no name occurs twice.
    pub view_auxiliary_splats: Vec<(String, SplatId)>,
    pub object_metadata: String,
    /// Whether there is a guide to ask.
    pub has_guide: bool,
    pub fully_loaded: bool,
    pub frame_count: u32,
    /// The time of the animation, in seconds.
    pub frame: F32Bits,
    pub live_update: bool,
    pub paused: bool,
    /// Whether a recording can be told to stop.
    pub recording: bool,
    pub err: Option<ErrorDisplay>,
    pub warnings: Vec<ErrorDisplay>,
    /// When the panel was drawn last, in nanoseconds.
    pub last_draw: Option<u64>,
    /// What the last picture depended on.
    pub last_state: Option<RenderState>,
    pub selected_aux_splat: Option<String>,
}

/// What the panel holds.
#[verifier::ext_equal]
pub struct Scene {
    pub view_splats: Seq<SplatId>,
    pub aux: Seq<(Seq<char>, SplatId)>,
    pub object_metadata: Seq<char>,
    pub has_guide: bool,
    pub fully_loaded: bool,
    pub frame_count: u32,
    pub frame: F32Bits,
    pub live_update: bool,
    pub paused: bool,
    pub recording: bool,
    pub err: Option<Shown>,
    pub warnings: Seq<Shown>,
    pub last_draw: Option<u64>,
    pub last_state: Option<RenderKey>,
    pub selected: Option<Seq<char>>,
}

/// Named splats, with their names as text.
pub open spec fn named(aux: Seq<(String, SplatId)>) -> Seq<(Seq<char>, SplatId)> {
    aux.map_values(|p: (String, SplatId)| (p.0@, p.1))
}

/// Error displays as what they say.
pub open spec fn displays(list: Seq<ErrorDisplay>) -> Seq<Shown> {
    list.map_values(|e: ErrorDisplay| e@)
}

impl View for ScenePanel {
    type V = Scene;

    open spec fn view(&self) -> Scene {
        Scene {
            view_splats: self.view_splats@,
            aux: named(self.view_auxiliary_splats@),
            object_metadata: self.object_metadata@,
            has_guide: self.has_guide,
            fully_loaded: self.fully_loaded,
            frame_count: self.frame_count,
            frame: self.frame,
            live_update: self.live_update,
            paused: self.paused,
            recording: self.recording,
            err: match self.err {
                Some(e) => Some(e@),
                None => None,
            },
            warnings: displays(self.warnings@),
            last_draw: self.last_draw,
            last_state: match self.last_state {
                Some(s) => Some(s@),
                None => None,
            },
            selected: text_view(self.selected_aux_splat),
        }
    }
}

/// Where `name` stands among named splats.
pub open spec fn find(aux: Seq<(Seq<char>, SplatId)>, name: Seq<char>) -> Option<int>
    decreases aux.len(),
{
    if aux.len() == 0 {
        None
    } else if aux.last().0 == name {
        Some(aux.len() - 1)
    } else {
        find(aux.drop_last(), name)
    }
}

/// The splats called `name`.
pub open spec fn lookup(aux: Seq<(Seq<char>, SplatId)>, name: Seq<char>) -> Option<SplatId> {
    match find(aux, name) {
        Some(i) => Some(aux[i].1),
        None => None,
    }
}

/// Named splats with `splats` under `name`; what had that name before is gone.
pub open spec fn with_named(
    aux: Seq<(Seq<char>, SplatId)>,
    name: Seq<char>,
    splats: SplatId,
) -> Seq<(Seq<char>, SplatId)> {
    match find(aux, name) {
        Some(i) => aux.update(i, (name, splats)),
        None => aux.push((name, splats)),
    }
}

/// Whether no name occurs twice.
pub open spec fn names_differ(aux: Seq<(Seq<char>, SplatId)>) -> bool {
    forall|i: int, j: int|
        0 <= i < j < aux.len() ==> (#[trigger] aux[i]).0 != (#[trigger] aux[j]).0
}

/// `s` cut, or filled up with `x`, to `n` items.
pub open spec fn resized(s: Seq<SplatId>, n: int, x: SplatId) -> Seq<SplatId> {
    Seq::new(
        n as nat,
        |i: int|
            if i < s.len() {
                s[i]
            } else {
                x
            },
    )
}

/// What a message asks of the rest of the program.
#[derive(Debug)]
pub enum SceneEffect {
    /// Turn the scene so that this is up.
    SetModelUp { up: Vec3Bits },
    /// Look at this point.
    SetFocalPoint { focal_point: Vec3Bits, focus_distance: F32Bits, rotation: QuatBits },
    /// Make a guide who knows this and can point at these things.
    CreateGuide { instructions: String, keywords: Vec<String> },
    /// Show nothing but the scene.
    SetUiMode { mode: UiMode },
}

/// What an effect says.
pub enum EffectView {
    SetModelUp { up: Vec3Bits },
    SetFocalPoint { focal_point: Vec3Bits, focus_distance: F32Bits, rotation: QuatBits },
    CreateGuide { instructions: Seq<char>, keywords: Seq<Seq<char>> },
    SetUiMode { mode: UiMode },
}

impl View for SceneEffect {
    type V = EffectView;

    open spec fn view(&self) -> EffectView {
        match self {
            SceneEffect::SetModelUp { up } => EffectView::SetModelUp { up: *up },
            SceneEffect::SetFocalPoint { focal_point, focus_distance, rotation } => {
                EffectView::SetFocalPoint {
                    focal_point: *focal_point,
                    focus_distance: *focus_distance,
                    rotation: *rotation,
                }
            },
            SceneEffect::CreateGuide { instructions, keywords } => EffectView::CreateGuide {
                instructions: instructions@,
                keywords: texts(keywords@),
            },
            SceneEffect::SetUiMode { mode } => EffectView::SetUiMode { mode: *mode },
        }
    }
}

/// Effects as what they say.
pub open spec fn effects(list: Seq<SceneEffect>) -> Seq<EffectView> {
    list.map_values(|e: SceneEffect| e@)
}

/// The names that the guide can point at: those of the auxiliary splats, and `nothing`.
pub open spec fn guide_keywords(aux: Seq<(Seq<char>, SplatId)>) -> Seq<Seq<char>> {
    aux.map_values(|p: (Seq<char>, SplatId)| p.0).push("nothing"@)
}

impl Scene {
    /// No auxiliary splat is listed twice.
    pub open spec fn valid(self) -> bool {
        names_differ(self.aux)
    }

    /// A panel that has not shown anything.
    pub open spec fn empty() -> Scene {
        Scene {
            view_splats: Seq::empty(),
            aux: Seq::empty(),
            object_metadata: Seq::empty(),
            has_guide: false,
            fully_loaded: false,
            frame_count: 0,
            frame: F32Bits { bits: 0 },
            live_update: true,
            paused: false,
            recording: false,
            err: None,
            warnings: Seq::empty(),
            last_draw: None,
            last_state: None,
            selected: None,
        }
    }

    /// The panel without the splats that it showed.
    pub open spec fn reset(self) -> Scene {
        Scene {
            last_draw: None,
            last_state: None,
            view_splats: Seq::empty(),
            frame_count: 0,
            frame: F32Bits { bits: 0 },
            selected: None,
            ..self
        }
    }

    /// The panel with a new picture to draw, if it follows the process.
    pub open spec fn stale(self) -> Scene {
        if self.live_update {
            Scene { last_state: None, ..self }
        } else {
            self
        }
    }

    /// The splats that are shown once `splats` were loaded. An animation shows its
    /// frames as they come; other splats take the place of fully loaded ones only when
    /// they are fully loaded themselves.
    pub open spec fn shown_splats(
        self,
        splats: SplatId,
        frame: u32,
        total_frames: u32,
        done: bool,
    ) -> Seq<SplatId> {
        if total_frames > 1 {
            if frame == 0 {
                seq![splats]
            } else {
                resized(self.view_splats, frame + 1, splats)
            }
        } else if done || !self.fully_loaded {
            seq![splats]
        } else {
            self.view_splats
        }
    }

    /// The panel after `message`.
    pub open spec fn on_message(self, message: ProcessMessage) -> Scene {
        match message {
            ProcessMessage::NewSource => Scene { live_update: true, err: None, ..self },
            ProcessMessage::StartLoading { training } => if training {
                self.reset()
            } else {
                self
            },
            ProcessMessage::ViewSplats { splats, frame, total_frames, progress, .. } => {
                let done = progress.reaches_one();
                (Scene {
                    view_splats: self.shown_splats(splats, frame, total_frames, done),
                    frame_count: total_frames,
                    fully_loaded: self.fully_loaded || done,
                    ..self
                }).stale()
            },
            ProcessMessage::ViewAuxiliarySplat { name, splats } => Scene {
                aux: with_named(self.aux, name@, splats),
                ..self
            },
            ProcessMessage::TrainStep { splats, .. } => (Scene {
                view_splats: seq![splats],
                ..self
            }).stale(),
            ProcessMessage::Warning { error } => Scene {
                warnings: self.warnings.push(shown(error.causes())),
                ..self
            },
            ProcessMessage::ObjectMetadata { metadata } => Scene {
                object_metadata: metadata@,
                ..self
            },
            _ => self,
        }
    }

    /// What `message` asks of the rest of the program.
    pub open spec fn effects_of(self, message: ProcessMessage, training: bool) -> Seq<EffectView> {
        match message {
            ProcessMessage::ViewSplats { up_axis: Some(up), .. } => if training {
                Seq::empty()
            } else {
                seq![EffectView::SetModelUp { up }]
            },
            ProcessMessage::CameraData { focal_point, focus_distance, rotation } => seq![
                EffectView::SetFocalPoint { focal_point, focus_distance, rotation },
            ],
            ProcessMessage::DoneLoading => seq![
                EffectView::CreateGuide {
                    instructions: self.object_metadata,
                    keywords: guide_keywords(self.aux),
                },
                EffectView::SetUiMode { mode: UiMode::FullScreenSplat },
            ],
            _ => Seq::empty(),
        }
    }
}

/// What a message has to be for the panel to take it in.
pub open spec fn acceptable(message: ProcessMessage) -> bool {
    match message {
        ProcessMessage::Warning { error } => error.valid(),
        ProcessMessage::ViewSplats { frame, .. } => frame < usize::MAX,
        _ => true,
    }
}

/// Finds a name among named splats.
fn position(aux: &Vec<(String, SplatId)>, name: &str) -> (r: Option<usize>)
    ensures
        match r {
            Some(i) => i < aux.len() && find(named(aux@), name@) == Some(i as int),
            None => find(named(aux@), name@) is None,
        },
{
    let mut end: usize = aux.len();
    let ghost all = named(aux@);
    assert(all.take(all.len() as int) == all);
    while end > 0
        invariant
            end <= aux.len(),
            all == named(aux@),
            find(all, name@) == find(all.take(end as int), name@),
        decreases end,
    {
        assert(all.take(end as int).last() == (aux@[end - 1].0@, aux@[end - 1].1));
        assert(all.take(end as int).drop_last() == all.take(end - 1));
        if same_text(aux[end - 1].0.as_str(), name) {
            return Some(end - 1);
        }
        end = end - 1;
    }
    None
}

proof fn lemma_find(aux: Seq<(Seq<char>, SplatId)>, name: Seq<char>)
    ensures
        match find(aux, name) {
            Some(i) => 0 <= i < aux.len() && aux[i].0 == name,
            None => forall|i: int| 0 <= i < aux.len() ==> (#[trigger] aux[i]).0 != name,
        },
    decreases aux.len(),
{
    if aux.len() > 0 && aux.last().0 != name {
        lemma_find(aux.drop_last(), name);
        if find(aux.drop_last(), name) is None {
            assert forall|i: int| 0 <= i < aux.len() implies (#[trigger] aux[i]).0 != name by {
                if i < aux.len() - 1 {
                    assert(aux[i] == aux.drop_last()[i]);
                }
            }
        }
    }
}

/// Splats that were put under a name are found under it, those under other names are
/// still found, and no name is listed twice.
pub proof fn law_named_splats(
    aux: Seq<(Seq<char>, SplatId)>,
    name: Seq<char>,
    splats: SplatId,
    other: Seq<char>,
)
    requires
        names_differ(aux),
    ensures
        names_differ(with_named(aux, name, splats)),
        lookup(with_named(aux, name, splats), name) == Some(splats),
        other != name ==> lookup(with_named(aux, name, splats), other) == lookup(aux, other),
{
    let after = with_named(aux, name, splats);
    lemma_find(aux, name);
    lemma_find(aux, other);
    lemma_find(after, name);
    lemma_find(after, other);
    assert forall|i: int, j: int| 0 <= i < j < after.len() implies (#[trigger] after[i]).0 != (
    #[trigger] after[j]).0 by {
        if let Some(k) = find(aux, name) {
            assert(after[i].0 == aux[i].0);
            assert(after[j].0 == aux[j].0);
        } else {
            assert(after[i] == aux[i]);
            if j < aux.len() {
                assert(after[j] == aux[j]);
            }
        }
    }
    if let Some(k) = find(aux, name) {
        assert(after[k] == (name, splats));
        if let Some(i) = find(after, name) {
            assert(i == k);
        }
        if other != name {
            if let Some(i) = find(aux, other) {
                assert(after[i] == aux[i]);
                let m = find(after, other)->0;
                assert(m == i);
            } else if let Some(m) = find(after, other) {
                assert(after[m].0 == aux[m].0 || m == k);
            }
        }
    } else {
        let k = aux.len() as int;
        assert(after[k] == (name, splats));
        if other != name {
            if let Some(i) = find(aux, other) {
                assert(after[i] == aux[i]);
                let m = find(after, other)->0;
                assert(m == i);
            } else if let Some(m) = find(after, other) {
                assert(m < k ==> after[m] == aux[m]);
            }
        }
    }
}

/// What the panel shows when it is drawn.
#[derive(Clone, Copy, PartialEq, Eq, Structural, Debug)]
pub enum SceneBody {
    /// A hint that something has to be loaded.
    Hint,
    /// The scene, after this many nanoseconds.
    Splats { elapsed: u64 },
}

/// Which splats are drawn.
#[derive(Clone, Copy, PartialEq, Eq, Structural, Debug)]
pub struct Drawn {
    pub splats: SplatId,
    /// Splats that are drawn on top, in yellow.
    pub highlighted: Option<SplatId>,
}

impl ScenePanel {
    /// A panel that has not shown anything.
    pub fn new() -> (r: Self)
        ensures
            r@ == Scene::empty(),
            r@.valid(),
    {
        let r = ScenePanel {
            view_splats: Vec::new(),
            view_auxiliary_splats: Vec::new(),
            object_metadata: String::new(),
            has_guide: false,
            fully_loaded: false,
            frame_count: 0,
            frame: F32Bits { bits: 0 },
            live_update: true,
            paused: false,
            recording: false,
            err: None,
            warnings: Vec::new(),
            last_draw: None,
            last_state: None,
            selected_aux_splat: None,
        };
        assert(r@ =~= Scene::empty());
        r
    }

    /// The title of the panel.
    pub fn title(&self) -> (r: String)
        ensures
            r@ == "Scene"@,
    {
        "Scene".to_owned()
    }

    fn reset_splats(&mut self)
        ensures
            final(self)@ == old(self)@.reset(),
    {
        self.last_draw = None;
        self.last_state = None;
        self.view_splats = Vec::new();
        self.frame_count = 0;
        self.frame = F32Bits { bits: 0 };
        self.selected_aux_splat = None;
        assert(self@ =~= old(self)@.reset());
    }

    fn resize_splats(&mut self, n: usize, splats: SplatId)
        ensures
            final(self)@ == (Scene {
                view_splats: resized(old(self)@.view_splats, n as int, splats),
                ..old(self)@
            }),
    {
        let ghost before = self.view_splats@;
        if self.view_splats.len() > n {
            self.view_splats.truncate(n);
        }
        while self.view_splats.len() < n
            invariant
                self.view_splats@.len() <= n,
                self.view_splats@.len() < n ==> before.len() <= self.view_splats@.len(),
                self.view_splats@ == resized(before, self.view_splats@.len() as int, splats),
                self@ == (Scene { view_splats: self.view_splats@, ..old(self)@ }),
            decreases n - self.view_splats@.len(),
        {
            let ghost now = self.view_splats@;
            self.view_splats.push(splats);
            assert(self.view_splats@ == resized(before, now.len() as int + 1, splats));
        }
    }

    fn keywords(&self) -> (r: Vec<String>)
        ensures
            texts(r@) == guide_keywords(self@.aux),
    {
        let mut out: Vec<String> = Vec::new();
        let mut i: usize = 0;
        let ghost names = self@.aux.map_values(|p: (Seq<char>, SplatId)| p.0);
        while i < self.view_auxiliary_splats.len()
            invariant
                i <= self.view_auxiliary_splats.len(),
                names == self@.aux.map_values(|p: (Seq<char>, SplatId)| p.0),
                texts(out@) == names.take(i as int),
            decreases self.view_auxiliary_splats.len() - i,
        {
            let ghost before = out@;
            let name: String = self.view_auxiliary_splats[i].0.clone();
            out.push(name);
            assert(texts(out@) == texts(before).push(name@));
            assert(self@.aux[i as int].0 == name@);
            i = i + 1;
            assert(names.take(i as int) == names.take(i - 1).push(names[i - 1]));
        }
        assert(names.take(names.len() as int) == names);
        let ghost before = out@;
        out.push("nothing".to_owned());
        assert(texts(out@) == texts(before).push("nothing"@));
        out
    }

    fn put_named(&mut self, name: String, splats: SplatId)
        ensures
            final(self)@ == (Scene {
                aux: with_named(old(self)@.aux, name@, splats),
                ..old(self)@
            }),
    {
        match position(&self.view_auxiliary_splats, name.as_str()) {
            Some(i) => {
                self.view_auxiliary_splats.set(i, (name, splats));
            },
            None => {
                self.view_auxiliary_splats.push((name, splats));
            },
        }
        assert(self@.aux == with_named(old(self)@.aux, name@, splats));
    }

    fn warn(&mut self, error: &Failure)
        requires
            error.valid(),
        ensures
            final(self)@ == (Scene {
                warnings: old(self)@.warnings.push(shown(error.causes())),
                ..old(self)@
            }),
    {
        self.warnings.push(ErrorDisplay::new(error));
        assert(self@.warnings == old(self)@.warnings.push(shown(error.causes())));
    }

    /// Takes in a message of the process; `training` says whether the process trains.
    pub fn on_message(&mut self, message: &ProcessMessage, training: bool) -> (r: Vec<SceneEffect>)
        requires
            old(self)@.valid(),
            acceptable(*message),
        ensures
            final(self)@ == old(self)@.on_message(*message),
            final(self)@.valid(),
            effects(r@) == old(self)@.effects_of(*message, training),
    {
        let mut out: Vec<SceneEffect> = Vec::new();
        let ghost before = self@;
        match message {
            ProcessMessage::NewSource => {
                self.live_update = true;
                self.err = None;
            },
            ProcessMessage::StartLoading { training } => {
                if *training {
                    self.reset_splats();
                }
            },
            ProcessMessage::ViewSplats { up_axis, splats, frame, total_frames, progress } => {
                if !training {
                    if let Some(up) = up_axis {
                        out.push(SceneEffect::SetModelUp { up: *up });
                    }
                }
                self.frame_count = *total_frames;
                let done_loading = progress.is_at_least_one();
                if *total_frames > 1 {
                    if *frame == 0 {
                        self.view_splats.clear();
                    }
                    self.resize_splats(*frame as usize + 1, *splats);
                    assert(*frame == 0 ==> self.view_splats@ == seq![*splats]);
                } else {
                    if done_loading || !self.fully_loaded {
                        self.view_splats = vec![*splats];
                        assert(self.view_splats@ == seq![*splats]);
                    }
                }
                if done_loading {
                    self.fully_loaded = true;
                }
                if self.live_update {
                    self.last_state = None;
                }
                assert(self@.view_splats == before.shown_splats(
                    *splats,
                    *frame,
                    *total_frames,
                    done_loading,
                ));
            },
            ProcessMessage::ViewAuxiliarySplat { name, splats } => {
                proof {
                    law_named_splats(before.aux, name@, *splats, name@);
                }
                self.put_named(name.clone(), *splats);
            },
            ProcessMessage::TrainStep { splats, .. } => {
                self.view_splats = vec![*splats];
                assert(self.view_splats@ == seq![*splats]);
                if self.live_update {
                    self.last_state = None;
                }
            },
            ProcessMessage::Warning { error } => {
                self.warn(error);
            },
            ProcessMessage::CameraData { focal_point, focus_distance, rotation } => {
                out.push(
                    SceneEffect::SetFocalPoint {
                        focal_point: *focal_point,
                        focus_distance: *focus_distance,
                        rotation: *rotation,
                    },
                );
            },
            ProcessMessage::ObjectMetadata { metadata } => {
                self.object_metadata = metadata.clone();
            },
            ProcessMessage::DoneLoading => {
                let instructions: String = self.object_metadata.clone();
                let keywords = self.keywords();
                out.push(SceneEffect::CreateGuide { instructions, keywords });
                out.push(SceneEffect::SetUiMode { mode: UiMode::FullScreenSplat });
            },
            _ => {},
        }
        assert(self@ =~= before.on_message(*message));
        assert(effects(out@) =~= before.effects_of(*message, training));
        out
    }

    /// Takes in that the process ended with an error.
    pub fn on_error(&mut self, error: &Failure)
        requires
            error.valid(),
        ensures
            final(self)@ == (Scene { err: Some(shown(error.causes())), ..old(self)@ }),
    {
        self.err = Some(ErrorDisplay::new(error));
    }

    /// Takes in the commands that came since the panel was drawn last.
    fn take_commands(&mut self, commands: Vec<SceneCommand>)
        ensures
            final(self)@ == if commands@.len() == 0 {
                old(self)@
            } else {
                let SceneCommand::SelectSplat(name) = commands@.last();
                Scene { selected: text_view(name), last_state: None, ..old(self)@ }
            },
    {
        for command in it: commands
            invariant
                it.seq() == commands@,
                self@ == if it.index() == 0 {
                    old(self)@
                } else {
                    let SceneCommand::SelectSplat(name) = commands@[it.index() - 1];
                    Scene { selected: text_view(name), last_state: None, ..old(self)@ }
                },
        {
            match command {
                SceneCommand::SelectSplat(name) => {
                    self.selected_aux_splat = name;
                    self.last_state = None;
                },
            }
        }
    }

    /// Begins a turn of the panel with the commands that came since the last one, and
    /// says whether the scene is drawn. If not, the error is shown in its place.
    pub fn ui(&mut self, commands: Vec<SceneCommand>) -> (r: bool)
        ensures
            r == (old(self)@.err is None),
            final(self)@ == if commands@.len() == 0 {
                old(self)@
            } else {
                let SceneCommand::SelectSplat(name) = commands@.last();
                Scene { selected: text_view(name), last_state: None, ..old(self)@ }
            },
    {
        self.take_commands(commands);
        self.err.is_none()
    }

    /// Takes in the exports that failed since the panel was drawn last.
    pub fn take_export_errors(&mut self, errors: &Vec<Failure>)
        requires
            forall|i: int| 0 <= i < errors@.len() ==> (#[trigger] errors@[i]).valid(),
        ensures
            final(self)@ == (Scene {
                warnings: old(self)@.warnings + errors@.map_values(|e: Failure| shown(e.causes())),
                ..old(self)@
            }),
    {
        let ghost told = errors@.map_values(|e: Failure| shown(e.causes()));
        let mut i: usize = 0;
        assert(old(self)@.warnings + told.take(0) == old(self)@.warnings);
        while i < errors.len()
            invariant
                i <= errors.len(),
                told == errors@.map_values(|e: Failure| shown(e.causes())),
                forall|i: int| 0 <= i < errors@.len() ==> (#[trigger] errors@[i]).valid(),
                self@ == (Scene {
                    warnings: old(self)@.warnings + told.take(i as int),
                    ..old(self)@
                }),
            decreases errors.len() - i,
        {
            assert(errors@[i as int].valid());
            let ghost before = self@.warnings;
            self.warn(&errors[i]);
            i = i + 1;
            assert(told.take(i as int) == told.take(i - 1).push(told[i - 1]));
            assert(self@.warnings == old(self)@.warnings + told.take(i as int));
        }
        assert(told.take(told.len() as int) == told);
    }

    /// Begins to draw the panel at time `now`. With nothing to show, it shows a hint.
    pub fn begin(&mut self, now: u64, training: bool, mode: UiMode) -> (r: SceneBody)
        ensures
            final(self)@ == (Scene { last_draw: Some(now), ..old(self)@ }),
            r == if !training && old(self)@.view_splats.len() == 0 && mode == UiMode::Default {
                SceneBody::Hint
            } else {
                SceneBody::Splats {
                    elapsed: match old(self)@.last_draw {
                        Some(last) if last <= now => (now - last) as u64,
                        _ => 0,
                    },
                }
            },
    {
        let elapsed: u64 = match self.last_draw {
            Some(last) => if last <= now {
                now - last
            } else {
                0
            },
            None => 0,
        };
        self.last_draw = Some(now);
        if !training && self.view_splats.len() == 0 && mode == UiMode::Default {
            SceneBody::Hint
        } else {
            SceneBody::Splats { elapsed }
        }
    }

    /// The last frame that an animation can be at while its frames are still being
    /// loaded. Once all of them are there, nothing holds it back.
    pub fn last_frame(&self) -> (r: Option<usize>)
        requires
            self@.frame_count > 0 ==> self@.view_splats.len() > 0,
        ensures
            r == if self@.view_splats.len() as int % 0x1_0000_0000 != self@.frame_count {
                Some((self@.view_splats.len() - 1) as usize)
            } else {
                None
            },
    {
        if low_u32(self.view_splats.len()) != self.frame_count {
            Some(self.view_splats.len() - 1)
        } else {
            None
        }
    }

    /// Finds the splats that are drawn at `frame`.
    pub fn pick(&self, frame: usize) -> (r: Option<Drawn>)
        ensures
            r == if frame < self@.view_splats.len() {
                Some(
                    Drawn {
                        splats: self@.view_splats[frame as int],
                        highlighted: match self@.selected {
                            Some(name) => lookup(self@.aux, name),
                            None => None,
                        },
                    },
                )
            } else {
                None
            },
    {
        if frame >= self.view_splats.len() {
            return None;
        }
        let highlighted = match &self.selected_aux_splat {
            Some(name) => match position(&self.view_auxiliary_splats, name.as_str()) {
                Some(i) => {
                    assert(self@.aux[i as int].1 == self.view_auxiliary_splats@[i as int].1);
                    Some(self.view_auxiliary_splats[i].1)
                },
                None => None,
            },
            None => None,
        };
        Some(Drawn { splats: self.view_splats[frame], highlighted })
    }

    /// Takes in what the picture depends on now, and says whether it has changed.
    pub fn refresh(&mut self, state: RenderState) -> (r: bool)
        ensures
            r == match old(self)@.last_state {
                Some(last) => !same_picture(last, state@),
                None => true,
            },
            !r ==> (old(self)@.last_state matches Some(last) && {
                &&& last.size == state.size
                &&& one_number64(last.cam.fov_x, state.cam.fov_x)
                &&& one_number64(last.cam.fov_y, state.cam.fov_y)
                &&& one_number32(last.cam.center_u, state.cam.center_u)
                &&& one_number32(last.cam.center_v, state.cam.center_v)
                &&& one_number32(last.cam.position.x, state.cam.position.x)
                &&& one_number32(last.cam.position.y, state.cam.position.y)
                &&& one_number32(last.cam.position.z, state.cam.position.z)
                &&& one_number32(last.cam.rotation.x, state.cam.rotation.x)
                &&& one_number32(last.cam.rotation.y, state.cam.rotation.y)
                &&& one_number32(last.cam.rotation.z, state.cam.rotation.z)
                &&& one_number32(last.cam.rotation.w, state.cam.rotation.w)
                &&& one_number32(last.frame, state.frame)
                &&& one_number32(last.grid_opacity, state.grid_opacity)
                &&& last.settings.grid_enabled == state.settings.grid_enabled
                &&& last.selected == text_view(state.selected_aux_splat)
            }),
            final(self)@ == if r {
                Scene { last_state: Some(state@), ..old(self)@ }
            } else {
                old(self)@
            },
    {
        proof {
            if let Some(last) = self@.last_state {
                law_unchanged_picture(last, state@);
            }
        }
        let dirty = match &self.last_state {
            Some(last) => !last.same(&state),
            None => true,
        };
        if dirty {
            self.last_state = Some(state);
        }
        dirty
    }

    /// Whether the button that plays and stops an animation is shown: all its frames are
    /// there.
    pub fn shows_play_pause(&self) -> (r: bool)
        ensures
            r == (self@.view_splats.len() > 1 && self@.view_splats.len() as int % 0x1_0000_0000
                == self@.frame_count),
    {
        self.view_splats.len() > 1 && low_u32(self.view_splats.len()) == self.frame_count
    }

    /// Takes in that the button was pressed, and says whether the animation stands now.
    pub fn toggle_paused(&mut self) -> (r: bool)
        ensures
            r == !old(self)@.paused,
            final(self)@ == (Scene { paused: r, ..old(self)@ }),
    {
        self.paused = !self.paused;
        self.paused
    }

    /// Takes in that the box for following the process was clicked.
    pub fn toggle_live_update(&mut self)
        ensures
            final(self)@ == (Scene { live_update: !old(self)@.live_update, ..old(self)@ }),
    {
        self.live_update = !self.live_update;
    }

    /// Takes in which auxiliary splat was chosen from the list.
    pub fn select(&mut self, name: Option<String>)
        ensures
            final(self)@ == (Scene { selected: text_view(name), ..old(self)@ }),
    {
        self.selected_aux_splat = name;
    }

    /// Takes in that the warnings were read.
    pub fn clear_warnings(&mut self)
        ensures
            final(self)@ == (Scene { warnings: Seq::empty(), ..old(self)@ }),
    {
        self.warnings.clear();
        assert(self@.warnings == Seq::<Shown>::empty());
    }

    /// Takes in whether a guide could be made; one that is there stays if not.
    pub fn guide_created(&mut self, created: bool)
        ensures
            final(self)@ == (Scene { has_guide: old(self)@.has_guide || created, ..old(self)@ }),
    {
        if created {
            self.has_guide = true;
        }
    }

    /// Takes in that a recording has begun.
    pub fn recording_started(&mut self)
        ensures
            final(self)@ == (Scene { recording: true, ..old(self)@ }),
    {
        self.recording = true;
    }

    /// Ends a recording, and says whether there was one to end.
    pub fn stop_recording(&mut self) -> (r: bool)
        ensures
            r == old(self)@.recording,
            final(self)@ == (Scene { recording: false, ..old(self)@ }),
    {
        let signal = self.recording;
        self.recording = false;
        signal
    }
}

/// The name that is offered for a file with exported splats.
pub fn export_file_name() -> (r: String)
    ensures
        r@ == "export.ply"@,
{
    "export.ply".to_owned()
}

/// Says of an error that it came up while splats were exported.
pub fn explain_export_failure(error: Failure) -> (r: Failure)
    ensures
        r.valid(),
        r.causes() == seq!["Failed to export splat"@] + error.causes(),
{
    error.context("Failed to export splat".to_owned())
}

/// Whether the scene takes input and shows its buttons.
pub fn is_interactive(mode: UiMode) -> (r: bool)
    ensures
        r == (mode is Default || mode is FullScreenSplat),
{
    matches!(mode, UiMode::Default | UiMode::FullScreenSplat)
}

/// Whether a new picture is drawn.
pub fn draws_picture(width: u32, height: u32, dirty: bool) -> (r: bool)
    ensures
        r == (dirty && width > MIN_PIXELS && height > MIN_PIXELS),
{
    width > MIN_PIXELS && height > MIN_PIXELS && dirty
}

/// Whether a checkerboard is drawn behind the scene: a training view is selected that is
/// meant to be transparent. Everything else stands on black.
pub fn draws_checkerboard(view: Option<AlphaMode>, texture_has_alpha: Option<bool>) -> (r: bool)
    ensures
        r == (view == Some(AlphaMode::Transparent) && texture_has_alpha == Some(true)),
{
    match (view, texture_has_alpha) {
        (Some(AlphaMode::Transparent), Some(has_alpha)) => has_alpha,
        _ => false,
    }
}

/// Splats that are still being loaded never take the place of fully loaded ones, unless
/// they are an animation.
pub proof fn law_loaded_splats_stay(
    scene: Scene,
    up_axis: Option<Vec3Bits>,
    splats: SplatId,
    frame: u32,
    total_frames: u32,
    progress: F32Bits,
)
    requires
        scene.fully_loaded,
        total_frames <= 1,
        !progress.reaches_one(),
    ensures
        scene.on_message(
            ProcessMessage::ViewSplats { up_axis, splats, frame, total_frames, progress },
        ).view_splats == scene.view_splats,
{
}

/// While the panel does not follow the process, no message of it changes the picture
/// that is due, except the beginning of another training run.
pub proof fn law_frozen_picture(scene: Scene, message: ProcessMessage)
    requires
        !scene.live_update,
        !(message matches ProcessMessage::StartLoading { training: true }),
    ensures
        scene.on_message(message).last_state == scene.last_state,
{
}

/// An animation whose frames come in order shows all frames that came.
pub proof fn law_frames_in_order(scene: Scene, frames: Seq<SplatId>, progress: F32Bits)
    requires
        1 < frames.len() <= u32::MAX,
    ensures
        after_frames(scene, frames, frames.len() as int, progress).view_splats == frames,
        after_frames(scene, frames, frames.len() as int, progress).frame_count == frames.len(),
{
    lemma_frames_in_order(scene, frames, frames.len() as int, progress);
    assert(frames.take(frames.len() as int) == frames);
}

/// The panel after the first `n` frames of an animation.
pub open spec fn after_frames(
    scene: Scene,
    frames: Seq<SplatId>,
    n: int,
    progress: F32Bits,
) -> Scene
    decreases n,
{
    if n <= 0 {
        scene
    } else {
        after_frames(scene, frames, n - 1, progress).on_message(
            ProcessMessage::ViewSplats {
                up_axis: None,
                splats: frames[n - 1],
                frame: (n - 1) as u32,
                total_frames: frames.len() as u32,
                progress,
            },
        )
    }
}

proof fn lemma_frames_in_order(scene: Scene, frames: Seq<SplatId>, n: int, progress: F32Bits)
    requires
        1 < frames.len() <= u32::MAX,
        1 <= n <= frames.len(),
    ensures
        after_frames(scene, frames, n, progress).view_splats == frames.take(n),
        after_frames(scene, frames, n, progress).frame_count == frames.len(),
    decreases n,
{
    if n > 1 {
        lemma_frames_in_order(scene, frames, n - 1, progress);
        assert(resized(frames.take(n - 1), n, frames[n - 1]) == frames.take(n));
    } else {
        assert(frames.take(1) == seq![frames[0]]);
    }
}

/// Where no name is listed twice, splats are found by their name: those of the place that
/// has it, and none exactly if no place has it.
pub proof fn law_found_by_name(aux: Seq<(Seq<char>, SplatId)>, name: Seq<char>, i: int)
    ensures
        names_differ(aux) && 0 <= i < aux.len() && aux[i].0 == name ==> lookup(aux, name) == Some(
            aux[i].1,
        ),
        lookup(aux, name) is None <==> forall|k: int|
            0 <= k < aux.len() ==> (#[trigger] aux[k]).0 != name,
        find(aux, name) matches Some(k) ==> 0 <= k < aux.len() && aux[k].0 == name,
{
    lemma_find(aux, name);
}

/// Splats that are put under a name keep the place that the name had, or come behind all
/// others; nothing else moves.
pub proof fn law_places_stay(
    aux: Seq<(Seq<char>, SplatId)>,
    name: Seq<char>,
    splats: SplatId,
    i: int,
)
    ensures
        ({
            let after = with_named(aux, name, splats);
            let listed = exists|k: int| 0 <= k < aux.len() && (#[trigger] aux[k]).0 == name;
            &&& listed ==> after.len() == aux.len()
            &&& !listed ==> after.len() == aux.len() + 1 && after[aux.len() as int] == (
                name,
                splats,
            )
            &&& 0 <= i < aux.len() ==> after[i].0 == aux[i].0
            &&& 0 <= i < aux.len() && aux[i].0 != name ==> after[i] == aux[i]
        }),
{
    lemma_find(aux, name);
}

} // verus!
