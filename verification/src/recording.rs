//! Asking the guide by voice: from the microphone to the answer that is played.

use crate::audio::{SPEECH_RATE, TTS_RATE};
use vstd::prelude::*;
use vstd::string::*;

verus! {

/// What the voice button stands for.
#[derive(Clone, Copy, PartialEq, Eq, Structural, Debug)]
pub enum AudioState {
    Idle,
    Recording,
    Thinking,
    Playing,
}

impl Default for AudioState {
    fn default() -> (r: Self)
        ensures
            r == AudioState::Idle,
    {
        AudioState::Idle
    }
}

/// What is asked of the scene from elsewhere.
#[derive(Debug)]
pub enum SceneCommand {
    /// Show one of the auxiliary splats on top of the others, or none.
    SelectSplat(Option<String>),
}

/// A color with full opacity.
#[derive(Clone, Copy, PartialEq, Eq, Structural, Debug)]
pub struct Rgb {
    pub r: u8,
    pub g: u8,
    pub b: u8,
}

/// How the voice button looks.
#[derive(Debug)]
pub struct VoiceButton {
    pub text: String,
    pub fill: Rgb,
    pub enabled: bool,
}

/// The label of the voice button.
pub open spec fn voice_label(state: AudioState) -> Seq<char> {
    match state {
        AudioState::Idle => "✨ Ask Gemini"@,
        AudioState::Recording => "⏹ Stop Recording"@,
        AudioState::Thinking => "🤔 Thinking..."@,
        AudioState::Playing => "▶️ Playing..."@,
    }
}

/// Decides how the voice button looks. It can be pressed while nothing goes on, and while
/// a question is recorded.
pub fn voice_button(state: AudioState) -> (r: VoiceButton)
    ensures
        r.text@ == voice_label(state),
        r.enabled == (state is Idle || state is Recording),
        r.fill == match state {
            AudioState::Idle => Rgb { r: 60, g: 120, b: 200 },
            AudioState::Recording => Rgb { r: 200, g: 60, b: 60 },
            AudioState::Thinking => Rgb { r: 120, g: 120, b: 120 },
            AudioState::Playing => Rgb { r: 60, g: 200, b: 120 },
        },
{
    match state {
        AudioState::Idle => VoiceButton {
            text: "✨ Ask Gemini".to_owned(),
            fill: Rgb { r: 60, g: 120, b: 200 },
            enabled: true,
        },
        AudioState::Recording => VoiceButton {
            text: "⏹ Stop Recording".to_owned(),
            fill: Rgb { r: 200, g: 60, b: 60 },
            enabled: true,
        },
        AudioState::Thinking => VoiceButton {
            text: "🤔 Thinking...".to_owned(),
            fill: Rgb { r: 120, g: 120, b: 120 },
            enabled: false,
        },
        AudioState::Playing => VoiceButton {
            text: "▶️ Playing...".to_owned(),
            fill: Rgb { r: 60, g: 200, b: 120 },
            enabled: false,
        },
    }
}

/// What pressing the voice button leads to.
#[derive(Clone, Copy, PartialEq, Eq, Structural, Debug)]
pub enum VoicePress {
    Start,
    Stop,
    Nothing,
}

/// Takes in that the voice button was pressed.
pub fn press_voice_button(state: &mut AudioState) -> (r: VoicePress)
    ensures
        match *old(state) {
            AudioState::Idle => *final(state) == AudioState::Recording && r == VoicePress::Start,
            AudioState::Recording => *final(state) == AudioState::Thinking && r
                == VoicePress::Stop,
            _ => *final(state) == *old(state) && r == VoicePress::Nothing,
        },
{
    match *state {
        AudioState::Idle => {
            *state = AudioState::Recording;
            VoicePress::Start
        },
        AudioState::Recording => {
            *state = AudioState::Thinking;
            VoicePress::Stop
        },
        _ => VoicePress::Nothing,
    }
}

/// One thing that is done to ask by voice.
#[derive(Debug)]
pub enum VoiceAction {
    /// Look for a microphone. Answered by `Done` or `Failed`.
    FindInput,
    /// Ask it for its settings. Answered by `Input` or `Failed`.
    ReadInputConfig,
    /// Record until told to stop. Answered by `Recorded`.
    Record,
    /// Bring the samples to this rate and make a WAV file of them.
    Encode { from_rate: u32, to_rate: u32 },
    /// Change what the voice button stands for.
    SetState { state: AudioState },
    /// Send the WAV file to the guide. Answered by `Answered` or `Failed`.
    Ask,
    /// Hand a command to the scene, and have it drawn again.
    Send { command: SceneCommand },
    /// Look for a speaker. Answered by `Done` or `Failed`.
    FindOutput,
    /// Ask it for its settings. Answered by `Output` or `Failed`.
    ReadOutputConfig,
    /// Bring the answer to this rate and play it to its end. Answered by `Done`, or by
    /// `Failed` if playing could not begin.
    Play { from_rate: u32, to_rate: u32, channels: u16 },
    /// Nothing is left to do.
    Finish,
}

/// What came of it.
#[derive(Debug)]
pub enum VoiceEvent {
    Done,
    Failed,
    Input { sample_rate: u32, is_f32: bool },
    Recorded { samples: usize },
    Answered { keywords: Vec<String>, audio_bytes: usize },
    Output { sample_rate: u32, channels: u16 },
}

/// Which answer is waited for.
#[derive(Clone, Copy, PartialEq, Eq, Structural, Debug)]
pub enum VoiceWait {
    Nothing,
    InputDevice,
    InputConfig,
    Samples,
    Answer,
    OutputDevice,
    OutputConfig,
    Playback,
    Over,
}

/// What `action` waits for.
pub open spec fn waits(action: VoiceAction) -> VoiceWait {
    match action {
        VoiceAction::FindInput => VoiceWait::InputDevice,
        VoiceAction::ReadInputConfig => VoiceWait::InputConfig,
        VoiceAction::Record => VoiceWait::Samples,
        VoiceAction::Ask => VoiceWait::Answer,
        VoiceAction::FindOutput => VoiceWait::OutputDevice,
        VoiceAction::ReadOutputConfig => VoiceWait::OutputConfig,
        VoiceAction::Play { .. } => VoiceWait::Playback,
        VoiceAction::Finish => VoiceWait::Over,
        _ => VoiceWait::Nothing,
    }
}

/// Whether `event` can be what `wait` waits for.
pub open spec fn settles(wait: VoiceWait, event: VoiceEvent) -> bool {
    match wait {
        VoiceWait::Nothing => event is Done,
        VoiceWait::InputDevice | VoiceWait::OutputDevice | VoiceWait::Playback => event is Done
            || event is Failed,
        VoiceWait::InputConfig => event is Input || event is Failed,
        VoiceWait::Samples => event is Recorded,
        VoiceWait::Answer => event is Answered || event is Failed,
        VoiceWait::OutputConfig => event is Output || event is Failed,
        VoiceWait::Over => false,
    }
}

/// Where asking by voice stands.
#[verifier::ext_equal]
pub struct VoiceView {
    pub source_rate: u32,
    pub wait: VoiceWait,
    pub queue: Seq<VoiceAction>,
}

/// The way out: the button can be pressed again.
pub open spec fn wind_up() -> Seq<VoiceAction> {
    seq![VoiceAction::SetState { state: AudioState::Idle }, VoiceAction::Finish]
}

/// What follows an answer. The first keyword selects what is shown; an answer without
/// sound is not played.
pub open spec fn on_answer(keywords: Seq<String>, audio_bytes: int) -> Seq<VoiceAction> {
    let select = if keywords.len() > 0 {
        seq![VoiceAction::Send { command: SceneCommand::SelectSplat(Some(keywords[0])) }]
    } else {
        Seq::empty()
    };
    let play = if audio_bytes / 2 > 0 {
        seq![VoiceAction::FindOutput]
    } else {
        wind_up()
    };
    select + seq![VoiceAction::SetState { state: AudioState::Playing }] + play
}

impl VoiceView {
    /// What is known and to do after `event`.
    pub open spec fn absorb(self, event: VoiceEvent) -> VoiceView {
        let source_rate = match (self.wait, event) {
            (VoiceWait::InputConfig, VoiceEvent::Input { sample_rate, .. }) => sample_rate,
            _ => self.source_rate,
        };
        let queue = match (self.wait, event) {
            (VoiceWait::InputDevice, VoiceEvent::Done) => seq![VoiceAction::ReadInputConfig],
            (VoiceWait::InputConfig, VoiceEvent::Input { is_f32, .. }) => if is_f32 {
                seq![VoiceAction::Record]
            } else {
                seq![VoiceAction::Finish]
            },
            (VoiceWait::Samples, VoiceEvent::Recorded { samples }) => if samples > 0 {
                seq![
                    VoiceAction::Encode { from_rate: self.source_rate, to_rate: SPEECH_RATE },
                    VoiceAction::SetState { state: AudioState::Thinking },
                    VoiceAction::Ask,
                ]
            } else {
                wind_up()
            },
            (VoiceWait::Answer, VoiceEvent::Answered { keywords, audio_bytes }) => on_answer(
                keywords@,
                audio_bytes as int,
            ),
            (VoiceWait::OutputDevice, VoiceEvent::Done) => seq![VoiceAction::ReadOutputConfig],
            (VoiceWait::OutputConfig, VoiceEvent::Output { sample_rate, channels }) => seq![
                VoiceAction::Play { from_rate: TTS_RATE, to_rate: sample_rate, channels },
            ],
            (VoiceWait::Playback, VoiceEvent::Done) => seq![
                VoiceAction::Send { command: SceneCommand::SelectSplat(None) },
            ] + wind_up(),
            (_, VoiceEvent::Failed) => wind_up(),
            _ => self.queue,
        };
        VoiceView { source_rate, wait: self.wait, queue }
    }

    /// Nothing was done yet.
    pub open spec fn start() -> VoiceView {
        VoiceView {
            source_rate: 0,
            wait: VoiceWait::Nothing,
            queue: seq![VoiceAction::FindInput],
        }
    }

    /// There is always something to do, or something to wait for.
    pub open spec fn valid(self) -> bool {
        if self.queue.len() == 0 {
            !(self.wait is Nothing)
        } else {
            !(waits(self.queue.last()) is Nothing)
        }
    }

    pub open spec fn next_action(self, event: VoiceEvent) -> VoiceAction {
        self.absorb(event).queue[0]
    }

    pub open spec fn next_state(self, event: VoiceEvent) -> VoiceView {
        let s = self.absorb(event);
        VoiceView { wait: waits(s.queue[0]), queue: s.queue.drop_first(), ..s }
    }
}

/// A question asked by voice.
pub struct VoiceQuestion {
    source_rate: u32,
    wait: VoiceWait,
    queue: Vec<VoiceAction>,
}

impl View for VoiceQuestion {
    type V = VoiceView;

    closed spec fn view(&self) -> VoiceView {
        VoiceView { source_rate: self.source_rate, wait: self.wait, queue: self.queue@ }
    }
}

fn winding_up() -> (r: Vec<VoiceAction>)
    ensures
        r@ == wind_up(),
{
    let out = vec![VoiceAction::SetState { state: AudioState::Idle }, VoiceAction::Finish];
    assert(out@ == wind_up());
    out
}

fn answering(keywords: Vec<String>, audio_bytes: usize) -> (r: Vec<VoiceAction>)
    ensures
        r@ == on_answer(keywords@, audio_bytes as int),
{
    let mut out: Vec<VoiceAction> = Vec::new();
    if keywords.len() > 0 {
        let first: String = keywords[0].clone();
        out.push(VoiceAction::Send { command: SceneCommand::SelectSplat(Some(first)) });
    }
    out.push(VoiceAction::SetState { state: AudioState::Playing });
    if audio_bytes / 2 > 0 {
        out.push(VoiceAction::FindOutput);
    } else {
        out.push(VoiceAction::SetState { state: AudioState::Idle });
        out.push(VoiceAction::Finish);
    }
    assert(out@ == on_answer(keywords@, audio_bytes as int));
    out
}

fn waited_for(action: &VoiceAction) -> (r: VoiceWait)
    ensures
        r == waits(*action),
{
    match action {
        VoiceAction::FindInput => VoiceWait::InputDevice,
        VoiceAction::ReadInputConfig => VoiceWait::InputConfig,
        VoiceAction::Record => VoiceWait::Samples,
        VoiceAction::Ask => VoiceWait::Answer,
        VoiceAction::FindOutput => VoiceWait::OutputDevice,
        VoiceAction::ReadOutputConfig => VoiceWait::OutputConfig,
        VoiceAction::Play { .. } => VoiceWait::Playback,
        VoiceAction::Finish => VoiceWait::Over,
        _ => VoiceWait::Nothing,
    }
}

/// Begins to ask by voice, if there is a guide to ask.
pub fn start_recording(has_client: bool) -> (r: Option<VoiceQuestion>)
    ensures
        has_client ==> (r matches Some(q) && q@ == VoiceView::start() && q@.valid()),
        !has_client ==> r is None,
{
    if !has_client {
        return None;
    }
    let queue = vec![VoiceAction::FindInput];
    assert(queue@ == seq![VoiceAction::FindInput]);
    Some(VoiceQuestion { source_rate: 0, wait: VoiceWait::Nothing, queue })
}

impl VoiceQuestion {
    /// Whether `event` can be what is waited for.
    pub fn accepts(&self, event: &VoiceEvent) -> (r: bool)
        ensures
            r == settles(self@.wait, *event),
    {
        match self.wait {
            VoiceWait::Nothing => matches!(event, VoiceEvent::Done),
            VoiceWait::InputDevice | VoiceWait::OutputDevice | VoiceWait::Playback => matches!(
                event,
                VoiceEvent::Done | VoiceEvent::Failed
            ),
            VoiceWait::InputConfig => matches!(
                event,
                VoiceEvent::Input { .. } | VoiceEvent::Failed
            ),
            VoiceWait::Samples => matches!(event, VoiceEvent::Recorded { .. }),
            VoiceWait::Answer => matches!(
                event,
                VoiceEvent::Answered { .. } | VoiceEvent::Failed
            ),
            VoiceWait::OutputConfig => matches!(
                event,
                VoiceEvent::Output { .. } | VoiceEvent::Failed
            ),
            VoiceWait::Over => false,
        }
    }

    /// Takes in what came of the last action, and hands out the next one.
    pub fn next(&mut self, event: VoiceEvent) -> (r: VoiceAction)
        requires
            old(self)@.valid(),
            settles(old(self)@.wait, event),
        ensures
            r == old(self)@.next_action(event),
            final(self)@ == old(self)@.next_state(event),
            final(self)@.valid(),
    {
        let ghost before = self@;
        match (self.wait, event) {
            (VoiceWait::InputDevice, VoiceEvent::Done) => {
                self.queue = vec![VoiceAction::ReadInputConfig];
            },
            (VoiceWait::InputConfig, VoiceEvent::Input { sample_rate, is_f32 }) => {
                self.source_rate = sample_rate;
                self.queue = if is_f32 {
                    vec![VoiceAction::Record]
                } else {
                    vec![VoiceAction::Finish]
                };
            },
            (VoiceWait::Samples, VoiceEvent::Recorded { samples }) => {
                self.queue = if samples > 0 {
                    vec![
                        VoiceAction::Encode { from_rate: self.source_rate, to_rate: SPEECH_RATE },
                        VoiceAction::SetState { state: AudioState::Thinking },
                        VoiceAction::Ask,
                    ]
                } else {
                    winding_up()
                };
            },
            (VoiceWait::Answer, VoiceEvent::Answered { keywords, audio_bytes }) => {
                self.queue = answering(keywords, audio_bytes);
            },
            (VoiceWait::OutputDevice, VoiceEvent::Done) => {
                self.queue = vec![VoiceAction::ReadOutputConfig];
            },
            (VoiceWait::OutputConfig, VoiceEvent::Output { sample_rate, channels }) => {
                self.queue = vec![
                    VoiceAction::Play { from_rate: TTS_RATE, to_rate: sample_rate, channels },
                ];
            },
            (VoiceWait::Playback, VoiceEvent::Done) => {
                self.queue = vec![
                    VoiceAction::Send { command: SceneCommand::SelectSplat(None) },
                    VoiceAction::SetState { state: AudioState::Idle },
                    VoiceAction::Finish,
                ];
            },
            (_, VoiceEvent::Failed) => {
                self.queue = winding_up();
            },
            _ => {},
        }
        assert(self@.queue == before.absorb(event).queue);
        assert(self@ == before.absorb(event));
        assert(self@.queue.len() > 0 && !(waits(self@.queue.last()) is Nothing));
        let ghost all = self@.queue;
        let action = self.queue.remove(0);
        self.wait = waited_for(&action);
        assert(self@.queue == all.drop_first());
        assert(self@.queue.len() > 0 ==> self@.queue.last() == all.last());
        action
    }
}

/// The last state that `actions` set, or `other` if they set none.
pub open spec fn last_set(actions: Seq<VoiceAction>, other: AudioState) -> AudioState
    decreases actions.len(),
{
    if actions.len() == 0 {
        other
    } else {
        match actions.last() {
            VoiceAction::SetState { state } => state,
            _ => last_set(actions.drop_last(), other),
        }
    }
}

/// What a question does in answer to an event ends in one of three ways: by waiting for
/// something, with the button ready to be pressed again, or, for a microphone that gives
/// samples of another kind than expected, with the button as it was.
pub proof fn law_ends_idle(s: VoiceView, event: VoiceEvent, button: AudioState)
    requires
        settles(s.wait, event),
        !(s.wait is Nothing),
    ensures
        ({
            let queue = s.absorb(event).queue;
            &&& queue.len() > 0
            &&& queue.last() is Finish ==> last_set(queue, button) == (if event
                matches VoiceEvent::Input { is_f32: false, .. } {
                button
            } else {
                AudioState::Idle
            })
            &&& !(queue.last() is Finish) ==> !(waits(queue.last()) is Nothing)
        }),
{
    let queue = s.absorb(event).queue;
    reveal_with_fuel(last_set, 3);
    if queue.last() is Finish {
        assert(queue.drop_last().len() == queue.len() - 1);
        if queue.len() >= 2 {
            assert(queue.drop_last().last() == queue[queue.len() - 2]);
            assert(queue[queue.len() - 2] == (VoiceAction::SetState { state: AudioState::Idle }));
        }
    }
}

/// A splat that an answer selected is shown no longer once the answer was played.
pub proof fn law_selection_is_undone(s: VoiceView)
    requires
        s.wait == VoiceWait::Playback,
    ensures
        s.next_action(VoiceEvent::Done) == (VoiceAction::Send {
            command: SceneCommand::SelectSplat(None),
        }),
        s.next_state(VoiceEvent::Done).queue == wind_up(),
{
    assert(s.next_state(VoiceEvent::Done).queue == wind_up());
}

/// Which answers an action can get.
pub proof fn law_voice_answers(action: VoiceAction, event: VoiceEvent)
    ensures
        settles(waits(action), event) <==> match action {
            VoiceAction::FindInput => event is Done || event is Failed,
            VoiceAction::ReadInputConfig => event is Input || event is Failed,
            VoiceAction::Record => event is Recorded,
            VoiceAction::Ask => event is Answered || event is Failed,
            VoiceAction::FindOutput => event is Done || event is Failed,
            VoiceAction::ReadOutputConfig => event is Output || event is Failed,
            VoiceAction::Play { .. } => event is Done || event is Failed,
            VoiceAction::Finish => false,
            _ => event is Done,
        },
{
}

/// How a question is asked: what was recorded is brought from the rate of the microphone
/// to 16000 samples a second, which is what the guide hears. Nothing is asked if nothing
/// was recorded.
pub proof fn law_question_is_asked(s: VoiceView, rate: u32, is_f32: bool, samples: usize)
    ensures
        s.wait is InputDevice ==> s.next_action(VoiceEvent::Done) is ReadInputConfig,
        s.wait is InputConfig ==> {
            let input = VoiceEvent::Input { sample_rate: rate, is_f32 };
            let after = s.next_state(input);
            &&& is_f32 ==> s.next_action(input) is Record && after.source_rate == rate
            &&& !is_f32 ==> s.next_action(input) is Finish
        },
        s.wait is Samples ==> {
            let recorded = VoiceEvent::Recorded { samples };
            let after = s.next_state(recorded);
            &&& samples > 0 ==> {
                &&& s.next_action(recorded) == (VoiceAction::Encode {
                    from_rate: s.source_rate,
                    to_rate: 16000,
                })
                &&& after.queue.len() == 2
                &&& after.queue[0] == (VoiceAction::SetState { state: AudioState::Thinking })
                &&& after.queue[1] is Ask
            }
            &&& samples == 0 ==> {
                &&& s.next_action(recorded) == (VoiceAction::SetState { state: AudioState::Idle })
                &&& after.queue.len() == 1
                &&& after.queue[0] is Finish
            }
        },
        !(s.wait is InputConfig) ==> s.next_state(VoiceEvent::Done).source_rate == s.source_rate,
        VoiceView::start().queue.len() == 1,
        VoiceView::start().queue[0] is FindInput,
{
}

/// How an answer is taken: the first keyword selects what is shown, and the sound, if it
/// has at least one sample of two bytes, is played from 24000 samples a second at the rate
/// and with the channels of the speaker.
pub proof fn law_answer_is_played(
    s: VoiceView,
    keywords: Vec<String>,
    audio_bytes: usize,
    rate: u32,
    channels: u16,
)
    ensures
        s.wait is Answer ==> {
            let answered = VoiceEvent::Answered { keywords, audio_bytes };
            let all = s.absorb(answered).queue;
            let k = if keywords@.len() > 0 {
                1int
            } else {
                0
            };
            &&& keywords@.len() > 0 ==> all[0] == (VoiceAction::Send {
                command: SceneCommand::SelectSplat(Some(keywords@[0])),
            })
            &&& all[k] == (VoiceAction::SetState { state: AudioState::Playing })
            &&& audio_bytes >= 2 ==> all.len() == k + 2 && all[k + 1] is FindOutput
            &&& audio_bytes < 2 ==> all.len() == k + 3 && all[k + 1] == (VoiceAction::SetState {
                state: AudioState::Idle,
            }) && all[k + 2] is Finish
        },
        s.wait is OutputDevice ==> s.next_action(VoiceEvent::Done) is ReadOutputConfig,
        s.wait is OutputConfig ==> s.next_action(
            VoiceEvent::Output { sample_rate: rate, channels },
        ) == (VoiceAction::Play { from_rate: 24000, to_rate: rate, channels }),
{
}

/// Whatever fails, the button can be pressed again, and nothing else is done.
pub proof fn law_failure_winds_up(s: VoiceView)
    requires
        settles(s.wait, VoiceEvent::Failed),
    ensures
        s.next_action(VoiceEvent::Failed) == (VoiceAction::SetState { state: AudioState::Idle }),
        s.next_state(VoiceEvent::Failed).queue.len() == 1,
        s.next_state(VoiceEvent::Failed).queue[0] is Finish,
{
}

/// What is to do is done in order, one thing after the other, and the rate of the microphone
/// is the one that it last gave.
pub proof fn law_voice_goes_on(s: VoiceView, event: VoiceEvent)
    requires
        settles(s.wait, event),
        s.valid(),
    ensures
        s.wait is Nothing ==> s.next_action(event) == s.queue[0] && s.next_state(event).queue
            == s.queue.drop_first(),
        event matches VoiceEvent::Input { sample_rate, .. } ==> s.next_state(event).source_rate
            == sample_rate,
        !(event is Input) ==> s.next_state(event).source_rate == s.source_rate,
        s.next_action(event) is Finish ==> s.next_state(event).wait is Over,
        s.next_state(event).queue.len() == 0 ==> !(s.next_state(event).wait is Nothing),
{
    let queue = s.absorb(event).queue;
    if queue.len() == 1 {
        assert(queue.last() == queue[0]);
    }
}

} // verus!
