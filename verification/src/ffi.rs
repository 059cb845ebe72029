//! Training for programs in other languages.

use crate::config::{LoadConfig, ProcessConfig, TrainConfig, TrainStreamConfig};
use crate::failure::Failure;
use crate::message::{ProcessMessage, TrainMessage};
use crate::num::low_u32;
use vstd::prelude::*;
use vstd::string::*;

verus! {

/// How training ended.
#[derive(Clone, Copy, PartialEq, Eq, Structural, Debug)]
pub enum TrainExitCode {
    Success,
    Error,
}

impl TrainExitCode {
    /// The number that the caller gets.
    pub fn code(&self) -> (r: u32)
        ensures
            r == match self {
                TrainExitCode::Success => 0u32,
                TrainExitCode::Error => 1u32,
            },
    {
        match self {
            TrainExitCode::Success => 0,
            TrainExitCode::Error => 1,
        }
    }
}

/// What the caller hears while training runs.
#[derive(Clone, Copy, PartialEq, Eq, Structural, Debug)]
pub enum ProgressMessage {
    NewProcess,
    Training { iter: u32 },
    DoneTraining,
    /// There is a picture; its bytes are those of the message that it came with.
    VisualizationUpdated { len: u32, width: u32, height: u32 },
}

/// What the caller hears of `message`, if anything.
pub open spec fn progress(message: ProcessMessage) -> Option<ProgressMessage> {
    match message {
        ProcessMessage::NewProcess => Some(ProgressMessage::NewProcess),
        ProcessMessage::TrainMessage(TrainMessage::TrainStep { iter, .. }) => Some(
            ProgressMessage::Training { iter },
        ),
        ProcessMessage::TrainMessage(TrainMessage::DoneTraining) => Some(
            ProgressMessage::DoneTraining,
        ),
        ProcessMessage::VisualizationUpdated { image, width, height } => Some(
            ProgressMessage::VisualizationUpdated {
                len: (image@.len() as int % 0x1_0000_0000) as u32,
                width,
                height,
            },
        ),
        _ => None,
    }
}

impl ProgressMessage {
    /// What the caller hears of a message; an error for those that it does not hear of.
    pub fn try_from(value: &ProcessMessage) -> (r: Result<Self, ()>)
        ensures
            r == match progress(*value) {
                Some(p) => Ok::<ProgressMessage, ()>(p),
                None => Err::<ProgressMessage, ()>(()),
            },
    {
        match value {
            ProcessMessage::NewProcess => Ok(ProgressMessage::NewProcess),
            ProcessMessage::TrainMessage(TrainMessage::TrainStep { iter, .. }) => Ok(
                ProgressMessage::Training { iter: *iter },
            ),
            ProcessMessage::TrainMessage(TrainMessage::DoneTraining) => Ok(
                ProgressMessage::DoneTraining,
            ),
            ProcessMessage::VisualizationUpdated { image, width, height } => Ok(
                ProgressMessage::VisualizationUpdated {
                    len: low_u32(image.len()),
                    width: *width,
                    height: *height,
                },
            ),
            _ => Err(()),
        }
    }
}

/// What the caller can set.
#[derive(Debug)]
pub struct TrainOptions {
    pub total_steps: u32,
    pub refine_every: u32,
    pub max_resolution: u32,
    pub export_every: u32,
    /// Where to write to; the usual place, if it is not given.
    pub output_path: Option<String>,
}

impl TrainOptions {
    /// The settings of a run: what the caller set, and `defaults` for the rest.
    pub fn into_train_stream_config(self, defaults: TrainStreamConfig) -> (r: TrainStreamConfig)
        ensures
            r.train_config == (TrainConfig {
                total_steps: self.total_steps,
                refine_every: self.refine_every,
                ..defaults.train_config
            }),
            r.model_config == defaults.model_config,
            r.load_config == (LoadConfig {
                max_resolution: self.max_resolution,
                ..defaults.load_config
            }),
            r.process_config == (ProcessConfig {
                export_path: match self.output_path {
                    Some(path) => path,
                    None => defaults.process_config.export_path,
                },
                export_every: self.export_every,
                eval_save_to_disk: true,
                ..defaults.process_config
            }),
            r.rerun_config == defaults.rerun_config,
            r.has_disk == defaults.has_disk,
    {
        let mut out = defaults;
        if let Some(path) = self.output_path {
            out.process_config.export_path = path;
        }
        out.train_config.total_steps = self.total_steps;
        out.train_config.refine_every = self.refine_every;
        out.load_config.max_resolution = self.max_resolution;
        out.process_config.export_every = self.export_every;
        out.process_config.eval_save_to_disk = true;
        out
    }
}

/// What is done for the caller.
#[derive(Debug)]
pub enum TrainingStep {
    /// Start a process on this dataset with these settings.
    Start { dataset: String, options: TrainOptions },
    /// Return.
    Exit { code: TrainExitCode },
}

/// Begins what the caller asked for, if everything that it takes is there.
pub fn run_training_logic(dataset: Option<String>, options: Option<TrainOptions>) -> (r:
    TrainingStep)
    ensures
        match (dataset, options) {
            (Some(d), Some(o)) => r == (TrainingStep::Start { dataset: d, options: o }),
            _ => r == (TrainingStep::Exit { code: TrainExitCode::Error }),
        },
{
    match (dataset, options) {
        (Some(dataset), Some(options)) => TrainingStep::Start { dataset, options },
        _ => TrainingStep::Exit { code: TrainExitCode::Error },
    }
}

/// What follows when the process said something, or nothing any more.
#[derive(Clone, Copy, PartialEq, Eq, Structural, Debug)]
pub enum ProgressStep {
    /// Tell the caller, and wait for the next message.
    Report { message: ProgressMessage },
    /// Wait for the next message.
    Continue,
    /// Return.
    Exit { code: TrainExitCode },
}

/// What follows when the process said something; nothing means that it is over.
pub open spec fn progress_step(message: Option<Result<ProcessMessage, Failure>>) -> ProgressStep {
    match message {
        None => ProgressStep::Exit { code: TrainExitCode::Success },
        Some(Err(_)) => ProgressStep::Exit { code: TrainExitCode::Error },
        Some(Ok(m)) => match progress(m) {
            Some(message) => ProgressStep::Report { message },
            None => ProgressStep::Continue,
        },
    }
}

/// Decides what follows when the process said something; nothing means that it is over.
pub fn on_progress(message: Option<&Result<ProcessMessage, Failure>>) -> (r: ProgressStep)
    ensures
        r == progress_step(
            match message {
                Some(m) => Some(*m),
                None => None,
            },
        ),
{
    match message {
        None => ProgressStep::Exit { code: TrainExitCode::Success },
        Some(Err(_)) => ProgressStep::Exit { code: TrainExitCode::Error },
        Some(Ok(m)) => match ProgressMessage::try_from(m) {
            Ok(message) => ProgressStep::Report { message },
            Err(_) => ProgressStep::Continue,
        },
    }
}

/// What the caller gets back: the code that training ended with, or an error if it broke
/// down.
pub fn train_and_save(result: Option<TrainExitCode>) -> (r: TrainExitCode)
    ensures
        r == match result {
            Some(code) => code,
            None => TrainExitCode::Error,
        },
{
    match result {
        Some(code) => code,
        None => TrainExitCode::Error,
    }
}

/// What the process said at place `i`.
pub open spec fn said(messages: Seq<Result<ProcessMessage, Failure>>, i: int) -> Option<
    Result<ProcessMessage, Failure>,
> {
    if i < messages.len() {
        Some(messages[i])
    } else {
        None
    }
}

/// What the caller hears of a run from place `i` on.
pub open spec fn heard(messages: Seq<Result<ProcessMessage, Failure>>, i: int) -> Seq<
    ProgressMessage,
>
    decreases messages.len() - i,
{
    if i >= messages.len() {
        Seq::empty()
    } else {
        match progress_step(said(messages, i)) {
            ProgressStep::Report { message } => seq![message] + heard(messages, i + 1),
            ProgressStep::Continue => heard(messages, i + 1),
            ProgressStep::Exit { .. } => Seq::empty(),
        }
    }
}

/// How a run ends, from place `i` on.
pub open spec fn exit_of(messages: Seq<Result<ProcessMessage, Failure>>, i: int) -> TrainExitCode
    decreases messages.len() - i,
{
    match progress_step(said(messages, i)) {
        ProgressStep::Exit { code } => code,
        _ => if i < messages.len() {
            exit_of(messages, i + 1)
        } else {
            TrainExitCode::Success
        },
    }
}

/// A run succeeds exactly if none of its messages is an error.
pub proof fn law_success_means_no_error(messages: Seq<Result<ProcessMessage, Failure>>)
    ensures
        exit_of(messages, 0) == TrainExitCode::Success <==> forall|i: int|
            0 <= i < messages.len() ==> (#[trigger] messages[i]) is Ok,
{
    lemma_success(messages, 0);
}

proof fn lemma_success(messages: Seq<Result<ProcessMessage, Failure>>, from: int)
    requires
        0 <= from,
    ensures
        exit_of(messages, from) == TrainExitCode::Success <==> forall|i: int|
            from <= i < messages.len() ==> (#[trigger] messages[i]) is Ok,
    decreases messages.len() - from,
{
    if from < messages.len() {
        lemma_success(messages, from + 1);
        if messages[from] is Ok {
            if !(exit_of(messages, from + 1) == TrainExitCode::Success) {
                let i = choose|i: int|
                    from + 1 <= i < messages.len() && !((#[trigger] messages[i]) is Ok);
                assert(!(messages[i] is Ok));
            }
        }
    }
}

/// In a run that succeeds, the caller hears of every message that there is something to
/// hear of, in order.
pub proof fn law_everything_is_heard(messages: Seq<Result<ProcessMessage, Failure>>)
    requires
        forall|i: int| 0 <= i < messages.len() ==> (#[trigger] messages[i]) is Ok,
    ensures
        heard(messages, 0) == told(messages),
{
    lemma_heard(messages, 0);
    assert(messages.skip(0) == messages);
}

/// What there is to hear of the messages that are no errors.
pub open spec fn told(messages: Seq<Result<ProcessMessage, Failure>>) -> Seq<ProgressMessage>
    decreases messages.len(),
{
    if messages.len() == 0 {
        Seq::empty()
    } else {
        let rest = told(messages.skip(1));
        match messages[0] {
            Ok(m) => match progress(m) {
                Some(p) => seq![p] + rest,
                None => rest,
            },
            Err(_) => rest,
        }
    }
}

proof fn lemma_heard(messages: Seq<Result<ProcessMessage, Failure>>, from: int)
    requires
        0 <= from <= messages.len(),
        forall|i: int| 0 <= i < messages.len() ==> (#[trigger] messages[i]) is Ok,
    ensures
        heard(messages, from) == told(messages.skip(from)),
    decreases messages.len() - from,
{
    if from < messages.len() {
        lemma_heard(messages, from + 1);
        assert(messages.skip(from).skip(1) == messages.skip(from + 1));
        assert(messages.skip(from)[0] == messages[from]);
        assert(messages[from] is Ok);
    }
}

/// The caller hears of a process that begins, of every step with its number, of the end of
/// training, and of every picture with its size; of nothing else.
pub proof fn law_what_is_heard(message: ProcessMessage)
    ensures
        match message {
            ProcessMessage::NewProcess => progress(message) matches Some(
                ProgressMessage::NewProcess,
            ),
            ProcessMessage::TrainMessage(TrainMessage::TrainStep { iter, .. }) => progress(message)
                matches Some(ProgressMessage::Training { iter: i }) && i == iter,
            ProcessMessage::TrainMessage(TrainMessage::DoneTraining) => progress(message)
                matches Some(ProgressMessage::DoneTraining),
            ProcessMessage::VisualizationUpdated { image, width, height } => progress(message)
                matches Some(
                ProgressMessage::VisualizationUpdated { len, width: w, height: h },
            ) && w == width && h == height && len == image@.len() as int % 0x1_0000_0000,
            _ => progress(message) is None,
        },
{
}

/// What follows what a process says: an end is a success, an error ends in an error, and
/// anything else goes on, told to the caller where there is something to hear.
pub proof fn law_progress_steps(message: ProcessMessage, error: Failure)
    ensures
        progress_step(None) == (ProgressStep::Exit { code: TrainExitCode::Success }),
        progress_step(Some(Err(error))) == (ProgressStep::Exit { code: TrainExitCode::Error }),
        progress(message) is None ==> progress_step(Some(Ok(message))) is Continue,
        progress(message) is Some ==> progress_step(Some(Ok(message))) == (ProgressStep::Report {
            message: progress(message)->0,
        }),
{
}

} // verus!
