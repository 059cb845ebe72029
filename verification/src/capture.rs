//! Training on captured objects and evaluating the result.

use crate::config::{LoadConfig, TrainStreamConfig};
use crate::failure::Failure;
use crate::message::{ProcessMessage, SplatId, TrainMessage};
use crate::paths::{
    components, file_name, file_name_of, join_path, law_parent_drops_last, parent, parent_of,
    path_joined, text_view, PathStyle,
};
use crate::text::{decimal, push_decimal};
use vstd::prelude::*;
use vstd::string::*;

verus! {

/// Every eighth view is held out.
pub const EVAL_SPLIT_EVERY: u32 = 8;

/// The seed of the tensor backend.
pub const EVAL_SEED: u64 = 42;

/// Where the dataset of a captured object is.
pub fn dataset_dir(style: PathStyle, object: &str) -> (r: String)
    ensures
        r@ == path_joined(style, object@, "nerfstudio_dataset"@),
{
    join_path(style, object, "nerfstudio_dataset")
}

/// Where the results for a dataset go: a directory named like the one that holds it.
pub open spec fn results_dir(style: PathStyle, dataset: Seq<char>) -> Option<Seq<char>> {
    match parent_of(style, dataset) {
        Some(holder) => match file_name_of(style, holder) {
            Some(name) => Some(path_joined(style, "eval_results"@, name)),
            None => None,
        },
        None => None,
    }
}

/// Finds where the results for a dataset go, if the directory that holds it has a name.
pub fn output_dir(style: PathStyle, dataset: &str) -> (r: Option<String>)
    ensures
        text_view(r) == results_dir(style, dataset@),
{
    match parent(style, dataset) {
        Some(holder) => match file_name(style, holder.as_str()) {
            Some(name) => Some(join_path(style, "eval_results", name.as_str())),
            None => None,
        },
        None => None,
    }
}

/// The settings of a run that is evaluated afterwards.
pub fn evaluated(config: TrainStreamConfig, dir: String) -> (r: TrainStreamConfig)
    ensures
        r.train_config == config.train_config,
        r.model_config == config.model_config,
        r.rerun_config == config.rerun_config,
        r.has_disk == config.has_disk,
        r.load_config == (LoadConfig {
            eval_split_every: Some(EVAL_SPLIT_EVERY),
            ..config.load_config
        }),
        r.process_config == (crate::config::ProcessConfig {
            export_path: dir,
            ..config.process_config
        }),
{
    let mut out = config;
    out.load_config.eval_split_every = Some(EVAL_SPLIT_EVERY);
    out.process_config.export_path = dir;
    out
}

/// How the dataset is read again for the evaluation.
pub fn with_masks(config: LoadConfig) -> (r: LoadConfig)
    ensures
        r == (LoadConfig { load_masks: true, ..config }),
{
    let mut out = config;
    out.load_masks = true;
    out
}

/// The file that one compared view is written to.
pub fn eval_image_name(view: usize) -> (r: String)
    ensures
        r@ == "eval_image_"@ + decimal(view as nat) + ".png"@,
{
    let mut out: String = "eval_image_".to_owned();
    push_decimal(&mut out, view as u64);
    out.append(".png");
    out
}

/// What follows a message of the training process.
#[derive(Debug)]
pub enum CaptureStep {
    /// Wait for the next message.
    Continue,
    /// Print this line, and wait for the next message.
    Print { line: String },
    /// Training is over.
    Stop,
}

/// Watches a training process for its splats.
pub struct TrainAndEval {
    pub splats: Option<SplatId>,
}

impl TrainAndEval {
    /// Nothing was heard yet.
    pub fn new() -> (r: Self)
        ensures
            r.splats is None,
    {
        TrainAndEval { splats: None }
    }

    /// Takes in what the process said; `current` are the splats that it holds now.
    pub fn on_message(
        &mut self,
        message: &Result<ProcessMessage, Failure>,
        current: Option<SplatId>,
    ) -> (r: CaptureStep)
        requires
            message matches Err(e) ==> e.valid(),
        ensures
            final(self).splats == if message matches Ok(ProcessMessage::SplatsUpdated { .. })
                && current is Some {
                current
            } else {
                old(self).splats
            },
            match message {
                Ok(ProcessMessage::TrainMessage(TrainMessage::DoneTraining)) => r is Stop,
                Ok(_) => r is Continue,
                Err(e) => r matches CaptureStep::Print { line } && line@
                    == "Error during training: "@ + e.causes()[0],
            },
    {
        match message {
            Ok(ProcessMessage::SplatsUpdated { .. }) => {
                if let Some(splats) = current {
                    self.splats = Some(splats);
                }
                CaptureStep::Continue
            },
            Ok(ProcessMessage::TrainMessage(TrainMessage::DoneTraining)) => CaptureStep::Stop,
            Ok(_) => CaptureStep::Continue,
            Err(e) => {
                let mut line: String = "Error during training: ".to_owned();
                line.append(e.chain[0].as_str());
                CaptureStep::Print { line }
            },
        }
    }
}

/// The results for a dataset go to a directory that has the name of the one that holds the
/// dataset, which is the last but one component of its path; there is no such directory
/// where that component is missing or is no name.
pub proof fn law_results_by_holder(dataset: Seq<char>)
    ensures
        ({
            let style = PathStyle::Slash;
            let cs = components(style, dataset);
            let n = cs.len();
            &&& n >= 2 && cs[n - 2] != seq!['.'] && cs[n - 2] != seq!['.', '.'] ==> results_dir(
                style,
                dataset,
            ) == Some(path_joined(style, "eval_results"@, cs[n - 2]))
            &&& n < 2 || cs[n - 2] == seq!['.'] || cs[n - 2] == seq!['.', '.'] ==> results_dir(
                style,
                dataset,
            ) is None
        }),
{
    let style = PathStyle::Slash;
    law_parent_drops_last(dataset);
    let cs = components(style, dataset);
    if let Some(above) = parent_of(style, dataset) {
        assert(components(style, above) == cs.drop_last());
        if cs.len() >= 2 {
            assert(cs.drop_last().last() == cs[cs.len() - 2]);
        }
    }
}

} // verus!
