//! What a training run is told to do.

use crate::num::F32Bits;
use vstd::prelude::*;

verus! {

/// How splats are turned into pixels.
#[derive(Clone, Copy, PartialEq, Eq, Structural, Debug)]
pub enum SplatRenderMode {
    Default,
    Mip,
}

/// How the alpha channel of a training view is meant.
#[derive(Clone, Copy, PartialEq, Eq, Structural, Debug)]
pub enum AlphaMode {
    Masked,
    Transparent,
}

impl Default for AlphaMode {
    fn default() -> (r: Self)
        ensures
            r == AlphaMode::Masked,
    {
        AlphaMode::Masked
    }
}

/// What is sent to the visualizer, and how often.
#[derive(Clone, Copy, PartialEq, Eq, Structural, Debug)]
pub struct RerunConfig {
    pub rerun_enabled: bool,
    pub rerun_max_img_size: u32,
    pub rerun_log_splats_every: Option<u32>,
    pub rerun_log_train_stats_every: u32,
}

/// The schedule of a training run.
#[derive(Clone, Copy, PartialEq, Eq, Structural, Debug)]
pub struct TrainConfig {
    pub total_steps: u32,
    pub refine_every: u32,
    pub growth_stop_iter: u32,
    pub refine_every_final: u32,
    /// How many views splats are scored on before they are refined.
    pub n_views: i32,
    /// From which error on a pixel counts when splats are scored.
    pub high_error_threshold: F32Bits,
    pub render_mode: Option<SplatRenderMode>,
}

/// Where a run starts, and when it evaluates and exports.
#[derive(Debug)]
pub struct ProcessConfig {
    pub seed: u64,
    pub start_iter: u32,
    pub eval_every: u32,
    pub export_every: u32,
    pub eval_save_to_disk: bool,
    pub export_path: String,
    pub export_name: String,
}

/// What the splats of a run can express.
#[derive(Clone, Copy, PartialEq, Eq, Structural, Debug)]
pub struct ModelConfig {
    pub sh_degree: u32,
}

/// How a dataset is read.
#[derive(Clone, Copy, PartialEq, Eq, Structural, Debug)]
pub struct LoadConfig {
    pub max_resolution: u32,
    pub eval_split_every: Option<u32>,
    pub load_masks: bool,
}

/// All settings of a training run.
#[derive(Debug)]
pub struct TrainStreamConfig {
    pub train_config: TrainConfig,
    pub model_config: ModelConfig,
    pub load_config: LoadConfig,
    pub process_config: ProcessConfig,
    pub rerun_config: RerunConfig,
    /// Whether there is a disk to write to. In a browser there is none.
    pub has_disk: bool,
}

} // verus!
