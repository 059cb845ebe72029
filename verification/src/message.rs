//! What a process tells its listeners.

use crate::failure::Failure;
use crate::num::F32Bits;
use vstd::prelude::*;

verus! {

/// Names a set of splats that lives on the device.
#[derive(Clone, Copy, PartialEq, Eq, Structural, Debug)]
pub struct SplatId {
    pub id: u64,
}

/// A point or a direction.
#[derive(Clone, Copy, PartialEq, Eq, Structural, Debug)]
pub struct Vec3Bits {
    pub x: F32Bits,
    pub y: F32Bits,
    pub z: F32Bits,
}

/// A rotation.
#[derive(Clone, Copy, PartialEq, Eq, Structural, Debug)]
pub struct QuatBits {
    pub x: F32Bits,
    pub y: F32Bits,
    pub z: F32Bits,
    pub w: F32Bits,
}

/// What a training run tells its listeners.
#[derive(Debug)]
pub enum TrainMessage {
    /// The settings of the run.
    TrainConfig,
    /// The views to train on are there, and those to evaluate on, if any.
    Dataset { train_views: u64, eval_views: Option<u64> },
    /// Splats were added or removed.
    RefineStep { cur_splat_count: u32, iter: u32 },
    /// Some number of training steps are done.
    TrainStep { iter: u32, total_steps: u32, total_elapsed_secs: u64 },
    /// Evaluation gave these results.
    EvalResult { iter: u32, avg_psnr: F32Bits, avg_ssim: F32Bits },
    /// Training is over.
    DoneTraining,
}

/// What a process tells its listeners.
#[derive(Debug)]
pub enum ProcessMessage {
    /// A process has begun.
    NewProcess,
    /// There is a new place to load from.
    NewSource,
    /// Loading begins, of views to train on or of splats to look at.
    StartLoading { training: bool },
    /// Splats were loaded, if only in part. Those of an animation carry their frame.
    ViewSplats {
        up_axis: Option<Vec3Bits>,
        splats: SplatId,
        frame: u32,
        total_frames: u32,
        progress: F32Bits,
    },
    /// Splats were loaded that can be shown on top of the others.
    ViewAuxiliarySplat { name: String, splats: SplatId },
    /// There are splats to show.
    SplatsUpdated {
        up_axis: Option<Vec3Bits>,
        frame: u32,
        total_frames: u32,
        num_splats: u32,
        sh_degree: u32,
    },
    /// The views to train on are there, and those to evaluate on, if any.
    Dataset { train_views: u64, eval_views: Option<u64> },
    /// Loading is over.
    DoneLoading,
    /// Some number of training steps are done.
    TrainStep { splats: SplatId, iter: u32, total_elapsed_secs: u64 },
    /// Splats were added or removed.
    RefineStep { cur_splat_count: u32, iter: u32 },
    /// Evaluation gave these results; the averages come as they are printed.
    EvalResult { iter: u32, avg_psnr: String, avg_ssim: String },
    /// Something went wrong that does not end the process.
    Warning { error: Failure },
    /// Training is over.
    DoneTraining,
    /// Where to look at the scene from.
    CameraData { focal_point: Vec3Bits, focus_distance: F32Bits, rotation: QuatBits },
    /// What the scene shows, in words.
    ObjectMetadata { metadata: String },
    /// A picture of the splats.
    VisualizationUpdated { image: Vec<u8>, width: u32, height: u32 },
    /// News from a training run.
    TrainMessage(TrainMessage),
}

} // verus!
