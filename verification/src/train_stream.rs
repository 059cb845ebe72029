//! The course of a training run.
//!
//! A run is a sequence of actions that the program performs one at a time. After
//! each action it reports what came of it, and gets the next one.

use crate::config::{SplatRenderMode, TrainConfig, TrainStreamConfig};
use crate::failure::Failure;
use crate::message::{ProcessMessage, TrainMessage, Vec3Bits};
use crate::num::{is_multiple, low_u8, multiple_of, F32Bits};
use crate::text::{decimal, push_decimal};
use vstd::prelude::*;
use vstd::string::*;

verus! {

/// The user interface is told about every fifth step.
pub const UPDATE_EVERY: u32 = 5;

/// The seed by which training views are shuffled.
pub const LOADER_SEED: u64 = 42;

/// What a refinement did to the splats.
#[derive(Clone, Copy, PartialEq, Eq, Structural, Debug)]
pub struct RefineStats {
    pub num_added: u32,
    pub num_pruned: u32,
    pub total_splats: u32,
}

/// Which refinement follows a training step.
#[derive(Clone, Copy, PartialEq, Eq, Structural, Debug)]
pub enum RefineKind {
    /// None; only the splats are counted.
    Skip,
    /// Splats may be added and removed.
    Growth,
    /// Splats are only removed.
    Final,
}

/// Where the splats that a run starts from come from.
#[derive(Clone, Copy, PartialEq, Eq, Structural, Debug)]
pub enum SplatSource {
    /// The dataset brought them.
    Loaded { render_mode: SplatRenderMode },
    /// They are drawn at random around the cameras.
    Random { render_mode: SplatRenderMode },
}

/// The up direction that goes with an update.
#[derive(Clone, Copy, PartialEq, Eq, Structural, Debug)]
pub enum UpAxis {
    /// No direction is given.
    Unchanged,
    /// The direction that the dataset names.
    Named,
    /// The direction that was estimated from the cameras.
    Estimated,
}

/// Splats that a dataset brought along.
#[derive(Clone, Copy, PartialEq, Eq, Structural, Debug)]
pub struct InitSplats {
    pub render_mode: Option<SplatRenderMode>,
    pub names_up_axis: bool,
}

/// Which part of a run a warning speaks of.
#[derive(Clone, Copy, PartialEq, Eq, Structural, Debug)]
pub enum WarningContext {
    LogScene,
    Eval { iter: u32 },
    Export { iter: u32 },
}

/// One thing that a training run does.
#[derive(Debug)]
pub enum TrainAction {
    /// Tell listeners the settings.
    EmitTrainConfig,
    /// Connect the visualizer.
    CreateVisualizer { enabled: bool },
    /// Seed the tensor backend.
    SeedBackend { seed: u64 },
    /// Seed the random generator; each of its seed bytes has this value.
    SeedRng { seed_byte: u8 },
    /// Read the dataset. Answered by `Loaded` or `Failed`.
    LoadDataset,
    /// Tell listeners what is odd about the dataset.
    EmitDatasetWarning { text: String },
    /// Tell listeners that something went wrong that does not end the run.
    EmitWarning { context: WarningContext, error: Failure },
    /// Send the training views to the visualizer. May be answered by `Failed`.
    LogScene { max_img_size: u32 },
    /// Tell listeners the dataset.
    EmitDataset,
    /// Make the first splats, give them harmonics of this degree, and publish them.
    /// Answered by `SplatsReady`.
    InitSplats { source: SplatSource, sh_degree: u32 },
    /// Tell listeners that there are splats to show.
    EmitSplatsUpdated { up_axis: UpAxis, num_splats: u32, sh_degree: u32 },
    /// Tell listeners that loading is over.
    EmitDoneLoading,
    /// Release unused memory of the device.
    MemoryCleanup,
    /// Set up the loader of training views and the trainer.
    PrepareTrainer { loader_seed: u64 },
    /// Take a batch and train on it.
    TrainStep { iter: u32 },
    /// Score all splats on this many training views: a pixel counts if its error is above
    /// the threshold.
    ScoreSplats { n_views: i32, error_threshold: F32Bits },
    /// Refine by the scores, if there is anything to refine. Answered by `Refined`.
    Refine { iter: u32, kind: RefineKind },
    /// Evaluate on the held-out views. May be answered by `Failed`.
    Evaluate { iter: u32, save_to_disk: bool },
    /// Write the splats to a file. May be answered by `Failed`.
    ExportCheckpoint { iter: u32 },
    /// Send the number of splats to the visualizer.
    LogSplatStats { iter: u32, total_splats: u32 },
    /// Send the splats to the visualizer.
    LogSplats { iter: u32 },
    /// Send the figures of the step to the visualizer.
    LogTrainStats { iter: u32 },
    /// Send the memory use to the visualizer. May be answered by `Failed`.
    LogMemory { iter: u32 },
    /// Send the figures of a refinement to the visualizer.
    LogRefineStats { iter: u32, stats: RefineStats },
    /// Tell listeners about a refinement.
    EmitRefineStep { iter: u32, cur_splat_count: u32 },
    /// Tell listeners how far training has come.
    EmitTrainStep { iter: u32, total_steps: u32 },
    /// Tell listeners that training is over.
    EmitDoneTraining,
    /// The run is over.
    Finish,
    /// The run is over because of an error.
    Abort { error: Failure },
}

/// What came of an action.
#[derive(Debug)]
pub enum TrainEvent {
    /// It was done.
    Done,
    /// It could not be done.
    Failed { error: Failure },
    /// The dataset was read.
    Loaded { warnings: Vec<String>, has_eval: bool, init: Option<InitSplats> },
    /// The first splats are there.
    SplatsReady { num_splats: u32, sh_degree: u32 },
    /// The splats were refined, or counted.
    Refined { stats: RefineStats },
}

/// What happens in one iteration, known before it starts.
#[derive(Clone, Copy, PartialEq, Eq, Structural, Debug)]
pub struct StepPlan {
    pub refine: RefineKind,
    pub next_iter: u32,
    pub is_last: bool,
    pub evaluate: bool,
    /// Whether what was evaluated is written to files.
    pub save_to_disk: bool,
    pub export: bool,
    pub log_splats: bool,
    pub log_train_stats: bool,
    pub update_ui: bool,
}

/// Which refinement is due after step `iter`.
pub open spec fn refine_due(config: TrainConfig, iter: int) -> RefineKind {
    if iter > 0 && is_multiple(iter, config.refine_every as int) && iter
        < config.growth_stop_iter {
        RefineKind::Growth
    } else if iter > config.growth_stop_iter && iter % config.refine_every_final as int == 0 {
        RefineKind::Final
    } else {
        RefineKind::Skip
    }
}

/// Whether iteration `iter` is well defined: nothing that it looks at is counted in
/// steps of zero, except where `is_multiple` gives that a meaning.
pub open spec fn plannable(config: TrainStreamConfig, iter: int) -> bool {
    &&& config.process_config.eval_every > 0
    &&& config.has_disk ==> config.process_config.export_every > 0
    &&& iter > config.train_config.growth_stop_iter ==> config.train_config.refine_every_final > 0
}

/// Whether every iteration of a run is well defined.
pub open spec fn schedulable(config: TrainStreamConfig) -> bool {
    forall|iter: int|
        config.process_config.start_iter <= iter < config.train_config.total_steps
            ==> #[trigger] plannable(config, iter)
}

/// What happens in iteration `iter`.
pub open spec fn step_plan(config: TrainStreamConfig, has_eval: bool, iter: int) -> StepPlan {
    let next = iter + 1;
    let is_last = next == config.train_config.total_steps;
    StepPlan {
        refine: refine_due(config.train_config, iter),
        next_iter: next as u32,
        is_last,
        evaluate: has_eval && (is_last || next % config.process_config.eval_every as int == 0),
        save_to_disk: config.has_disk && config.process_config.eval_save_to_disk,
        export: config.has_disk && (is_last || next % config.process_config.export_every as int
            == 0),
        log_splats: config.rerun_config.rerun_log_splats_every matches Some(every) && (is_last
            || is_multiple(next, every as int)),
        log_train_stats: is_last || is_multiple(
            next,
            config.rerun_config.rerun_log_train_stats_every as int,
        ),
        update_ui: is_last || next % UPDATE_EVERY as int == 0,
    }
}

/// Decides what happens in iteration `iter`.
pub fn plan_step(config: &TrainStreamConfig, has_eval: bool, iter: u32) -> (r: StepPlan)
    requires
        plannable(*config, iter as int),
        iter < config.train_config.total_steps,
    ensures
        r == step_plan(*config, has_eval, iter as int),
{
    let train = config.train_config;
    let refine = if iter > 0 && multiple_of(iter, train.refine_every) && iter
        < train.growth_stop_iter {
        RefineKind::Growth
    } else if iter > train.growth_stop_iter && iter % train.refine_every_final == 0 {
        RefineKind::Final
    } else {
        RefineKind::Skip
    };
    let next_iter: u32 = iter + 1;
    let is_last = next_iter == train.total_steps;
    StepPlan {
        refine,
        next_iter,
        is_last,
        evaluate: (next_iter % config.process_config.eval_every == 0 || is_last) && has_eval,
        save_to_disk: config.has_disk && config.process_config.eval_save_to_disk,
        export: config.has_disk && (next_iter % config.process_config.export_every == 0
            || is_last),
        log_splats: match config.rerun_config.rerun_log_splats_every {
            Some(every) => multiple_of(next_iter, every) || is_last,
            None => false,
        },
        log_train_stats: multiple_of(next_iter, config.rerun_config.rerun_log_train_stats_every)
            || is_last,
        update_ui: next_iter % UPDATE_EVERY == 0 || is_last,
    }
}

/// Whether a run with these settings is well defined from its first iteration on.
pub fn is_schedulable(config: &TrainStreamConfig) -> (r: bool)
    ensures
        r == schedulable(*config),
{
    let start: u32 = config.process_config.start_iter;
    let total: u32 = config.train_config.total_steps;
    if start >= total {
        return true;
    }
    assert(plannable(*config, total - 1) ==> forall|iter: int|
        start <= iter < total ==> #[trigger] plannable(*config, iter));
    config.process_config.eval_every > 0 && (!config.has_disk
        || config.process_config.export_every > 0) && (total - 1
        <= config.train_config.growth_stop_iter || config.train_config.refine_every_final > 0)
}

/// The actions before the dataset is read.
pub open spec fn startup_actions(config: TrainStreamConfig) -> Seq<TrainAction> {
    seq![
        TrainAction::EmitTrainConfig,
        TrainAction::CreateVisualizer { enabled: config.rerun_config.rerun_enabled },
        TrainAction::SeedBackend { seed: config.process_config.seed },
        TrainAction::SeedRng { seed_byte: (config.process_config.seed as int % 256) as u8 },
        TrainAction::LoadDataset,
    ]
}

/// Where the first splats come from. Settings win over what the dataset says.
pub open spec fn splat_source(config: TrainConfig, init: Option<InitSplats>) -> SplatSource {
    match init {
        Some(splats) => SplatSource::Loaded {
            render_mode: match (config.render_mode, splats.render_mode) {
                (Some(mode), _) => mode,
                (None, Some(mode)) => mode,
                (None, None) => SplatRenderMode::Default,
            },
        },
        None => SplatSource::Random {
            render_mode: match config.render_mode {
                Some(mode) => mode,
                None => SplatRenderMode::Default,
            },
        },
    }
}

/// The up direction of the first splats: the one that the dataset names, if it does.
pub open spec fn first_up_axis(init: Option<InitSplats>) -> UpAxis {
    if init matches Some(splats) && splats.names_up_axis {
        UpAxis::Named
    } else {
        UpAxis::Estimated
    }
}

/// The warnings that reading the dataset gave.
pub open spec fn dataset_warnings(warnings: Seq<String>) -> Seq<TrainAction> {
    warnings.map_values(|text: String| TrainAction::EmitDatasetWarning { text })
}

/// The actions between reading the dataset and the first step.
pub open spec fn loading_actions(
    config: TrainStreamConfig,
    warnings: Seq<String>,
    init: Option<InitSplats>,
) -> Seq<TrainAction> {
    let max_img_size = config.rerun_config.rerun_max_img_size;
    dataset_warnings(warnings) + seq![
        TrainAction::LogScene { max_img_size },
        TrainAction::LogScene { max_img_size },
        TrainAction::EmitDataset,
        TrainAction::InitSplats {
            source: splat_source(config.train_config, init),
            sh_degree: config.model_config.sh_degree,
        },
        TrainAction::EmitDoneLoading,
        TrainAction::MemoryCleanup,
        TrainAction::PrepareTrainer { loader_seed: LOADER_SEED },
    ]
}

/// The actions of iteration `iter` up to its refinement.
pub open spec fn training_actions(config: TrainStreamConfig, iter: int) -> Seq<TrainAction> {
    let kind = refine_due(config.train_config, iter);
    let step = TrainAction::TrainStep { iter: iter as u32 };
    let refine = TrainAction::Refine { iter: iter as u32, kind };
    if kind is Skip {
        seq![step, refine]
    } else {
        seq![
            step,
            TrainAction::ScoreSplats {
                n_views: config.train_config.n_views,
                error_threshold: config.train_config.high_error_threshold,
            },
            refine,
        ]
    }
}

/// `actions`, followed by `action` if it is due.
#[verifier::opaque]
pub open spec fn and_if(actions: Seq<TrainAction>, due: bool, action: TrainAction) -> Seq<
    TrainAction,
> {
    if due {
        actions.push(action)
    } else {
        actions
    }
}

/// The actions of an iteration after its refinement.
pub open spec fn report_actions(
    config: TrainStreamConfig,
    plan: StepPlan,
    stats: RefineStats,
    sh_degree: u32,
) -> Seq<TrainAction> {
    let iter = plan.next_iter;
    let save_to_disk = plan.save_to_disk;
    let total_splats = stats.total_splats;
    let total_steps = config.train_config.total_steps;
    let added = stats.num_added > 0;
    let shown = TrainAction::EmitSplatsUpdated {
        up_axis: UpAxis::Unchanged,
        num_splats: total_splats,
        sh_degree,
    };
    let refined = TrainAction::EmitRefineStep { iter, cur_splat_count: total_splats };
    let s = Seq::empty();
    let s = and_if(s, plan.evaluate, TrainAction::Evaluate { iter, save_to_disk });
    let s = and_if(s, plan.export, TrainAction::ExportCheckpoint { iter });
    let s = and_if(s, true, TrainAction::LogSplatStats { iter, total_splats });
    let s = and_if(s, plan.log_splats, TrainAction::LogSplats { iter });
    let s = and_if(s, plan.log_train_stats, TrainAction::LogTrainStats { iter });
    let s = and_if(s, true, TrainAction::LogMemory { iter });
    let s = and_if(s, added, TrainAction::LogRefineStats { iter, stats });
    let s = and_if(s, added, refined);
    let s = and_if(s, plan.update_ui, shown);
    and_if(s, plan.update_ui, TrainAction::EmitTrainStep { iter, total_steps })
}

/// The last actions of a run.
pub open spec fn closing_actions() -> Seq<TrainAction> {
    seq![TrainAction::EmitDoneTraining, TrainAction::Finish]
}

/// Which answers the action that was handed out last can get.
#[derive(Clone, Copy, PartialEq, Eq, Structural, Debug)]
pub enum Awaiting {
    Nothing,
    Dataset,
    Scene,
    Splats,
    Refinement,
    Evaluation,
    Export,
    Memory,
    /// The run is over.
    Over,
}

/// What `action` waits for.
pub open spec fn awaits(action: TrainAction) -> Awaiting {
    match action {
        TrainAction::LoadDataset => Awaiting::Dataset,
        TrainAction::LogScene { .. } => Awaiting::Scene,
        TrainAction::InitSplats { .. } => Awaiting::Splats,
        TrainAction::Refine { .. } => Awaiting::Refinement,
        TrainAction::Evaluate { .. } => Awaiting::Evaluation,
        TrainAction::ExportCheckpoint { .. } => Awaiting::Export,
        TrainAction::LogMemory { .. } => Awaiting::Memory,
        TrainAction::Finish => Awaiting::Over,
        TrainAction::Abort { .. } => Awaiting::Over,
        _ => Awaiting::Nothing,
    }
}

/// Whether `event` can be the answer to an action that waits for `awaiting`.
pub open spec fn answers(awaiting: Awaiting, event: TrainEvent) -> bool {
    match awaiting {
        Awaiting::Nothing => event is Done,
        Awaiting::Dataset => event is Loaded || event is Failed,
        Awaiting::Splats => event is SplatsReady,
        Awaiting::Refinement => event is Refined,
        Awaiting::Scene | Awaiting::Evaluation | Awaiting::Export | Awaiting::Memory => event
            is Done || event is Failed,
        Awaiting::Over => false,
    }
}

/// Where a run stands.
pub struct RunState {
    pub config: TrainStreamConfig,
    pub has_eval: bool,
    pub up_axis: UpAxis,
    pub sh_degree: u32,
    /// The iteration that is under way, or that comes next.
    pub iter: int,
    pub awaiting: Awaiting,
    /// What is still to do before the next iteration is planned.
    pub queue: Seq<TrainAction>,
}

impl RunState {
    pub open spec fn valid(self) -> bool {
        let total = self.config.train_config.total_steps;
        &&& schedulable(self.config)
        &&& self.config.process_config.start_iter <= self.iter <= u32::MAX
        &&& self.awaiting is Refinement ==> self.iter < total
        &&& forall|i: int|
            0 <= i < self.queue.len() && #[trigger] self.queue[i] is Refine ==> self.iter < total
    }

    /// The run with `action` put before everything that is still to do.
    pub open spec fn first(self, action: TrainAction) -> RunState {
        RunState { queue: seq![action] + self.queue, ..self }
    }

    /// The run after the last action was answered by `event`.
    pub open spec fn absorb(self, event: TrainEvent) -> RunState {
        match (self.awaiting, event) {
            (Awaiting::Dataset, TrainEvent::Loaded { warnings, has_eval, init }) => RunState {
                has_eval,
                up_axis: first_up_axis(init),
                queue: loading_actions(self.config, warnings@, init),
                ..self
            },
            (Awaiting::Dataset, TrainEvent::Failed { error }) => RunState {
                queue: seq![TrainAction::Abort { error }],
                ..self
            },
            (Awaiting::Memory, TrainEvent::Failed { error }) => RunState {
                queue: seq![TrainAction::Abort { error }],
                ..self
            },
            (Awaiting::Scene, TrainEvent::Failed { error }) => self.first(
                TrainAction::EmitWarning { context: WarningContext::LogScene, error },
            ),
            (Awaiting::Evaluation, TrainEvent::Failed { error }) => self.first(
                TrainAction::EmitWarning {
                    context: WarningContext::Eval { iter: self.iter as u32 },
                    error,
                },
            ),
            (Awaiting::Export, TrainEvent::Failed { error }) => self.first(
                TrainAction::EmitWarning {
                    context: WarningContext::Export { iter: self.iter as u32 },
                    error,
                },
            ),
            (Awaiting::Splats, TrainEvent::SplatsReady { num_splats, sh_degree }) => (RunState {
                sh_degree,
                ..self
            }).first(
                TrainAction::EmitSplatsUpdated { up_axis: self.up_axis, num_splats, sh_degree },
            ),
            (Awaiting::Refinement, TrainEvent::Refined { stats }) => RunState {
                iter: self.iter + 1,
                queue: report_actions(
                    self.config,
                    step_plan(self.config, self.has_eval, self.iter),
                    stats,
                    self.sh_degree,
                ),
                ..self
            },
            _ => self,
        }
    }

    /// The run with something to do.
    pub open spec fn refill(self) -> RunState {
        if self.queue.len() > 0 {
            self
        } else if self.iter < self.config.train_config.total_steps {
            RunState { queue: training_actions(self.config, self.iter), ..self }
        } else {
            RunState { queue: closing_actions(), ..self }
        }
    }

    /// The action that follows once the last one was answered by `event`.
    pub open spec fn next_action(self, event: TrainEvent) -> TrainAction {
        self.absorb(event).refill().queue[0]
    }

    /// The run after that action was handed out.
    pub open spec fn next_state(self, event: TrainEvent) -> RunState {
        let s = self.absorb(event).refill();
        RunState { awaiting: awaits(s.queue[0]), queue: s.queue.drop_first(), ..s }
    }

    /// The state of a run that has not begun.
    pub open spec fn start(config: TrainStreamConfig) -> RunState {
        RunState {
            config,
            has_eval: false,
            up_axis: UpAxis::Unchanged,
            sh_degree: 0,
            iter: config.process_config.start_iter as int,
            awaiting: Awaiting::Nothing,
            queue: startup_actions(config),
        }
    }
}

/// A training run.
pub struct TrainStream {
    config: TrainStreamConfig,
    has_eval: bool,
    up_axis: UpAxis,
    sh_degree: u32,
    iter: u32,
    awaiting: Awaiting,
    queue: Vec<TrainAction>,
}

impl View for TrainStream {
    type V = RunState;

    closed spec fn view(&self) -> RunState {
        RunState {
            config: self.config,
            has_eval: self.has_eval,
            up_axis: self.up_axis,
            sh_degree: self.sh_degree,
            iter: self.iter as int,
            awaiting: self.awaiting,
            queue: self.queue@,
        }
    }
}

fn push_if(out: &mut Vec<TrainAction>, due: bool, action: TrainAction)
    ensures
        final(out)@ == and_if(old(out)@, due, action),
{
    reveal(and_if);
    if due {
        out.push(action);
    }
}

/// Lists what an iteration does after its refinement.
pub fn plan_report(
    config: &TrainStreamConfig,
    plan: StepPlan,
    stats: RefineStats,
    sh_degree: u32,
) -> (r: Vec<TrainAction>)
    ensures
        r@ == report_actions(*config, plan, stats, sh_degree),
{
    let iter: u32 = plan.next_iter;
    let total_splats: u32 = stats.total_splats;
    let total_steps: u32 = config.train_config.total_steps;
    let save_to_disk = plan.save_to_disk;
    let added = stats.num_added > 0;
    let shown = TrainAction::EmitSplatsUpdated {
        up_axis: UpAxis::Unchanged,
        num_splats: total_splats,
        sh_degree,
    };
    let refined = TrainAction::EmitRefineStep { iter, cur_splat_count: total_splats };
    let mut out: Vec<TrainAction> = Vec::new();
    push_if(&mut out, plan.evaluate, TrainAction::Evaluate { iter, save_to_disk });
    push_if(&mut out, plan.export, TrainAction::ExportCheckpoint { iter });
    push_if(&mut out, true, TrainAction::LogSplatStats { iter, total_splats });
    push_if(&mut out, plan.log_splats, TrainAction::LogSplats { iter });
    push_if(&mut out, plan.log_train_stats, TrainAction::LogTrainStats { iter });
    push_if(&mut out, true, TrainAction::LogMemory { iter });
    push_if(&mut out, added, TrainAction::LogRefineStats { iter, stats });
    push_if(&mut out, added, refined);
    push_if(&mut out, plan.update_ui, shown);
    push_if(&mut out, plan.update_ui, TrainAction::EmitTrainStep { iter, total_steps });
    out
}

/// Lists what a run does between reading the dataset and the first step.
fn plan_loading(
    config: &TrainStreamConfig,
    warnings: Vec<String>,
    init: Option<InitSplats>,
) -> (r: Vec<TrainAction>)
    ensures
        r@ == loading_actions(*config, warnings@, init),
{
    let mut out: Vec<TrainAction> = Vec::new();
    for text in it: warnings
        invariant
            it.seq() == warnings@,
            out@ == dataset_warnings(warnings@.take(it.index())),
    {
        out.push(TrainAction::EmitDatasetWarning { text });
        assert(out@ == dataset_warnings(warnings@.take(it.index() + 1)));
    }
    assert(warnings@.take(warnings@.len() as int) == warnings@);
    let source = match init {
        Some(splats) => SplatSource::Loaded {
            render_mode: match (config.train_config.render_mode, splats.render_mode) {
                (Some(mode), _) => mode,
                (None, Some(mode)) => mode,
                (None, None) => SplatRenderMode::Default,
            },
        },
        None => SplatSource::Random {
            render_mode: match config.train_config.render_mode {
                Some(mode) => mode,
                None => SplatRenderMode::Default,
            },
        },
    };
    let max_img_size: u32 = config.rerun_config.rerun_max_img_size;
    out.push(TrainAction::LogScene { max_img_size });
    out.push(TrainAction::LogScene { max_img_size });
    out.push(TrainAction::EmitDataset);
    out.push(TrainAction::InitSplats { source, sh_degree: config.model_config.sh_degree });
    out.push(TrainAction::EmitDoneLoading);
    out.push(TrainAction::MemoryCleanup);
    out.push(TrainAction::PrepareTrainer { loader_seed: LOADER_SEED });
    assert(out@ == loading_actions(*config, warnings@, init));
    out
}

impl TrainStream {
    /// A run that has not begun.
    pub fn new(config: TrainStreamConfig) -> (r: Self)
        requires
            schedulable(config),
        ensures
            r@ == RunState::start(config),
            r@.valid(),
    {
        let seed: u64 = config.process_config.seed;
        let iter: u32 = config.process_config.start_iter;
        let queue = vec![
            TrainAction::EmitTrainConfig,
            TrainAction::CreateVisualizer { enabled: config.rerun_config.rerun_enabled },
            TrainAction::SeedBackend { seed },
            TrainAction::SeedRng { seed_byte: low_u8(seed) },
            TrainAction::LoadDataset,
        ];
        assert(queue@ == startup_actions(config));
        TrainStream {
            config,
            has_eval: false,
            up_axis: UpAxis::Unchanged,
            sh_degree: 0,
            iter,
            awaiting: Awaiting::Nothing,
            queue,
        }
    }

    /// Whether `event` can be the answer to the action that was handed out last.
    pub fn accepts(&self, event: &TrainEvent) -> (r: bool)
        ensures
            r == answers(self@.awaiting, *event),
    {
        match self.awaiting {
            Awaiting::Nothing => matches!(event, TrainEvent::Done),
            Awaiting::Dataset => matches!(
                event,
                TrainEvent::Loaded { .. } | TrainEvent::Failed { .. }
            ),
            Awaiting::Splats => matches!(event, TrainEvent::SplatsReady { .. }),
            Awaiting::Refinement => matches!(event, TrainEvent::Refined { .. }),
            Awaiting::Scene | Awaiting::Evaluation | Awaiting::Export | Awaiting::Memory => matches!(
                event,
                TrainEvent::Done | TrainEvent::Failed { .. }
            ),
            Awaiting::Over => false,
        }
    }

    fn absorb(&mut self, event: TrainEvent)
        requires
            old(self)@.valid(),
            answers(old(self)@.awaiting, event),
        ensures
            final(self)@ == old(self)@.absorb(event),
    {
        match (self.awaiting, event) {
            (Awaiting::Dataset, TrainEvent::Loaded { warnings, has_eval, init }) => {
                self.has_eval = has_eval;
                self.up_axis = match init {
                    Some(splats) if splats.names_up_axis => UpAxis::Named,
                    _ => UpAxis::Estimated,
                };
                self.queue = plan_loading(&self.config, warnings, init);
            },
            (Awaiting::Dataset, TrainEvent::Failed { error }) => {
                self.queue = vec![TrainAction::Abort { error }];
            },
            (Awaiting::Memory, TrainEvent::Failed { error }) => {
                self.queue = vec![TrainAction::Abort { error }];
            },
            (Awaiting::Scene, TrainEvent::Failed { error }) => {
                let context = WarningContext::LogScene;
                self.queue.insert(0, TrainAction::EmitWarning { context, error });
            },
            (Awaiting::Evaluation, TrainEvent::Failed { error }) => {
                let context = WarningContext::Eval { iter: self.iter };
                self.queue.insert(0, TrainAction::EmitWarning { context, error });
            },
            (Awaiting::Export, TrainEvent::Failed { error }) => {
                let context = WarningContext::Export { iter: self.iter };
                self.queue.insert(0, TrainAction::EmitWarning { context, error });
            },
            (Awaiting::Splats, TrainEvent::SplatsReady { num_splats, sh_degree }) => {
                self.sh_degree = sh_degree;
                let up_axis = self.up_axis;
                self.queue.insert(
                    0,
                    TrainAction::EmitSplatsUpdated { up_axis, num_splats, sh_degree },
                );
            },
            (Awaiting::Refinement, TrainEvent::Refined { stats }) => {
                let plan = plan_step(&self.config, self.has_eval, self.iter);
                self.queue = plan_report(&self.config, plan, stats, self.sh_degree);
                self.iter = self.iter + 1;
            },
            _ => {},
        }
        assert(self@.queue == old(self)@.absorb(event).queue);
    }

    /// Takes in what came of the last action, and hands out the next one.
    pub fn next(&mut self, event: TrainEvent) -> (r: TrainAction)
        requires
            old(self)@.valid(),
            answers(old(self)@.awaiting, event),
        ensures
            r == old(self)@.next_action(event),
            final(self)@ == old(self)@.next_state(event),
            final(self)@.valid(),
    {
        proof {
            lemma_next_valid(self@, event);
        }
        self.absorb(event);
        if self.queue.len() == 0 {
            if self.iter < self.config.train_config.total_steps {
                let plan = plan_step(&self.config, self.has_eval, self.iter);
                let iter: u32 = self.iter;
                let train = self.config.train_config;
                let mut queue = vec![TrainAction::TrainStep { iter }];
                if !matches!(plan.refine, RefineKind::Skip) {
                    queue.push(
                        TrainAction::ScoreSplats {
                            n_views: train.n_views,
                            error_threshold: train.high_error_threshold,
                        },
                    );
                }
                queue.push(TrainAction::Refine { iter, kind: plan.refine });
                self.queue = queue;
                assert(self.queue@ == training_actions(self.config, self.iter as int));
            } else {
                self.queue = vec![TrainAction::EmitDoneTraining, TrainAction::Finish];
                assert(self.queue@ == closing_actions());
            }
        }
        assert(self@ == old(self)@.absorb(event).refill());
        let action = self.queue.remove(0);
        self.awaiting = awaited_by(&action);
        assert(self@.queue == old(self)@.absorb(event).refill().queue.drop_first());
        action
    }
}

fn awaited_by(action: &TrainAction) -> (r: Awaiting)
    ensures
        r == awaits(*action),
{
    match action {
        TrainAction::LoadDataset => Awaiting::Dataset,
        TrainAction::LogScene { .. } => Awaiting::Scene,
        TrainAction::InitSplats { .. } => Awaiting::Splats,
        TrainAction::Refine { .. } => Awaiting::Refinement,
        TrainAction::Evaluate { .. } => Awaiting::Evaluation,
        TrainAction::ExportCheckpoint { .. } => Awaiting::Export,
        TrainAction::LogMemory { .. } => Awaiting::Memory,
        TrainAction::Finish => Awaiting::Over,
        TrainAction::Abort { .. } => Awaiting::Over,
        _ => Awaiting::Nothing,
    }
}

/// Actions that are over once they were done or have failed: none of them brings
/// anything but a warning into the run.
pub open spec fn plain(actions: Seq<TrainAction>) -> bool {
    forall|i: int| 0 <= i < actions.len() ==> plain_action(#[trigger] actions[i])
}

/// Whether `action` neither refines, nor makes splats, nor reads the dataset, nor ends
/// the run.
pub open spec fn plain_action(action: TrainAction) -> bool {
    match awaits(action) {
        Awaiting::Dataset | Awaiting::Splats | Awaiting::Refinement | Awaiting::Over => false,
        _ => true,
    }
}

/// Whether `action` is one of those that may follow a refinement.
pub open spec fn is_report(action: TrainAction) -> bool {
    match action {
        TrainAction::Evaluate { .. } => true,
        TrainAction::ExportCheckpoint { .. } => true,
        TrainAction::LogSplatStats { .. } => true,
        TrainAction::LogSplats { .. } => true,
        TrainAction::LogTrainStats { .. } => true,
        TrainAction::LogMemory { .. } => true,
        TrainAction::LogRefineStats { .. } => true,
        TrainAction::EmitRefineStep { .. } => true,
        TrainAction::EmitSplatsUpdated { .. } => true,
        TrainAction::EmitTrainStep { .. } => true,
        _ => false,
    }
}

/// Whether all of `actions` may follow a refinement.
pub open spec fn reports(actions: Seq<TrainAction>) -> bool {
    forall|i: int| 0 <= i < actions.len() ==> is_report(#[trigger] actions[i])
}

/// Reports stay reports when one is added.
broadcast proof fn lemma_reports_and_if(s: Seq<TrainAction>, due: bool, action: TrainAction)
    requires
        reports(s),
        is_report(action),
    ensures
        #[trigger] reports(and_if(s, due, action)),
        and_if(s, due, action).len() >= s.len(),
{
    reveal(and_if);
}

/// The actions after a refinement are reports, plain, and at least one.
pub proof fn lemma_report_plain(
    config: TrainStreamConfig,
    plan: StepPlan,
    stats: RefineStats,
    sh_degree: u32,
)
    ensures
        reports(report_actions(config, plan, stats, sh_degree)),
        plain(report_actions(config, plan, stats, sh_degree)),
        report_actions(config, plan, stats, sh_degree).len() > 0,
{
    let all = report_actions(config, plan, stats, sh_degree);
    assert(reports(Seq::empty()));
    assert(reports(all)) by {
        broadcast use lemma_reports_and_if;

    }
    assert(all.len() > 0) by {
        reveal(and_if);
    }
    assert forall|x: int| 0 <= x < all.len() implies plain_action(#[trigger] all[x]) by {
        assert(is_report(all[x]));
    }
}

/// A run stays valid.
proof fn lemma_next_valid(s: RunState, event: TrainEvent)
    requires
        s.valid(),
        answers(s.awaiting, event),
    ensures
        s.next_state(event).valid(),
        s.awaiting is Refinement ==> plannable(s.config, s.iter),
        s.absorb(event).queue.len() == 0 && s.absorb(event).iter
            < s.config.train_config.total_steps ==> plannable(s.config, s.absorb(event).iter),
{
    let a = s.absorb(event);
    let total = s.config.train_config.total_steps;
    assert(a.config == s.config);
    if s.awaiting is Refinement {
        assert(plannable(s.config, s.iter));
        let stats = event->stats;
        lemma_report_plain(
            s.config,
            step_plan(s.config, s.has_eval, s.iter),
            stats,
            s.sh_degree,
        );
        assert(plain(a.queue));
    } else {
        assert(a.iter == s.iter);
    }
    assert forall|i: int| 0 <= i < a.queue.len() && #[trigger] a.queue[i] is Refine implies a.iter
        < total by {
        assert(!plain_action(a.queue[i]));
        if s.awaiting is Dataset {
            if event is Loaded {
                let warnings = event->warnings;
                let init = event->init;
                let w = dataset_warnings(warnings@);
                assert(a.queue == loading_actions(s.config, warnings@, init));
                if i < w.len() {
                    assert(a.queue[i] == w[i]);
                }
            }
        } else if s.awaiting is Refinement {
        } else if a.queue.len() == s.queue.len() + 1 {
            if i > 0 {
                assert(a.queue[i] == s.queue[i - 1]);
            }
        } else if a.queue != s.queue {
            assert(a.queue.len() == 1);
        }
    }
    if a.queue.len() == 0 && a.iter < total {
        assert(plannable(s.config, a.iter));
    }
    let r = a.refill();
    assert forall|i: int|
        0 <= i < s.next_state(event).queue.len() && #[trigger] s.next_state(
            event,
        ).queue[i] is Refine implies r.iter < total by {
        assert(s.next_state(event).queue[i] == r.queue[i + 1]);
    }
}

/// What is put before an error that does not end the run.
pub open spec fn warning_text(context: WarningContext) -> Option<Seq<char>> {
    match context {
        WarningContext::LogScene => None,
        WarningContext::Eval { iter } => Some(
            "Failed evaluation at iteration "@ + decimal(iter as nat),
        ),
        WarningContext::Export { iter } => Some(
            "Export at iteration "@ + decimal(iter as nat) + " failed"@,
        ),
    }
}

/// Says of an error in which part of the run it came up.
pub fn explain_warning(context: WarningContext, error: Failure) -> (r: Failure)
    ensures
        r.causes() == match warning_text(context) {
            Some(text) => seq![text] + error.causes(),
            None => error.causes(),
        },
        error.valid() ==> r.valid(),
{
    match context {
        WarningContext::LogScene => error,
        WarningContext::Eval { iter } => {
            let mut text: String = "Failed evaluation at iteration ".to_owned();
            push_decimal(&mut text, iter as u64);
            error.context(text)
        },
        WarningContext::Export { iter } => {
            let mut text: String = "Export at iteration ".to_owned();
            push_decimal(&mut text, iter as u64);
            text.append(" failed");
            error.context(text)
        },
    }
}

/// What a run knows besides its actions when it tells listeners about them.
#[derive(Clone, Copy, PartialEq, Eq, Structural, Debug)]
pub struct RunFacts {
    pub train_views: u64,
    pub eval_views: Option<u64>,
    /// The up direction that the dataset names.
    pub named_up: Option<Vec3Bits>,
    /// The up direction that was estimated from the cameras.
    pub estimated_up: Vec3Bits,
    /// How long training took so far.
    pub elapsed_secs: u64,
}

impl RunFacts {
    /// The direction that `axis` stands for.
    pub open spec fn direction(self, axis: UpAxis) -> Option<Vec3Bits> {
        match axis {
            UpAxis::Unchanged => None,
            UpAxis::Named => self.named_up,
            UpAxis::Estimated => Some(self.estimated_up),
        }
    }

    /// The direction that `axis` stands for.
    pub fn up_axis(&self, axis: UpAxis) -> (r: Option<Vec3Bits>)
        ensures
            r == self.direction(axis),
    {
        match axis {
            UpAxis::Unchanged => None,
            UpAxis::Named => self.named_up,
            UpAxis::Estimated => Some(self.estimated_up),
        }
    }
}

/// Whether `message` is what listeners hear of `action`.
pub open spec fn announces(
    action: TrainAction,
    facts: RunFacts,
    message: Option<ProcessMessage>,
) -> bool {
    match action {
        TrainAction::EmitTrainConfig => message == Some(
            ProcessMessage::TrainMessage(TrainMessage::TrainConfig),
        ),
        TrainAction::EmitDatasetWarning { text } => message matches Some(
            ProcessMessage::Warning { error },
        ) && error.causes() == seq![text@],
        TrainAction::EmitWarning { context, error: cause } => message matches Some(
            ProcessMessage::Warning { error },
        ) && error.causes() == match warning_text(context) {
            Some(text) => seq![text] + cause.causes(),
            None => cause.causes(),
        },
        TrainAction::EmitDataset => message == Some(
            ProcessMessage::TrainMessage(
                TrainMessage::Dataset {
                    train_views: facts.train_views,
                    eval_views: facts.eval_views,
                },
            ),
        ),
        TrainAction::EmitSplatsUpdated { up_axis, num_splats, sh_degree } => message == Some(
            ProcessMessage::SplatsUpdated {
                up_axis: facts.direction(up_axis),
                frame: 0,
                total_frames: 1,
                num_splats,
                sh_degree,
            },
        ),
        TrainAction::EmitDoneLoading => message == Some(ProcessMessage::DoneLoading),
        TrainAction::EmitRefineStep { iter, cur_splat_count } => message == Some(
            ProcessMessage::TrainMessage(TrainMessage::RefineStep { cur_splat_count, iter }),
        ),
        TrainAction::EmitTrainStep { iter, total_steps } => message == Some(
            ProcessMessage::TrainMessage(
                TrainMessage::TrainStep {
                    iter,
                    total_steps,
                    total_elapsed_secs: facts.elapsed_secs,
                },
            ),
        ),
        TrainAction::EmitDoneTraining => message == Some(
            ProcessMessage::TrainMessage(TrainMessage::DoneTraining),
        ),
        _ => message is None,
    }
}

/// What listeners hear of an action, if anything.
pub fn announce(action: TrainAction, facts: &RunFacts) -> (r: Option<ProcessMessage>)
    ensures
        announces(action, *facts, r),
{
    match action {
        TrainAction::EmitTrainConfig => Some(
            ProcessMessage::TrainMessage(TrainMessage::TrainConfig),
        ),
        TrainAction::EmitDatasetWarning { text } => {
            let error = Failure::msg(text);
            Some(ProcessMessage::Warning { error })
        },
        TrainAction::EmitWarning { context, error } => {
            let error = explain_warning(context, error);
            Some(ProcessMessage::Warning { error })
        },
        TrainAction::EmitDataset => Some(
            ProcessMessage::TrainMessage(
                TrainMessage::Dataset {
                    train_views: facts.train_views,
                    eval_views: facts.eval_views,
                },
            ),
        ),
        TrainAction::EmitSplatsUpdated { up_axis, num_splats, sh_degree } => Some(
            ProcessMessage::SplatsUpdated {
                up_axis: facts.up_axis(up_axis),
                frame: 0,
                total_frames: 1,
                num_splats,
                sh_degree,
            },
        ),
        TrainAction::EmitDoneLoading => Some(ProcessMessage::DoneLoading),
        TrainAction::EmitRefineStep { iter, cur_splat_count } => Some(
            ProcessMessage::TrainMessage(TrainMessage::RefineStep { cur_splat_count, iter }),
        ),
        TrainAction::EmitTrainStep { iter, total_steps } => Some(
            ProcessMessage::TrainMessage(
                TrainMessage::TrainStep {
                    iter,
                    total_steps,
                    total_elapsed_secs: facts.elapsed_secs,
                },
            ),
        ),
        TrainAction::EmitDoneTraining => Some(
            ProcessMessage::TrainMessage(TrainMessage::DoneTraining),
        ),
        _ => None,
    }
}

} // verus!
