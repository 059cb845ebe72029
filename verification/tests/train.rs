use brush::config::{
    AlphaMode, LoadConfig, ModelConfig, ProcessConfig, RerunConfig, SplatRenderMode, TrainConfig,
    TrainStreamConfig,
};
use brush::failure::Failure;
use brush::message::{ProcessMessage, TrainMessage, Vec3Bits};
use brush::num::F32Bits;
use brush::train_stream::{
    announce, explain_warning, is_schedulable, plan_step, InitSplats, RefineKind, RefineStats,
    RunFacts, SplatSource, TrainAction, TrainEvent, TrainStream, UpAxis, WarningContext,
};

fn config(total_steps: u32) -> TrainStreamConfig {
    TrainStreamConfig {
        train_config: TrainConfig {
            total_steps,
            refine_every: 2,
            growth_stop_iter: 4,
            refine_every_final: 3,
            n_views: 2,
            high_error_threshold: bits(0.5),
            render_mode: None,
        },
        model_config: ModelConfig { sh_degree: 3 },
        load_config: LoadConfig { max_resolution: 640, eval_split_every: None, load_masks: false },
        process_config: ProcessConfig {
            seed: 0x1_02,
            start_iter: 0,
            eval_every: 4,
            export_every: 3,
            eval_save_to_disk: false,
            export_path: "out".to_string(),
            export_name: "e_{iter}.ply".to_string(),
        },
        rerun_config: RerunConfig {
            rerun_enabled: true,
            rerun_max_img_size: 256,
            rerun_log_splats_every: None,
            rerun_log_train_stats_every: 50,
        },
        has_disk: true,
    }
}

fn stats(num_added: u32) -> RefineStats {
    RefineStats { num_added, num_pruned: 0, total_splats: 100 }
}

fn answer(action: &TrainAction) -> TrainEvent {
    match action {
        TrainAction::LoadDataset => TrainEvent::Loaded {
            warnings: vec!["odd".to_string()],
            has_eval: true,
            init: None,
        },
        TrainAction::InitSplats { .. } => TrainEvent::SplatsReady { num_splats: 10, sh_degree: 3 },
        TrainAction::Refine { kind, .. } => TrainEvent::Refined {
            stats: stats(if *kind == RefineKind::Skip { 0 } else { 5 }),
        },
        _ => TrainEvent::Done,
    }
}

fn run(config: TrainStreamConfig, answer: impl Fn(&TrainAction) -> TrainEvent) -> Vec<String> {
    assert!(is_schedulable(&config));
    let mut run = TrainStream::new(config);
    let mut event = TrainEvent::Done;
    let mut out = Vec::new();
    loop {
        assert!(run.accepts(&event));
        let action = run.next(event);
        out.push(format!("{:?}", action));
        if matches!(action, TrainAction::Finish | TrainAction::Abort { .. }) {
            return out;
        }
        event = answer(&action);
    }
}

#[test]
fn a_whole_run() {
    let log = run(config(2), answer);
    assert_eq!(
        log,
        vec![
            "EmitTrainConfig",
            "CreateVisualizer { enabled: true }",
            "SeedBackend { seed: 258 }",
            "SeedRng { seed_byte: 2 }",
            "LoadDataset",
            "EmitDatasetWarning { text: \"odd\" }",
            "LogScene { max_img_size: 256 }",
            "LogScene { max_img_size: 256 }",
            "EmitDataset",
            "InitSplats { source: Random { render_mode: Default }, sh_degree: 3 }",
            "EmitSplatsUpdated { up_axis: Estimated, num_splats: 10, sh_degree: 3 }",
            "EmitDoneLoading",
            "MemoryCleanup",
            "PrepareTrainer { loader_seed: 42 }",
            "TrainStep { iter: 0 }",
            "Refine { iter: 0, kind: Skip }",
            "LogSplatStats { iter: 1, total_splats: 100 }",
            "LogMemory { iter: 1 }",
            "TrainStep { iter: 1 }",
            "Refine { iter: 1, kind: Skip }",
            "Evaluate { iter: 2, save_to_disk: false }",
            "ExportCheckpoint { iter: 2 }",
            "LogSplatStats { iter: 2, total_splats: 100 }",
            "LogTrainStats { iter: 2 }",
            "LogMemory { iter: 2 }",
            "EmitSplatsUpdated { up_axis: Unchanged, num_splats: 100, sh_degree: 3 }",
            "EmitTrainStep { iter: 2, total_steps: 2 }",
            "EmitDoneTraining",
            "Finish",
        ]
    );
}

#[test]
fn every_step_is_trained_once() {
    let mut c = config(12);
    c.process_config.start_iter = 3;
    let log = run(c, answer);
    let steps: Vec<String> = log.iter().filter(|l| l.starts_with("TrainStep")).cloned().collect();
    let want: Vec<String> = (3..12).map(|i| format!("TrainStep {{ iter: {} }}", i)).collect();
    assert_eq!(steps, want);
}

#[test]
fn a_run_that_starts_at_its_end_trains_nothing() {
    let mut c = config(5);
    c.process_config.start_iter = 5;
    c.process_config.eval_every = 0;
    let log = run(c, answer);
    assert!(!log.iter().any(|l| l.starts_with("TrainStep")));
    assert_eq!(log[log.len() - 2], "EmitDoneTraining");
}

#[test]
fn training_is_over_once_and_last() {
    let log = run(config(9), answer);
    assert_eq!(log.iter().filter(|l| *l == "EmitDoneTraining").count(), 1);
    assert_eq!(&log[log.len() - 2..], &["EmitDoneTraining", "Finish"]);
}

#[test]
fn evaluation_comes_before_the_next_refinement() {
    let log = run(config(12), answer);
    let eval = log.iter().position(|l| l.starts_with("Evaluate { iter: 4")).unwrap();
    let refine = log.iter().position(|l| l.starts_with("Refine { iter: 4")).unwrap();
    assert!(eval < refine);
}

#[test]
fn splats_are_scored_before_they_are_refined() {
    let log = run(config(12), answer);
    let score = format!("ScoreSplats {{ n_views: 2, error_threshold: {:?} }}", bits(0.5));
    for (i, line) in log.iter().enumerate() {
        if line.starts_with("Refine ") {
            assert_eq!(log[i - 1] == score, !line.contains("Skip"), "{}", line);
        }
    }
    assert_eq!(log.iter().filter(|l| **l == score).count(), 3);
}

#[test]
fn without_a_disk_nothing_is_written() {
    let mut c = config(12);
    c.has_disk = false;
    c.process_config.eval_save_to_disk = true;
    c.process_config.export_every = 0;
    let log = run(c, answer);
    assert!(!log.iter().any(|l| l.starts_with("ExportCheckpoint")));
    assert!(log.iter().any(|l| l.starts_with("Evaluate")));
    assert!(!log.iter().any(|l| l.contains("save_to_disk: true")));
    let mut c = config(12);
    c.process_config.eval_save_to_disk = true;
    assert!(run(c, answer).iter().any(|l| l == "Evaluate { iter: 4, save_to_disk: true }"));
}

#[test]
fn refinements_follow_their_schedule() {
    let c = config(20);
    let kinds: Vec<RefineKind> = (0..12).map(|i| plan_step(&c, false, i).refine).collect();
    let (s, g, f) = (RefineKind::Skip, RefineKind::Growth, RefineKind::Final);
    assert_eq!(kinds, vec![s, s, g, s, s, s, f, s, s, f, s, s]);
}

#[test]
fn refining_in_steps_of_zero_never_happens() {
    let mut c = config(20);
    c.train_config.refine_every = 0;
    assert_eq!(plan_step(&c, false, 2).refine, RefineKind::Skip);
}

#[test]
fn the_last_step_reports_whatever_the_intervals() {
    let mut c = config(7);
    c.process_config.eval_every = 1000;
    c.process_config.export_every = 1000;
    c.rerun_config.rerun_log_splats_every = Some(1000);
    let plan = plan_step(&c, true, 6);
    assert!(plan.is_last && plan.evaluate && plan.export && plan.update_ui);
    assert!(plan.log_splats && plan.log_train_stats);
    assert!(!plan_step(&c, false, 6).evaluate);
    let before = plan_step(&c, true, 5);
    assert!(!before.is_last && !before.evaluate && !before.export && !before.update_ui);
    assert!(plan_step(&c, true, 4).update_ui);
}

#[test]
fn settings_without_intervals_cannot_be_scheduled() {
    let mut c = config(7);
    c.process_config.eval_every = 0;
    assert!(!is_schedulable(&c));
    let mut c = config(7);
    c.process_config.export_every = 0;
    assert!(!is_schedulable(&c));
    let mut c = config(7);
    c.train_config.refine_every_final = 0;
    assert!(!is_schedulable(&c));
    c.train_config.growth_stop_iter = 6;
    assert!(is_schedulable(&c));
}

#[test]
fn failures_only_add_a_warning() {
    let calm = run(config(4), answer);
    let stormy = run(config(4), |action| match action {
        TrainAction::LogScene { .. }
        | TrainAction::Evaluate { .. }
        | TrainAction::ExportCheckpoint { .. } => TrainEvent::Failed {
            error: Failure::msg("broken".to_string()),
        },
        other => answer(other),
    });
    let warnings: Vec<&String> =
        stormy.iter().filter(|l| l.starts_with("EmitWarning")).collect();
    assert_eq!(warnings.len(), 5);
    assert!(warnings[0].contains("LogScene"));
    assert!(warnings[2].contains("Export { iter: 3 }"));
    assert!(warnings[3].contains("Eval { iter: 4 }"));
    let rest: Vec<String> =
        stormy.iter().filter(|l| !l.starts_with("EmitWarning")).cloned().collect();
    assert_eq!(rest, calm);
}

#[test]
fn a_dataset_that_cannot_be_read_ends_the_run() {
    let log = run(config(4), |action| match action {
        TrainAction::LoadDataset => TrainEvent::Failed { error: Failure::msg("gone".to_string()) },
        other => answer(other),
    });
    assert_eq!(log.last().unwrap(), "Abort { error: Failure { chain: [\"gone\"] } }");
    assert_eq!(log.len(), 6);
}

#[test]
fn memory_that_cannot_be_read_ends_the_run() {
    let log = run(config(4), |action| match action {
        TrainAction::LogMemory { .. } => TrainEvent::Failed { error: Failure::msg("m".to_string()) },
        other => answer(other),
    });
    assert!(log.last().unwrap().starts_with("Abort"));
}

#[test]
fn a_run_accepts_only_fitting_answers() {
    let mut run = TrainStream::new(config(1));
    assert!(run.accepts(&TrainEvent::Done));
    assert!(!run.accepts(&TrainEvent::Refined { stats: stats(0) }));
    for _ in 0..5 {
        run.next(TrainEvent::Done);
    }
    assert!(!run.accepts(&TrainEvent::Done));
    assert!(run.accepts(&TrainEvent::Failed { error: Failure::msg(String::new()) }));
}

#[test]
fn settings_win_over_the_dataset() {
    let with = |render_mode, own| {
        let mut c = config(1);
        c.train_config.render_mode = own;
        run(c, move |action| match action {
            TrainAction::LoadDataset => TrainEvent::Loaded {
                warnings: vec![],
                has_eval: false,
                init: Some(InitSplats { render_mode, names_up_axis: true }),
            },
            other => answer(other),
        })
    };
    let mip = Some(SplatRenderMode::Mip);
    let plain = Some(SplatRenderMode::Default);
    let source = |log: Vec<String>| log.iter().find(|l| l.starts_with("InitSplats")).unwrap().clone();
    assert!(source(with(mip, None)).contains("Loaded { render_mode: Mip }"));
    assert!(source(with(mip, plain)).contains("Loaded { render_mode: Default }"));
    assert!(source(with(None, None)).contains("Loaded { render_mode: Default }"));
    assert!(with(None, None).iter().any(|l| l.contains("up_axis: Named")));
    let _ = SplatSource::Random { render_mode: SplatRenderMode::Mip };
}

fn bits(v: f32) -> F32Bits {
    F32Bits { bits: v.to_bits() }
}

#[test]
fn listeners_hear_what_happens() {
    let up = Vec3Bits { x: bits(0.0), y: bits(1.0), z: bits(0.0) };
    let facts = RunFacts {
        train_views: 7,
        eval_views: Some(2),
        named_up: None,
        estimated_up: up,
        elapsed_secs: 9,
    };
    match announce(
        TrainAction::EmitSplatsUpdated { up_axis: UpAxis::Estimated, num_splats: 3, sh_degree: 1 },
        &facts,
    ) {
        Some(ProcessMessage::SplatsUpdated { up_axis, frame, total_frames, num_splats, sh_degree }) => {
            assert_eq!(up_axis, Some(up));
            assert_eq!((frame, total_frames, num_splats, sh_degree), (0, 1, 3, 1));
        }
        other => panic!("{:?}", other),
    }
    match announce(TrainAction::EmitTrainStep { iter: 5, total_steps: 10 }, &facts) {
        Some(ProcessMessage::TrainMessage(TrainMessage::TrainStep {
            iter,
            total_steps,
            total_elapsed_secs,
        })) => assert_eq!((iter, total_steps, total_elapsed_secs), (5, 10, 9)),
        other => panic!("{:?}", other),
    }
    match announce(
        TrainAction::EmitWarning {
            context: WarningContext::Export { iter: 30 },
            error: Failure::msg("disk full".to_string()),
        },
        &facts,
    ) {
        Some(ProcessMessage::Warning { error }) => {
            assert_eq!(error.chain, vec!["Export at iteration 30 failed", "disk full"])
        }
        other => panic!("{:?}", other),
    }
    assert!(announce(TrainAction::MemoryCleanup, &facts).is_none());
    assert!(matches!(
        announce(TrainAction::EmitDoneTraining, &facts),
        Some(ProcessMessage::TrainMessage(TrainMessage::DoneTraining))
    ));
}

#[test]
fn warnings_say_where_they_came_up() {
    let error = || Failure::msg("e".to_string());
    assert_eq!(
        explain_warning(WarningContext::Eval { iter: 1000 }, error()).chain,
        vec!["Failed evaluation at iteration 1000", "e"]
    );
    assert_eq!(explain_warning(WarningContext::LogScene, error()).chain, vec!["e"]);
}

#[test]
fn alpha_is_a_mask_unless_said_otherwise() {
    assert_eq!(AlphaMode::default(), AlphaMode::Masked);
}
