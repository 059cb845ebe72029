use brush::capture::{
    dataset_dir, eval_image_name, evaluated, output_dir, with_masks, CaptureStep, TrainAndEval,
};
use brush::cli::{default_with_viewer, process_ui, Cli, CliError, ProcessUi, UiAction, UiFlow};
use brush::config::{
    LoadConfig, ModelConfig, ProcessConfig, RerunConfig, TrainConfig, TrainStreamConfig,
};
use brush::dataset_debug::debug_copies;
use brush::eval::{
    eval_image_path, explain_eval_failure, run_eval, sample_paths, EvalAction, EvalMode,
};
use brush::failure::Failure;
use brush::ffi::{
    on_progress, run_training_logic, train_and_save, ProgressMessage, ProgressStep, TrainExitCode,
    TrainOptions, TrainingStep,
};
use brush::message::{ProcessMessage, SplatId, TrainMessage};
use brush::num::F32Bits;
use brush::paths::PathStyle;
use brush::view_stream::{
    find_ply_files, part_message, process_stream, view_stream, PlyFile, ProcessStep, SplatMeta,
    ViewAction, ViewEvent,
};

const SLASH: PathStyle = PathStyle::Slash;

fn failure() -> Failure {
    Failure::msg("broken".to_string())
}

#[test]
fn arguments_are_checked() {
    let ok = Cli { source: Some("x".to_string()), with_viewer: false, process: config() }
        .validate()
        .unwrap();
    assert_eq!(ok.process.train_config.total_steps, 30000);
    assert_eq!(ok.source, Some("x".to_string()));
    assert!(Cli { source: None, with_viewer: true, process: config() }.validate().is_ok());
    let err = Cli { source: None, with_viewer: false, process: config() }.validate().unwrap_err();
    assert_eq!(err, CliError::MissingRequiredArgument);
    assert_eq!(err.message(), "When --with-viewer is false, --source must be provided");
    assert!(default_with_viewer(&None) && !default_with_viewer(&Some("x".to_string())));
}

fn show(ui: &mut ProcessUi, message: ProcessMessage) -> String {
    let (actions, flow) = ui.on_message(&Ok(message));
    assert_eq!(flow, UiFlow::Continue);
    format!("{:?}", actions)
}

#[test]
fn the_terminal_follows_the_process() {
    let (mut ui, first) = process_ui(1000, true);
    assert_eq!(
        format!("{:?}", &first[..2]),
        "[Message { spinner: Eval, text: \"evaluating every 1000 steps\" }, \
         Message { spinner: Stats, text: \"Starting up\" }]"
    );
    assert!(matches!(
        &first[2],
        UiAction::Print { line }
            if line == "ℹ️  running in debug mode, compile with --release for best performance"
    ));
    assert_eq!(process_ui(1000, false).1.len(), 2);
    assert_eq!(
        show(&mut ui, ProcessMessage::NewSource),
        "[Message { spinner: Main, text: \"Starting process...\" }]"
    );
    assert_eq!(
        show(&mut ui, ProcessMessage::StartLoading { training: true }),
        "[Message { spinner: Main, text: \"Loading data...\" }]"
    );
    assert_eq!(
        show(&mut ui, ProcessMessage::Dataset { train_views: 30, eval_views: Some(4) }),
        "[Message { spinner: Main, text: \"Loading dataset with 30 training, 4 eval views\" }, \
         Message { spinner: Eval, text: \"evaluating 4 views every 1000 steps\" }]"
    );
    assert_eq!(
        show(&mut ui, ProcessMessage::Dataset { train_views: 30, eval_views: None }),
        "[Message { spinner: Main, text: \"Loading dataset with 30 training, 0 eval views\" }]"
    );
    assert_eq!(
        show(&mut ui, ProcessMessage::DoneLoading),
        "[Message { spinner: Main, text: \"Completed loading\" }, \
         Message { spinner: Stats, text: \"Completed loading\" }]"
    );
    assert_eq!(
        show(
            &mut ui,
            ProcessMessage::TrainStep { splats: SplatId { id: 1 }, iter: 55, total_elapsed_secs: 61 }
        ),
        "[Message { spinner: Main, text: \"Training\" }, Position { pos: 55 }]"
    );
    assert_eq!(
        show(&mut ui, ProcessMessage::RefineStep { cur_splat_count: 9, iter: 55 }),
        "[Message { spinner: Stats, text: \"Current splat count 9\" }]"
    );
    assert_eq!(
        show(
            &mut ui,
            ProcessMessage::EvalResult {
                iter: 7,
                avg_psnr: "20.5".to_string(),
                avg_ssim: "0.9".to_string()
            }
        ),
        "[Message { spinner: Eval, text: \"Eval iter 7: PSNR 20.5, ssim 0.9\" }]"
    );
    let (actions, _) = ui.on_message(&Ok(ProcessMessage::Warning { error: failure() }));
    match &actions[..] {
        [UiAction::MustPrint { line }] => assert_eq!(line, "⚠️: {error}"),
        other => panic!("{:?}", other),
    }
    assert_eq!(show(&mut ui, ProcessMessage::DoneTraining), "[]");
    assert_eq!(ui.farewell(), "Training took 1m 1s");
}

#[test]
fn looking_at_splats_ends_the_terminal() {
    let (mut ui, _) = process_ui(1, false);
    let (actions, flow) = ui.on_message(&Ok(ProcessMessage::StartLoading { training: false }));
    assert_eq!(flow, UiFlow::Stop);
    assert!(matches!(
        &actions[..],
        [UiAction::Print { line }] if line.starts_with("❌ Only training is supported in the CLI")
    ));
    let (actions, flow) = ui.on_message(&Err(failure()));
    assert_eq!(flow, UiFlow::Fail);
    assert!(matches!(&actions[..], [UiAction::Print { line }] if line == "❌ Encountered an error"));
    assert_eq!(ui.farewell(), "Training took 0s");
}

#[test]
fn durations_in_words() {
    let took = |elapsed_secs| ProcessUi { eval_every: 1, elapsed_secs }.farewell();
    assert_eq!(took(3600), "Training took 1h");
    assert_eq!(took(2 * 86400 + 3 * 3600 + 5), "Training took 2days 3h 5s");
    assert_eq!(
        took(2 * 31_557_600 + 2_630_016 + 86400 + 60),
        "Training took 2years 1month 1day 1m"
    );
}

fn config() -> TrainStreamConfig {
    TrainStreamConfig {
        train_config: TrainConfig {
            total_steps: 30000,
            refine_every: 200,
            growth_stop_iter: 15000,
            refine_every_final: 1000,
            n_views: 10,
            high_error_threshold: F32Bits { bits: 0 },
            render_mode: None,
        },
        model_config: ModelConfig { sh_degree: 3 },
        load_config: LoadConfig { max_resolution: 1920, eval_split_every: None, load_masks: false },
        process_config: ProcessConfig {
            seed: 42,
            start_iter: 0,
            eval_every: 1000,
            export_every: 5000,
            eval_save_to_disk: false,
            export_path: "./".to_string(),
            export_name: "export_{iter}.ply".to_string(),
        },
        rerun_config: RerunConfig {
            rerun_enabled: false,
            rerun_max_img_size: 512,
            rerun_log_splats_every: None,
            rerun_log_train_stats_every: 50,
        },
        has_disk: true,
    }
}

fn options(output_path: Option<&str>) -> TrainOptions {
    TrainOptions {
        total_steps: 10,
        refine_every: 2,
        max_resolution: 100,
        export_every: 5,
        output_path: output_path.map(|s| s.to_string()),
    }
}

#[test]
fn options_become_settings() {
    let c = options(Some("/out")).into_train_stream_config(config());
    assert_eq!(c.process_config.export_path, "/out");
    assert_eq!(c.train_config.total_steps, 10);
    assert_eq!(c.train_config.refine_every, 2);
    assert_eq!(c.load_config.max_resolution, 100);
    assert_eq!(c.process_config.export_every, 5);
    assert!(c.process_config.eval_save_to_disk);
    assert_eq!(c.train_config.growth_stop_iter, 15000);
    assert_eq!(c.process_config.export_name, "export_{iter}.ply");
    let c = options(None).into_train_stream_config(config());
    assert_eq!(c.process_config.export_path, "./");
}

#[test]
fn callers_hear_of_some_messages() {
    let heard = |m: ProcessMessage| ProgressMessage::try_from(&m);
    assert_eq!(heard(ProcessMessage::NewProcess), Ok(ProgressMessage::NewProcess));
    assert_eq!(
        heard(ProcessMessage::TrainMessage(TrainMessage::TrainStep {
            iter: 4,
            total_steps: 9,
            total_elapsed_secs: 0
        })),
        Ok(ProgressMessage::Training { iter: 4 })
    );
    assert_eq!(
        heard(ProcessMessage::TrainMessage(TrainMessage::DoneTraining)),
        Ok(ProgressMessage::DoneTraining)
    );
    assert_eq!(
        heard(ProcessMessage::VisualizationUpdated { image: vec![1, 2, 3], width: 1, height: 1 }),
        Ok(ProgressMessage::VisualizationUpdated { len: 3, width: 1, height: 1 })
    );
    assert_eq!(heard(ProcessMessage::DoneLoading), Err(()));
}

#[test]
fn callers_get_a_code() {
    assert!(matches!(
        run_training_logic(None, Some(options(None))),
        TrainingStep::Exit { code: TrainExitCode::Error }
    ));
    assert!(matches!(
        run_training_logic(Some("d".to_string()), None),
        TrainingStep::Exit { code: TrainExitCode::Error }
    ));
    assert!(matches!(
        run_training_logic(Some("d".to_string()), Some(options(None))),
        TrainingStep::Start { dataset, .. } if dataset == "d"
    ));
    assert_eq!(on_progress(None), ProgressStep::Exit { code: TrainExitCode::Success });
    assert_eq!(
        on_progress(Some(&Err(failure()))),
        ProgressStep::Exit { code: TrainExitCode::Error }
    );
    assert_eq!(on_progress(Some(&Ok(ProcessMessage::DoneLoading))), ProgressStep::Continue);
    assert_eq!(
        on_progress(Some(&Ok(ProcessMessage::NewProcess))),
        ProgressStep::Report { message: ProgressMessage::NewProcess }
    );
    assert_eq!(train_and_save(None), TrainExitCode::Error);
    assert_eq!(train_and_save(Some(TrainExitCode::Success)).code(), 0);
    assert_eq!(TrainExitCode::Error.code(), 1);
}

#[test]
fn evaluations_go_through_all_views() {
    let plan = run_eval(2, EvalMode { save: true, log: true });
    assert_eq!(
        plan,
        vec![
            EvalAction::Load { view: 0 },
            EvalAction::Measure { view: 0 },
            EvalAction::Add { view: 0 },
            EvalAction::Save { view: 0 },
            EvalAction::LogSample { view: 0, index: 0 },
            EvalAction::Load { view: 1 },
            EvalAction::Measure { view: 1 },
            EvalAction::Add { view: 1 },
            EvalAction::Save { view: 1 },
            EvalAction::LogSample { view: 1, index: 1 },
            EvalAction::Average { count: 2 },
            EvalAction::LogStats,
            EvalAction::EmitResult,
        ]
    );
    assert_eq!(
        run_eval(1, EvalMode { save: true, log: false }),
        vec![
            EvalAction::Load { view: 0 },
            EvalAction::Measure { view: 0 },
            EvalAction::Save { view: 0 },
            EvalAction::Add { view: 0 },
            EvalAction::Average { count: 1 },
        ]
    );
}

#[test]
fn evaluations_that_fail() {
    let error = explain_eval_failure(EvalAction::Measure { view: 0 }, failure());
    assert_eq!(error.chain, vec!["Failed to run eval for sample.", "broken"]);
    let error = explain_eval_failure(EvalAction::Load { view: 0 }, failure());
    assert_eq!(error.chain, vec!["broken"]);
    let error = explain_eval_failure(EvalAction::Add { view: 0 }, failure());
    assert_eq!(error.chain, vec!["broken"]);
}

#[test]
fn evaluated_pictures_have_names() {
    assert_eq!(eval_image_path(SLASH, "out", 500, "IMG_1"), "out/eval_500/IMG_1.png");
    let paths = sample_paths(SLASH, "eval_results/cat/eval_image_0.png");
    assert_eq!(paths.dir, "eval_results/cat");
    assert_eq!(paths.gt, "eval_results/cat/eval_image_0_gt.png");
    assert_eq!(paths.rendered, "eval_results/cat/eval_image_0_rendered.png");
    let paths = sample_paths(SLASH, "");
    assert_eq!(paths.dir, ".");
    assert_eq!(paths.gt, "./eval_gt.png");
    assert_eq!(sample_paths(SLASH, "name").rendered, "name_rendered.png");
}

#[test]
fn captured_objects_have_directories() {
    assert_eq!(dataset_dir(SLASH, "/objects/cat"), "/objects/cat/nerfstudio_dataset");
    assert_eq!(
        output_dir(SLASH, "/objects/cat/nerfstudio_dataset"),
        Some("eval_results/cat".to_string())
    );
    assert_eq!(output_dir(SLASH, "x"), None);
    assert_eq!(output_dir(SLASH, ""), None);
    let c = evaluated(config(), "eval_results/cat".to_string());
    assert_eq!(c.load_config.eval_split_every, Some(8));
    assert_eq!(c.process_config.export_path, "eval_results/cat");
    assert!(with_masks(c.load_config).load_masks);
    assert_eq!(eval_image_name(12), "eval_image_12.png");
}

#[test]
fn the_last_splats_are_kept() {
    let updated = || {
        Ok(ProcessMessage::SplatsUpdated {
            up_axis: None,
            frame: 0,
            total_frames: 1,
            num_splats: 1,
            sh_degree: 0,
        })
    };
    let mut run = TrainAndEval::new();
    assert!(matches!(run.on_message(&updated(), None), CaptureStep::Continue));
    assert_eq!(run.splats, None);
    run.on_message(&updated(), Some(SplatId { id: 4 }));
    run.on_message(&updated(), None);
    run.on_message(&Ok(ProcessMessage::DoneLoading), Some(SplatId { id: 5 }));
    assert_eq!(run.splats, Some(SplatId { id: 4 }));
    match run.on_message(&Err(failure()), None) {
        CaptureStep::Print { line } => assert_eq!(line, "Error during training: broken"),
        other => panic!("{:?}", other),
    }
    let done = Ok(ProcessMessage::TrainMessage(TrainMessage::DoneTraining));
    assert!(matches!(run.on_message(&done, None), CaptureStep::Stop));
}

fn meta() -> SplatMeta {
    SplatMeta {
        up_axis: None,
        current_frame: 3,
        frame_count: 8,
        progress: F32Bits { bits: 1.0f32.to_bits() },
    }
}

fn load(paths: &[&str], events: Vec<ViewEvent>) -> Vec<String> {
    let mut stream = view_stream(SLASH, paths.iter().map(|p| p.to_string()).collect());
    let mut log = Vec::new();
    for event in events {
        assert!(stream.accepts(&event));
        log.push(match stream.next(event) {
            ViewAction::Open { file } => format!("Open {}", stream.path(file)),
            ViewAction::EmitPart { file, meta, splats } => {
                match stream.message(file, meta, splats) {
                    ProcessMessage::ViewSplats { frame, total_frames, .. } => {
                        format!("Main {} of {}", frame, total_frames)
                    }
                    ProcessMessage::ViewAuxiliarySplat { name, .. } => format!("Aux {}", name),
                    other => panic!("{:?}", other),
                }
            }
            other => format!("{:?}", other),
        });
    }
    log
}

#[test]
fn splats_are_found_by_windows_paths() {
    let paths = vec!["C:\\scene\\full.ply".to_string(), "C:\\scene\\lens.ply".to_string()];
    let files = find_ply_files(PathStyle::Windows, &paths);
    assert_eq!(files[0].auxiliary, None);
    assert_eq!(files[1].auxiliary, Some("lens".to_string()));
    assert_eq!(
        output_dir(PathStyle::Windows, "C:\\objects\\cat\\nerfstudio_dataset"),
        Some("eval_results\\cat".to_string())
    );
}

#[test]
fn splats_are_loaded_in_order() {
    let part = || ViewEvent::Part { meta: meta(), splats: SplatId { id: 1 } };
    let log = load(
        &["lens10.ply", "notes.txt", "lens9.ply", "full.ply"],
        vec![
            ViewEvent::Done,
            ViewEvent::Done,
            ViewEvent::Done,
            part(),
            ViewEvent::Done,
            ViewEvent::Done,
            ViewEvent::End,
            ViewEvent::Done,
            ViewEvent::Done,
            part(),
            ViewEvent::Done,
            ViewEvent::Done,
            ViewEvent::End,
            ViewEvent::Done,
            ViewEvent::Done,
            ViewEvent::End,
            ViewEvent::Done,
            ViewEvent::Done,
        ],
    );
    assert_eq!(
        log,
        vec![
            "EmitStartLoading",
            "Open full.ply",
            "Read",
            "MemoryCleanup",
            "Main 0 of 4",
            "Read",
            "EmitStartLoading",
            "Open lens9.ply",
            "Read",
            "MemoryCleanup",
            "Aux lens9",
            "Read",
            "EmitStartLoading",
            "Open lens10.ply",
            "Read",
            "EmitDoneLoading",
            "MemoryCleanup",
            "Finish",
        ]
    );
}

#[test]
fn a_single_file_can_be_an_animation() {
    let log = load(
        &["full.ply"],
        vec![
            ViewEvent::Done,
            ViewEvent::Done,
            ViewEvent::Done,
            ViewEvent::Part { meta: meta(), splats: SplatId { id: 1 } },
            ViewEvent::Done,
        ],
    );
    assert_eq!(log[4], "Main 3 of 8");
}

#[test]
fn loading_ends_with_the_first_error() {
    let log = load(
        &["full.ply"],
        vec![ViewEvent::Done, ViewEvent::Done, ViewEvent::Failed { error: failure() }],
    );
    assert!(log[2].starts_with("Abort"));
    let log = load(&["a.txt"], vec![ViewEvent::Done, ViewEvent::Done, ViewEvent::Done]);
    assert_eq!(log, vec!["EmitDoneLoading", "MemoryCleanup", "Finish"]);
}

#[test]
fn only_ply_files_hold_splats() {
    let paths: Vec<String> =
        ["d/full.ply", "d/x.PLY", "e.ply.zip", "f/g.h.ply"].iter().map(|p| p.to_string()).collect();
    let files = find_ply_files(SLASH, &paths);
    assert_eq!(files.len(), 2);
    assert_eq!((files[0].index, files[0].auxiliary.clone()), (0, None));
    assert_eq!((files[1].index, files[1].auxiliary.clone()), (3, Some("g.h".to_string())));
    let aux = PlyFile { index: 0, path: String::new(), auxiliary: Some("n".to_string()) };
    assert!(matches!(
        part_message(&aux, 1, meta(), SplatId { id: 7 }),
        ProcessMessage::ViewAuxiliarySplat { splats: SplatId { id: 7 }, .. }
    ));
    assert_eq!(
        process_stream(),
        vec![
            ProcessStep::EmitNewSource,
            ProcessStep::Mount,
            ProcessStep::MemoryCleanup,
            ProcessStep::View
        ]
    );
}

#[test]
fn views_are_copied_with_their_neighbors() {
    let paths = vec!["a.png".to_string(), "b.png".to_string()];
    let copies = debug_copies("scene", "debug_images", &paths, &vec![vec![1], vec![0, 1]]);
    let pairs: Vec<(String, String)> = copies.into_iter().map(|c| (c.from, c.to)).collect();
    let want = [
        ("scene/a.png", "debug_images/00000.png"),
        ("scene/b.png", "debug_images/00000_neighbor_0.png"),
        ("scene/b.png", "debug_images/00001.png"),
        ("scene/a.png", "debug_images/00001_neighbor_0.png"),
        ("scene/b.png", "debug_images/00001_neighbor_1.png"),
    ];
    let want: Vec<(String, String)> =
        want.iter().map(|(a, b)| (a.to_string(), b.to_string())).collect();
    assert_eq!(pairs, want);
}
