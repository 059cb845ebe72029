//! What callers of the functions that plan work can rely on: drawing and the way back,
//! training, evaluating and scoring.

use crate::camera::{CameraView, UVec2};
use crate::config::{LoadConfig, SplatRenderMode, TrainStreamConfig};
use crate::density_control::{compute_gaussian_score, ScoreStep};
use crate::eval::{run_eval, EvalAction, EvalMode};
use crate::failure::Failure;
use crate::ffi::{
    run_training_logic, train_and_save, ProgressMessage, ProgressStep, TrainExitCode, TrainOptions,
    TrainingStep,
};
use crate::gpu::{Buffer, Dispatch, GpuOp, Kernel, Shape};
use crate::message::{ProcessMessage, TrainMessage, Vec3Bits};
use crate::num::{div_ceil, multiple_of};
use crate::render::{
    calc_tile_bounds, sh_coeffs_for_degree, sh_degree_from_coeffs, tile_count, FusedPicture, Fusion,
    MainBackendBase, ProjectHandles, ProjectOp, ProjectPlan, RasterizeMode, RasterizePlan,
    ShaderLayout, SplatShapes,
};
use crate::render_aux::{count_intersections, Fault, ProjectOutput, RenderAux};
use crate::render_bwd::{
    backward, render_backward, render_splats, BackwardInputs, BackwardPlan, BackwardRun,
    BackwardStep, GaussianBackwardState, Parent, RenderPlan,
};
use crate::render_laws::{
    group_per_tile, just_covers, law_degree_of_coefficients, law_own_gradient,
    law_second_pass_order, law_second_pass_work, law_tile_faults,
};
use crate::run_laws::law_planned_step;
use crate::train_stream::{is_schedulable, plan_step, StepPlan};
use vstd::prelude::*;
use vstd::string::*;

verus! {

/// Each input that wants a gradient is handed the one that was computed for it, after
/// everything was computed; no other input is handed any, and no two inputs are handed the
/// same one.
pub proof fn promise_backward(
    state: GaussianBackwardState,
    num_points: usize,
    wanted: [bool; 6],
    run: BackwardRun,
)
    requires
        call_ensures(backward, (&state, num_points, wanted), run),
    ensures
        ({
            let steps = run.steps@;
            &&& wanted@[0] <==> steps.contains(
                BackwardStep::Register { parent: Parent::Means, gradient: Buffer::VMeans },
            )
            &&& wanted@[1] <==> steps.contains(
                BackwardStep::Register {
                    parent: Parent::RefineWeight,
                    gradient: Buffer::VRefineWeight,
                },
            )
            &&& wanted@[2] <==> steps.contains(
                BackwardStep::Register { parent: Parent::LogScales, gradient: Buffer::VScales },
            )
            &&& wanted@[3] <==> steps.contains(
                BackwardStep::Register { parent: Parent::Quats, gradient: Buffer::VQuats },
            )
            &&& wanted@[4] <==> steps.contains(
                BackwardStep::Register { parent: Parent::Coeffs, gradient: Buffer::VCoeffs },
            )
            &&& wanted@[5] <==> steps.contains(
                BackwardStep::Register { parent: Parent::RawOpacity, gradient: Buffer::VRawOpac },
            )
            &&& steps.len() >= 3 && steps[0] is ConsumeOutput && steps[1] is RasterizeBwd
                && steps[2] is ProjectBwd
            &&& forall|i: int| 3 <= i < steps.len() ==> (#[trigger] steps[i]) is Register
            &&& forall|i: int, j: int|
                3 <= i < j < steps.len() ==> (#[trigger] steps[i])->parent != (
                #[trigger] steps[j])->parent && steps[i]->gradient != steps[j]->gradient
        }),
        run.project.sh_degree == state.sh_degree,
        run.project.render_mode == state.render_mode,
        run.project.project_uniforms == state.project_uniforms,
        run.rasterize.background == state.background,
        run.rasterize.img_size == state.img_size,
        run.project.call().grads.v_means is VMeans,
        run.project.call().grads.v_scales is VScales,
        run.project.call().grads.v_quats is VQuats,
        run.project.call().grads.v_coeffs is VCoeffs,
        run.project.call().grads.v_raw_opac is VRawOpac,
        run.project.call().grads.v_refine_weight is VRefineWeight,
        run.project.call().rasterize_grads == run.rasterize.call().grads,
{
    law_own_gradient(wanted@);
}

/// The second pass launches each of its kernels once, and gives it all the work that there
/// is: where tiles begin and end is looked for among exactly as many items as there are
/// intersections, whatever the size of the picture.
pub proof fn promise_rasterize(
    output: ProjectHandles,
    num_intersections: u32,
    background: Vec3Bits,
    mode: RasterizeMode,
    has_mask: bool,
    layout: ShaderLayout,
    plan: RasterizePlan,
    i: int,
)
    requires
        call_ensures(
            MainBackendBase::rasterize,
            (&output, num_intersections, background, mode, has_mask, layout),
            plan,
        ),
        layout.tile_width > 0,
        tile_count(output.img_size, layout.tile_width) <= u32::MAX,
        0 <= i < plan.ops@.len(),
    ensures
        plan.ops@[i] matches GpuOp::Launch { kernel, dispatch } ==> {
            &&& kernel is GetTileOffsets <==> i == 6
            &&& kernel is GetTileOffsets ==> dispatch == (Dispatch::Items {
                count: num_intersections,
            })
            &&& kernel is MapGaussiansToIntersect <==> i == 2
            &&& kernel is MapGaussiansToIntersect ==> dispatch == (Dispatch::Counted {
                by: Buffer::NumVisible,
            })
            &&& kernel is Rasterize <==> i == 10
            &&& kernel is Rasterize ==> group_per_tile(dispatch, output.img_size, layout.tile_width)
        },
        plan.ops@.len() == 11,
        plan.ops@[6] == (GpuOp::Launch {
            kernel: Kernel::GetTileOffsets,
            dispatch: Dispatch::Items { count: num_intersections },
        }),
        plan.ops@[5] == (GpuOp::Constant {
            buffer: Buffer::NumIntersections,
            value: num_intersections,
        }),
        plan.aux.num_intersections == num_intersections,
        plan.aux.img_size == output.img_size,
        plan.uniforms.background.x == background.x,
        plan.uniforms.background.y == background.y,
        plan.uniforms.background.z == background.z,
{
    law_second_pass_work(
        output.total_splats,
        output.img_size,
        num_intersections,
        mode,
        layout,
        i,
    );
    law_second_pass_order(output.total_splats, output.img_size, num_intersections, mode, layout);
    law_second_pass_work(
        output.total_splats,
        output.img_size,
        num_intersections,
        mode,
        layout,
        5,
    );
    law_second_pass_work(
        output.total_splats,
        output.img_size,
        num_intersections,
        mode,
        layout,
        6,
    );
}

/// The first pass looks at every splat once, and projects those that can be seen.
pub proof fn promise_project(
    shapes: SplatShapes,
    camera: CameraView,
    img_size: UVec2,
    render_mode: SplatRenderMode,
    layout: ShaderLayout,
    plan: ProjectPlan,
    n: usize,
)
    requires
        call_ensures(
            MainBackendBase::project,
            (&shapes, camera, img_size, render_mode, layout),
            plan,
        ),
        shapes.means == (Shape::D2 { a: n, b: 3 }),
        n < 0x1_0000_0000,
    ensures
        plan.ops@.len() == 14,
        plan.ops@[8] == (GpuOp::Launch {
            kernel: Kernel::ProjectSplats { mip: render_mode is Mip },
            dispatch: Dispatch::Items { count: n as u32 },
        }),
        plan.ops@[12] == (GpuOp::Launch {
            kernel: Kernel::ProjectVisible { mip: render_mode is Mip },
            dispatch: Dispatch::Counted { by: Buffer::NumVisible },
        }),
        plan.output.total_splats == n,
        plan.output.project_uniforms.total_splats == n,
        plan.output.project_uniforms.viewmat == camera.viewmat,
        plan.output.project_uniforms.focal == camera.focal,
        plan.output.project_uniforms.pixel_center == camera.center,
        plan.output.project_uniforms.img_size == img_size,
        plan.output.img_size == img_size,
{
}

/// The way back is launched for all tiles and for all splats, and its gradients are where
/// their names say.
pub proof fn promise_render_backward(inputs: BackwardInputs, tile_width: u32, plan: BackwardPlan)
    requires
        call_ensures(render_backward, (inputs, tile_width), plan),
        tile_width > 0,
        inputs.tiles(tile_width) <= u32::MAX,
        inputs.rows < 0x1_0000_0000,
        inputs.cols < 0x1_0000_0000,
        inputs.num_points < 0x1_0000_0000,
        (inputs.sh_degree + 1) * (inputs.sh_degree + 1) <= u32::MAX,
    ensures
        ({
            let n = plan.ops@.len();
            &&& n >= 2
            &&& plan.ops@[n - 2] matches GpuOp::Launch { kernel, dispatch } && kernel
                is RasterizeBackwards && group_per_tile(
                dispatch,
                UVec2 { x: inputs.cols as u32, y: inputs.rows as u32 },
                tile_width,
            )
            &&& plan.ops@[n - 1] == (GpuOp::Launch {
                kernel: Kernel::ProjectBackwards { render_depth: inputs.render_depth },
                dispatch: Dispatch::Items { count: inputs.num_points as u32 },
            })
        }),
        plan.grads.v_means is VMeans,
        plan.grads.v_quats is VQuats,
        plan.grads.v_scales is VScales,
        plan.grads.v_coeffs is VCoeffs,
        plan.grads.v_raw_opac is VRawOpac,
        plan.grads.v_refine_weight is VRefineWeight,
        plan.grads.v_normals == Some(Buffer::VNormals),
        plan.grads.v_plane_distances == Some(Buffer::VPlaneDistances),
{
    let n = plan.ops@.len() as int;
    crate::render_laws::law_way_back_order(inputs, tile_width);
    crate::render_laws::law_way_back_work(inputs, tile_width, n - 2);
    crate::render_laws::law_way_back_work(inputs, tile_width, n - 1);
}

/// A picture that can be gone back draws everything that was counted, on the background
/// that was asked for, and keeps what it was drawn from exactly if a gradient is wanted.
pub proof fn promise_render_splats(
    shapes: SplatShapes,
    camera: CameraView,
    img_size: UVec2,
    render_mode: SplatRenderMode,
    background: Vec3Bits,
    differentiable: bool,
    hits: u32,
    layout: ShaderLayout,
    plan: RenderPlan,
    n: usize,
)
    requires
        call_ensures(
            render_splats,
            (
                &shapes,
                camera,
                img_size,
                render_mode,
                background,
                differentiable,
                Some(hits),
                layout,
            ),
            plan,
        ),
        shapes.means == (Shape::D2 { a: n, b: 3 }),
        0 < n < 0x1_0000_0000,
    ensures
        plan.rasterize.num_intersections == hits,
        plan.rasterize.background == background,
        plan.rasterize.img_size == img_size,
        plan.rasterize.mode.bwd_info && !plan.rasterize.mode.high_error_info,
        plan.project.camera == camera,
        plan.project.img_size == img_size,
        plan.project.render_mode == render_mode,
        plan.output.img is OutImg,
        plan.output.render_aux.num_intersections == hits,
        plan.output.img_spec.shape == (Shape::D3 {
            a: img_size.y as usize,
            b: img_size.x as usize,
            c: 4,
        }),
        plan.state is Some <==> differentiable,
        plan.state matches Some(state) ==> {
            &&& state.background == background
            &&& state.render_mode == render_mode
            &&& state.img_size == img_size
            &&& state.sh_degree == state.project_uniforms.sh_degree
            &&& state.project_uniforms.viewmat == camera.viewmat
            &&& state.project_uniforms.total_splats == n
        },
{
}

/// Tiles cover a picture, and none of them lies outside of it.
pub proof fn promise_tiles(
    img_size: UVec2,
    tile_width: u32,
    tiles: UVec2,
    n: u32,
    d: u32,
    parts: u32,
)
    requires
        call_ensures(calc_tile_bounds, (img_size, tile_width), tiles),
        call_ensures(div_ceil, (n, d), parts),
        tile_width > 0,
        d > 0,
    ensures
        just_covers(tiles.x as int, tile_width, img_size.x),
        just_covers(tiles.y as int, tile_width, img_size.y),
        just_covers(parts as int, d, n),
{
    crate::num::lemma_ceil_div(img_size.x as int, tile_width as int);
    crate::num::lemma_ceil_div(img_size.y as int, tile_width as int);
    crate::num::lemma_ceil_div(n as int, d as int);
    assert((0 - 1) * tile_width < 0) by (nonlinear_arith)
        requires
            tile_width > 0,
    ;
    assert((0 - 1) * d < 0) by (nonlinear_arith)
        requires
            d > 0,
    ;
}

/// Degrees and numbers of coefficients fit each other, and so does what is a multiple.
pub proof fn promise_degrees(
    degree: u32,
    coeffs: u32,
    found: Option<u32>,
    n: u32,
    k: u32,
    multiple: bool,
)
    requires
        call_ensures(sh_coeffs_for_degree, (degree,), coeffs),
        call_ensures(sh_degree_from_coeffs, (coeffs,), found),
        call_ensures(multiple_of, (n, k), multiple),
        n > 0,
    ensures
        coeffs == (degree + 1) * (degree + 1),
        degree <= 4 ==> found == Some(degree),
        degree > 4 ==> found is None,
        multiple <==> exists|q: int| q >= 1 && n == #[trigger] (q * k),
{
    law_degree_of_coefficients(coeffs as int, degree);
    if let Some(d) = found {
        law_degree_of_coefficients(coeffs as int, d);
        if degree > 4 {
            assert((d + 1) * (d + 1) < (degree + 1) * (degree + 1)) by (nonlinear_arith)
                requires
                    0 <= d < degree,
            ;
        }
    }
    crate::run_laws::law_multiples_are_products(n as int, k as int);
}

/// What is read back from the device is counted and checked against how many splats there
/// are.
pub proof fn promise_intersections(total: u32, hit: Option<u32>, count: u32)
    requires
        call_ensures(count_intersections, (total, hit), count),
    ensures
        total == 0 ==> count == 0,
        hit is None ==> count == 0,
        total > 0 && hit is Some ==> count == hit->0,
{
}

/// A picture is found in order exactly if every tile ends no earlier than it begins and
/// holds no more splats than can be seen.
pub proof fn promise_tiles_checked(aux: RenderAux, found: Result<(), Fault>)
    requires
        call_ensures(RenderAux::validate, (&aux,), found),
    ensures
        found is Ok <==> forall|t: int|
            0 <= 2 * t && 2 * t + 1 < aux.tile_offsets@.len() ==> aux.tile_offsets@[2 * t]
                <= #[trigger] aux.tile_offsets@[2 * t + 1] <= aux.tile_offsets@[2 * t]
                + aux.num_visible,
{
    law_tile_faults(aux.tile_offsets@, aux.num_visible, 0);
}

/// The outcome of the first pass is found in order exactly if what can be seen is among
/// what there is.
pub proof fn promise_projection_checked(output: ProjectOutput, found: Result<(), Fault>)
    requires
        call_ensures(ProjectOutput::validate, (&output,), found),
        output.global_from_compact_gid@.len() == output.project_uniforms.total_splats,
        output.cum_tiles_hit@.len() == output.project_uniforms.total_splats,
    ensures
        found is Ok <==> output.num_visible <= output.project_uniforms.total_splats && forall|k:
            int|
            0 <= k < output.num_visible ==> (#[trigger] output.global_from_compact_gid@[k])
                < output.project_uniforms.total_splats,
{
    crate::render_laws::law_first_pass_faults(output, 0);
}

/// What a step of training is followed by: an export exactly if there is a disk and the
/// step is the last one or its number is a product of the interval; and likewise for all
/// that comes at intervals.
pub proof fn promise_plan_step(
    config: TrainStreamConfig,
    has_eval: bool,
    iter: u32,
    plan: StepPlan,
)
    requires
        call_ensures(plan_step, (&config, has_eval, iter), plan),
        iter < config.train_config.total_steps,
        config.process_config.eval_every > 0,
        config.has_disk ==> config.process_config.export_every > 0,
        iter > config.train_config.growth_stop_iter ==> config.train_config.refine_every_final > 0,
    ensures
        ({
            let last = iter + 1 == config.train_config.total_steps;
            &&& plan.next_iter == iter + 1
            &&& plan.is_last == last
            &&& plan.export <==> config.has_disk && (last || exists|k: int|
                k >= 1 && iter + 1 == #[trigger] (k * config.process_config.export_every))
            &&& plan.evaluate <==> has_eval && (last || exists|k: int|
                k >= 1 && iter + 1 == #[trigger] (k * config.process_config.eval_every))
            &&& plan.update_ui <==> last || exists|k: int|
                k >= 1 && iter + 1 == #[trigger] (k * 5)
            &&& plan.log_train_stats <==> last || exists|k: int|
                k >= 1 && iter + 1 == #[trigger] (k
                    * config.rerun_config.rerun_log_train_stats_every)
            &&& plan.log_splats <==> (config.rerun_config.rerun_log_splats_every matches Some(every)
                && (last || exists|k: int| k >= 1 && iter + 1 == #[trigger] (k * every)))
            &&& plan.save_to_disk <==> config.has_disk && config.process_config.eval_save_to_disk
            &&& plan.refine is Growth <==> 0 < iter < config.train_config.growth_stop_iter
                && exists|k: int|
                k >= 1 && iter == #[trigger] (k * config.train_config.refine_every)
            &&& plan.refine is Final <==> iter > config.train_config.growth_stop_iter && exists|k:
                int|
                k >= 1 && iter == #[trigger] (k * config.train_config.refine_every_final)
        }),
{
    law_planned_step(config, has_eval, iter as int);
    crate::run_laws::law_multiples_are_products(
        iter + 1,
        config.rerun_config.rerun_log_train_stats_every as int,
    );
    if let Some(every) = config.rerun_config.rerun_log_splats_every {
        crate::run_laws::law_multiples_are_products(iter + 1, every as int);
    }
    if iter > 0 {
        crate::run_laws::law_multiples_are_products(
            iter as int,
            config.train_config.refine_every as int,
        );
        crate::run_laws::law_multiples_are_products(
            iter as int,
            config.train_config.refine_every_final as int,
        );
    }
}

/// A run is well defined exactly if it has nothing to do, or nothing that it does comes at
/// an interval of zero.
pub proof fn promise_is_schedulable(config: TrainStreamConfig, r: bool)
    requires
        call_ensures(is_schedulable, (&config,), r),
    ensures
        r <==> {
            ||| config.process_config.start_iter >= config.train_config.total_steps
            ||| {
                &&& config.process_config.eval_every != 0
                &&& !config.has_disk || config.process_config.export_every != 0
                &&& config.train_config.total_steps <= config.train_config.growth_stop_iter + 1
                    || config.train_config.refine_every_final != 0
            }
        },
{
    crate::run_laws::law_well_defined_runs(config);
}

/// An evaluation reads, measures and adds up every view, and averages over all of them.
pub proof fn promise_run_eval(views: usize, mode: EvalMode, actions: Vec<EvalAction>, view: usize)
    requires
        call_ensures(run_eval, (views, mode), actions),
    ensures
        view < views <==> actions@.contains(EvalAction::Load { view }),
        view < views <==> actions@.contains(EvalAction::Measure { view }),
        view < views <==> actions@.contains(EvalAction::Add { view }),
        view < views && mode.save <==> actions@.contains(EvalAction::Save { view }),
        actions@.contains(EvalAction::Average { count: views }),
        mode.log <==> actions@.contains(EvalAction::EmitResult),
        mode.log <==> actions@.contains(EvalAction::LogStats),
{
    let head = crate::eval::views_actions(views as nat, mode);
    let tail = crate::eval::summary_actions(views as nat, mode);
    crate::eval::law_every_view(views as nat, mode, view, 0);
    crate::eval::law_averages(views as nat, mode);
    assert(actions@ == head + tail);
    assert(actions@[head.len() as int] == tail[0]);
    if mode.log {
        assert(actions@[head.len() as int + 1] == tail[1]);
        assert(actions@[head.len() as int + 2] == tail[2]);
    }
    assert forall|a: EvalAction| #[trigger] actions@.contains(a) <==> head.contains(a)
        || tail.contains(a) by {
        if head.contains(a) {
            let i = choose|i: int| 0 <= i < head.len() && head[i] == a;
            assert(actions@[i] == a);
        }
        if tail.contains(a) {
            let i = choose|i: int| 0 <= i < tail.len() && tail[i] == a;
            assert(actions@[head.len() + i] == a);
        }
        if actions@.contains(a) {
            let i = choose|i: int| 0 <= i < actions@.len() && actions@[i] == a;
            if i < head.len() {
                assert(head[i] == a);
            } else {
                assert(tail[i - head.len()] == a);
            }
        }
    }
}

/// Scoring looks at as many views as were asked for, begins by clearing the sums of all
/// splats, and ends by bringing them to scale.
pub proof fn promise_scores(num_splats: usize, n_views: i32, steps: Vec<ScoreStep>, view: int)
    requires
        call_ensures(compute_gaussian_score, (num_splats, n_views), steps),
        0 <= n_views,
    ensures
        steps@.len() == 7 * n_views + 2,
        steps@[0] == (ScoreStep::ClearSums { num_splats }),
        steps@[steps@.len() - 1] == (ScoreStep::Scale { n_views }),
        0 <= view < n_views ==> {
            &&& steps@[7 * view + 1] is NextBatch
            &&& steps@[7 * view + 4] matches ScoreStep::Rasterize { mode, masked, .. } && !masked
                && mode.bwd_info && !mode.high_error_info
            &&& steps@[7 * view + 5] matches ScoreStep::MarkErrors { channels } && channels == 3
            &&& steps@[7 * view + 6] matches ScoreStep::Rasterize { mode, masked, .. } && masked
                && mode.bwd_info && mode.high_error_info
            &&& steps@[7 * view + 7] is AddCounts
        },
{
    let n = crate::density_control::view_count(n_views);
    crate::density_control::law_view_count(n_views);
    let all = crate::density_control::views_steps(n);
    if n_views > 0 {
        crate::density_control::law_steps_of_every_view(n, 0);
    }
    if 0 <= view < n_views {
        crate::density_control::law_steps_of_every_view(n, view);
        assert(steps@[7 * view + 1] == all[7 * view]);
        assert(steps@[7 * view + 4] == all[7 * view + 3]);
        assert(steps@[7 * view + 5] == all[7 * view + 4]);
        assert(steps@[7 * view + 6] == all[7 * view + 5]);
        assert(steps@[7 * view + 7] == all[7 * view + 6]);
    }
}

/// What a caller in another language gets: numbers for the two ways to end, the settings
/// that it gave and the defaults for the rest, and an error for anything that is missing.
pub proof fn promise_training_calls(
    code: TrainExitCode,
    number: u32,
    options: TrainOptions,
    defaults: TrainStreamConfig,
    config: TrainStreamConfig,
    dataset: Option<String>,
    asked: Option<TrainOptions>,
    step: TrainingStep,
    ended: Option<TrainExitCode>,
    result: TrainExitCode,
)
    requires
        call_ensures(TrainExitCode::code, (&code,), number),
        call_ensures(TrainOptions::into_train_stream_config, (options, defaults), config),
        call_ensures(run_training_logic, (dataset, asked), step),
        call_ensures(train_and_save, (ended,), result),
    ensures
        number == 0 <==> code is Success,
        number == 1 <==> code is Error,
        config.train_config.total_steps == options.total_steps,
        config.train_config.refine_every == options.refine_every,
        config.load_config.max_resolution == options.max_resolution,
        config.process_config.export_every == options.export_every,
        config.process_config.eval_save_to_disk,
        options.output_path matches Some(path) ==> config.process_config.export_path == path,
        options.output_path is None ==> config.process_config.export_path
            == defaults.process_config.export_path,
        config.train_config.growth_stop_iter == defaults.train_config.growth_stop_iter,
        config.train_config.refine_every_final == defaults.train_config.refine_every_final,
        config.train_config.render_mode == defaults.train_config.render_mode,
        config.load_config.eval_split_every == defaults.load_config.eval_split_every,
        config.load_config.load_masks == defaults.load_config.load_masks,
        config.process_config.seed == defaults.process_config.seed,
        config.process_config.start_iter == defaults.process_config.start_iter,
        config.process_config.eval_every == defaults.process_config.eval_every,
        config.process_config.export_name == defaults.process_config.export_name,
        config.model_config == defaults.model_config,
        config.rerun_config == defaults.rerun_config,
        config.has_disk == defaults.has_disk,
        step is Start <==> dataset is Some && asked is Some,
        step matches TrainingStep::Start { dataset: d, options: o } ==> Some(d) == dataset
            && Some(o) == asked,
        step matches TrainingStep::Exit { code: c } ==> c is Error,
        ended matches Some(c) ==> result == c,
        ended is None ==> result is Error,
{
}

/// What the caller hears of each message, and when listening ends.
pub proof fn promise_progress(
    message: Result<ProcessMessage, Failure>,
    step: ProgressStep,
    over: ProgressStep,
)
    requires
        call_ensures(crate::ffi::on_progress, (Some(&message),), step),
        call_ensures(crate::ffi::on_progress, (None::<&Result<ProcessMessage, Failure>>,), over),
    ensures
        over == (ProgressStep::Exit { code: TrainExitCode::Success }),
        message is Err ==> step == (ProgressStep::Exit { code: TrainExitCode::Error }),
        message matches Ok(m) ==> {
            &&& m matches ProcessMessage::TrainMessage(TrainMessage::TrainStep { iter, .. })
                ==> step == (ProgressStep::Report { message: ProgressMessage::Training { iter } })
            &&& m matches ProcessMessage::TrainMessage(TrainMessage::DoneTraining) ==> step == (
            ProgressStep::Report { message: ProgressMessage::DoneTraining })
            &&& m is NewProcess ==> step == (ProgressStep::Report {
                message: ProgressMessage::NewProcess,
            })
            &&& m matches ProcessMessage::VisualizationUpdated { image, width, height } ==> (step
                matches ProgressStep::Report {
                message: ProgressMessage::VisualizationUpdated { len, width: w, height: h },
            } && w == width && h == height && (image@.len() < 0x1_0000_0000 ==> len
                == image@.len()))
            &&& !(step is Exit)
        },
{
}

/// A run that is evaluated afterwards holds every eighth view out, writes where it is told
/// to, and keeps all its other settings; masks are read along for the evaluation.
pub proof fn promise_evaluated(
    config: TrainStreamConfig,
    dir: String,
    r: TrainStreamConfig,
    load: LoadConfig,
    masked: LoadConfig,
)
    requires
        call_ensures(crate::capture::evaluated, (config, dir), r),
        call_ensures(crate::capture::with_masks, (load,), masked),
    ensures
        r.load_config.eval_split_every == Some(8u32),
        r.load_config.max_resolution == config.load_config.max_resolution,
        r.load_config.load_masks == config.load_config.load_masks,
        r.process_config.export_path == dir,
        r.process_config.export_every == config.process_config.export_every,
        r.process_config.eval_every == config.process_config.eval_every,
        r.process_config.seed == config.process_config.seed,
        r.process_config.start_iter == config.process_config.start_iter,
        r.train_config == config.train_config,
        masked.load_masks,
        masked.max_resolution == load.max_resolution,
        masked.eval_split_every == load.eval_split_every,
{
}

/// A second pass that is put off gets the mask exactly if errors are counted on the way to
/// a gradient, and is performed with all that it was asked with.
pub proof fn promise_deferred_picture(
    output: ProjectHandles,
    num_intersections: u32,
    background: Vec3Bits,
    mode: RasterizeMode,
    has_mask: bool,
    layout: ShaderLayout,
    picture: FusedPicture,
)
    requires
        call_ensures(
            Fusion::rasterize,
            (&output, num_intersections, background, mode, has_mask, layout),
            picture,
        ),
    ensures
        picture.mask is Given <==> mode.bwd_info && mode.high_error_info,
        picture.op.num_intersections == num_intersections,
        picture.op.background == background,
        picture.op.mode == mode,
        picture.op.img_size == output.img_size,
        picture.op.project_uniforms == output.project_uniforms,
        picture.op.desc.name@ == "rasterize"@,
        picture.aux.num_intersections == num_intersections,
        picture.aux.num_visible == output.num_visible,
        picture.aux.img_size == output.img_size,
        picture.aux.visible is Visible,
        picture.aux.tile_offsets is TileOffsets,
        picture.aux.high_error_count is HighErrorCount,
        picture.out_img is OutImg,
        picture.isects is SortedCompactGids,
{
}

/// A first pass that is put off is performed with all that it was asked with.
pub proof fn promise_deferred_projection(
    shapes: SplatShapes,
    camera: CameraView,
    img_size: UVec2,
    render_mode: SplatRenderMode,
    layout: ShaderLayout,
    r: (ProjectOp, ProjectHandles),
    later: ProjectPlan,
)
    requires
        call_ensures(Fusion::project, (&shapes, camera, img_size, render_mode, layout), r),
        call_ensures(ProjectOp::execute, (&r.0, &shapes, layout), later),
    ensures
        r.0.desc.name@ == "project_prepare"@,
        r.0.camera == camera,
        r.0.img_size == img_size,
        r.0.render_mode == render_mode,
        later.output == r.1,
        r.1.img_size == img_size,
        r.1.project_uniforms.viewmat == camera.viewmat,
        r.1.project_uniforms.img_size == img_size,
{
}

/// The way back that is put off goes under its own names.
pub proof fn promise_deferred_way_back(
    state: GaussianBackwardState,
    num_points: usize,
    wanted: [bool; 6],
    run: BackwardRun,
)
    requires
        call_ensures(backward, (&state, num_points, wanted), run),
    ensures
        run.rasterize.desc.name@ == "rasterize_bwd"@,
        run.project.desc.name@ == "project_bwd"@,
        run.rasterize.desc.outputs@.len() == 3,
        run.rasterize.desc.outputs@[0].1.shape == (Shape::D2 { a: num_points, b: 8 }),
        run.project.desc.outputs@.len() == 6,
        run.project.desc.outputs@[0].1.shape == (Shape::D2 { a: num_points, b: 3 }),
        run.project.desc.outputs@[1].1.shape == (Shape::D2 { a: num_points, b: 4 }),
        run.project.desc.outputs@[2].1.shape == (Shape::D2 { a: num_points, b: 3 }),
{
}

/// What is read back from the device is kept as it was read.
pub proof fn promise_read_back(
    output: ProjectHandles,
    num_visible: u32,
    gids: Vec<u32>,
    hits: Vec<u32>,
    r: ProjectOutput,
    count: u32,
    plan: crate::render::AuxPlan,
    visible: Vec<crate::num::F32Bits>,
    offsets: Vec<u32>,
    errors: Vec<u32>,
    aux: RenderAux,
)
    requires
        call_ensures(ProjectOutput::read, (&output, num_visible, gids, hits), r),
        call_ensures(ProjectOutput::read_num_intersections, (&r,), count),
        call_ensures(RenderAux::read, (&plan, num_visible, visible, offsets, errors), aux),
        hits@.len() == output.project_uniforms.total_splats,
    ensures
        r.num_visible == num_visible,
        r.global_from_compact_gid == gids,
        r.cum_tiles_hit == hits,
        r.img_size == output.img_size,
        r.project_uniforms == output.project_uniforms,
        hits@.len() == 0 ==> count == 0,
        hits@.len() > 0 ==> count == hits@[hits@.len() - 1],
        aux.num_visible == num_visible,
        aux.num_intersections == plan.num_intersections,
        aux.visible == visible,
        aux.tile_offsets == offsets,
        aux.img_size == plan.img_size,
        aux.high_error_count == errors,
{
}

/// Over each tile lie as many splats as there are from its beginning to its end.
pub proof fn promise_tile_depth(aux: RenderAux, tile_width: u32, r: (Vec<u32>, u32, u32), i: int)
    requires
        call_ensures(RenderAux::calc_tile_depth, (&aux, tile_width), r),
        tile_width > 0,
        0 <= i < r.0@.len(),
    ensures
        just_covers(r.1 as int, tile_width, aux.img_size.y),
        just_covers(r.2 as int, tile_width, aux.img_size.x),
        r.0@.len() == r.1 * r.2,
        aux.tile_offsets@[2 * i] <= aux.tile_offsets@[2 * i + 1] ==> r.0@[i]
            + aux.tile_offsets@[2 * i] == aux.tile_offsets@[2 * i + 1],
{
    assert(r.0@[i] == crate::render_aux::tile_depth(
        aux.tile_offsets@[2 * i],
        aux.tile_offsets@[2 * i + 1],
    ));
    crate::num::lemma_ceil_div(aux.img_size.x as int, tile_width as int);
    crate::num::lemma_ceil_div(aux.img_size.y as int, tile_width as int);
    assert((0 - 1) * tile_width < 0) by (nonlinear_arith)
        requires
            tile_width > 0,
    ;
    assert(r.1 * r.2 == r.2 * r.1) by (nonlinear_arith);
}

/// A fault names its numbers, each in its place.
pub proof fn promise_fault_texts(fault: Fault, text: String)
    requires
        call_ensures(Fault::message, (&fault,), text),
    ensures
        match fault {
            Fault::TooManyVisible { num_visible, total_splats } => text@ == "num_visible ("@
                + crate::text::decimal(num_visible as nat) + ") > total_splats ("@
                + crate::text::decimal(total_splats as nat) + ")"@,
            Fault::UnknownSplat { gid, total_splats } => text@
                == "Invalid gaussian ID in global_from_compact_gid: "@ + crate::text::decimal(
                gid as nat,
            ) + " >= "@ + crate::text::decimal(total_splats as nat),
            Fault::TileReversed { start, end } => text@ == "Invalid tile offsets: start "@
                + crate::text::decimal(start as nat) + " > end "@ + crate::text::decimal(
                end as nat,
            ),
            Fault::TileTooFull { hits, num_visible } => text@ == "Tile has more hits ("@
                + crate::text::decimal(hits as nat) + ") than visible splats ("@
                + crate::text::decimal(num_visible as nat) + ")"@,
        },
{
}

} // verus!
