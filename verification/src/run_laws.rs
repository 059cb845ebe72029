//! When a training run does what: each kind of action by the numbers of the steps after
//! which it comes, and the order of all actions.

use crate::config::TrainStreamConfig;
use crate::failure::Failure;
use crate::message::{ProcessMessage, TrainMessage};
use crate::num::is_multiple;
use crate::text::decimal;
use crate::train_laws::{law_run_without_failures, Course};
use crate::train_stream::{
    and_if, announces, answers, awaits, closing_actions, dataset_warnings, plannable, refine_due,
    report_actions, schedulable, startup_actions, step_plan, training_actions,
    RefineKind, RefineStats, RunFacts, RunState, SplatSource, StepPlan, TrainAction, TrainEvent,
    UpAxis, WarningContext,
};
use vstd::prelude::*;
use vstd::string::*;

verus! {

/// The actions that a run hands out from its beginning to its end, when nothing fails.
pub open spec fn run(c: Course, config: TrainStreamConfig) -> Seq<TrainAction> {
    c.trace(RunState::start(config), TrainEvent::Done, c.whole(config).len())
}

/// Where the actions of iteration `iter` begin among those of all iterations from `from`
/// on.
spec fn begin(c: Course, config: TrainStreamConfig, from: int, iter: int) -> int
    decreases iter - from,
{
    if iter <= from {
        0
    } else {
        begin(c, config, from, iter - 1) + c.iteration(config, iter - 1).len()
    }
}

proof fn lemma_begin_shift(c: Course, config: TrainStreamConfig, from: int, iter: int)
    requires
        from < iter,
    ensures
        begin(c, config, from, iter) == c.iteration(config, from).len() + begin(
            c,
            config,
            from + 1,
            iter,
        ),
    decreases iter - from,
{
    if iter > from + 1 {
        lemma_begin_shift(c, config, from, iter - 1);
    } else {
        assert(begin(c, config, from, from) == 0);
        assert(begin(c, config, from + 1, from + 1) == 0);
    }
}

proof fn lemma_begin_grows(c: Course, config: TrainStreamConfig, from: int, i: int, j: int)
    requires
        from <= i < j,
    ensures
        begin(c, config, from, i) + c.iteration(config, i).len() <= begin(c, config, from, j),
    decreases j - i,
{
    if j > i + 1 {
        lemma_begin_grows(c, config, from, i, j - 1);
    }
}

/// An iteration stands in the run as it is.
proof fn lemma_block(c: Course, config: TrainStreamConfig, from: int, iter: int, q: int)
    requires
        from <= iter < config.train_config.total_steps,
        0 <= q < c.iteration(config, iter).len(),
    ensures
        0 <= begin(c, config, from, iter) + q < c.iterations(config, from).len() - 2,
        c.iterations(config, from)[begin(c, config, from, iter) + q] == c.iteration(
            config,
            iter,
        )[q],
    decreases iter - from,
{
    let now = c.iteration(config, from);
    let later = c.iterations(config, from + 1);
    lemma_at_least_two(c, config, from + 1);
    assert(c.iterations(config, from) == now + later);
    if from < iter {
        lemma_block(c, config, from + 1, iter, q);
        lemma_begin_shift(c, config, from, iter);
    }
}

proof fn lemma_at_least_two(c: Course, config: TrainStreamConfig, from: int)
    ensures
        c.iterations(config, from).len() >= 2,
    decreases config.train_config.total_steps - from,
{
    if from < config.train_config.total_steps {
        lemma_at_least_two(c, config, from + 1);
    }
}

/// What is done in a run is done in one of its iterations, or at its end.
proof fn lemma_locate(c: Course, config: TrainStreamConfig, from: int, p: int) -> (iter: int)
    requires
        0 <= p < c.iterations(config, from).len() - 2,
    ensures
        from <= iter < config.train_config.total_steps,
        begin(c, config, from, iter) <= p < begin(c, config, from, iter) + c.iteration(
            config,
            iter,
        ).len(),
    decreases config.train_config.total_steps - from,
{
    assert(closing_actions().len() == 2);
    let now = c.iteration(config, from);
    assert(c.iterations(config, from) == now + c.iterations(config, from + 1));
    if p < now.len() {
        from
    } else {
        let iter = lemma_locate(c, config, from + 1, p - now.len());
        lemma_begin_shift(c, config, from, iter);
        iter
    }
}

proof fn lemma_and_if(s: Seq<TrainAction>, due: bool, action: TrainAction, a: TrainAction)
    ensures
        and_if(s, due, action).contains(a) <==> s.contains(a) || (due && a == action),
{
    reveal(and_if);
    let t = and_if(s, due, action);
    if s.contains(a) {
        let i = choose|i: int| 0 <= i < s.len() && s[i] == a;
        assert(t[i] == a);
    }
    if due && a == action {
        assert(t[t.len() - 1] == a);
    }
    if t.contains(a) {
        let i = choose|i: int| 0 <= i < t.len() && t[i] == a;
        if i < s.len() {
            assert(s[i] == a);
        }
    }
}

/// Whether `a` is reported after an iteration.
spec fn reported(
    config: TrainStreamConfig,
    plan: StepPlan,
    stats: RefineStats,
    degree: u32,
    a: TrainAction,
) -> bool {
    match a {
        TrainAction::Evaluate { iter, save_to_disk } => plan.evaluate && iter == plan.next_iter
            && save_to_disk == plan.save_to_disk,
        TrainAction::ExportCheckpoint { iter } => plan.export && iter == plan.next_iter,
        TrainAction::LogSplatStats { iter, total_splats } => iter == plan.next_iter
            && total_splats == stats.total_splats,
        TrainAction::LogSplats { iter } => plan.log_splats && iter == plan.next_iter,
        TrainAction::LogTrainStats { iter } => plan.log_train_stats && iter == plan.next_iter,
        TrainAction::LogMemory { iter } => iter == plan.next_iter,
        TrainAction::LogRefineStats { iter, stats: s } => stats.num_added > 0 && iter
            == plan.next_iter && s == stats,
        TrainAction::EmitRefineStep { iter, cur_splat_count } => stats.num_added > 0 && iter
            == plan.next_iter && cur_splat_count == stats.total_splats,
        TrainAction::EmitSplatsUpdated { up_axis, num_splats, sh_degree } => plan.update_ui
            && up_axis is Unchanged && num_splats == stats.total_splats && sh_degree == degree,
        TrainAction::EmitTrainStep { iter, total_steps } => plan.update_ui && iter
            == plan.next_iter && total_steps == config.train_config.total_steps,
        _ => false,
    }
}

proof fn lemma_reported(
    config: TrainStreamConfig,
    plan: StepPlan,
    stats: RefineStats,
    degree: u32,
    a: TrainAction,
)
    ensures
        report_actions(config, plan, stats, degree).contains(a) <==> reported(
            config,
            plan,
            stats,
            degree,
            a,
        ),
{
    let iter = plan.next_iter;
    let save_to_disk = plan.save_to_disk;
    let total_splats = stats.total_splats;
    let total_steps = config.train_config.total_steps;
    let added = stats.num_added > 0;
    let shown = TrainAction::EmitSplatsUpdated {
        up_axis: UpAxis::Unchanged,
        num_splats: total_splats,
        sh_degree: degree,
    };
    let refined = TrainAction::EmitRefineStep { iter, cur_splat_count: total_splats };
    let told = TrainAction::EmitTrainStep { iter, total_steps };
    let s0 = Seq::empty();
    let s1 = and_if(s0, plan.evaluate, TrainAction::Evaluate { iter, save_to_disk });
    let s2 = and_if(s1, plan.export, TrainAction::ExportCheckpoint { iter });
    let s3 = and_if(s2, true, TrainAction::LogSplatStats { iter, total_splats });
    let s4 = and_if(s3, plan.log_splats, TrainAction::LogSplats { iter });
    let s5 = and_if(s4, plan.log_train_stats, TrainAction::LogTrainStats { iter });
    let s6 = and_if(s5, true, TrainAction::LogMemory { iter });
    let s7 = and_if(s6, added, TrainAction::LogRefineStats { iter, stats });
    let s8 = and_if(s7, added, refined);
    let s9 = and_if(s8, plan.update_ui, shown);
    lemma_and_if(s0, plan.evaluate, TrainAction::Evaluate { iter, save_to_disk }, a);
    lemma_and_if(s1, plan.export, TrainAction::ExportCheckpoint { iter }, a);
    lemma_and_if(s2, true, TrainAction::LogSplatStats { iter, total_splats }, a);
    lemma_and_if(s3, plan.log_splats, TrainAction::LogSplats { iter }, a);
    lemma_and_if(s4, plan.log_train_stats, TrainAction::LogTrainStats { iter }, a);
    lemma_and_if(s5, true, TrainAction::LogMemory { iter }, a);
    lemma_and_if(s6, added, TrainAction::LogRefineStats { iter, stats }, a);
    lemma_and_if(s7, added, refined, a);
    lemma_and_if(s8, plan.update_ui, shown, a);
    lemma_and_if(s9, plan.update_ui, told, a);
}

/// Whether `a` comes up in iteration `iter`.
spec fn comes_up(c: Course, config: TrainStreamConfig, iter: int, a: TrainAction) -> bool {
    let kind = refine_due(config.train_config, iter);
    match a {
        TrainAction::TrainStep { iter: i } => i == iter,
        TrainAction::ScoreSplats { n_views, error_threshold } => !(kind is Skip) && n_views
            == config.train_config.n_views && error_threshold
            == config.train_config.high_error_threshold,
        TrainAction::Refine { iter: i, kind: k } => i == iter && k == kind,
        _ => reported(
            config,
            step_plan(config, c.has_eval, iter),
            (c.stats)(iter),
            c.sh_degree,
            a,
        ),
    }
}

proof fn lemma_comes_up(c: Course, config: TrainStreamConfig, iter: int, a: TrainAction)
    requires
        0 <= iter < config.train_config.total_steps,
    ensures
        c.iteration(config, iter).contains(a) <==> comes_up(c, config, iter, a),
{
    let first = training_actions(config, iter);
    let plan = step_plan(config, c.has_eval, iter);
    let report = report_actions(config, plan, (c.stats)(iter), c.sh_degree);
    let all = c.iteration(config, iter);
    lemma_reported(config, plan, (c.stats)(iter), c.sh_degree, a);
    assert(all == first + report);
    if report.contains(a) {
        let i = choose|i: int| 0 <= i < report.len() && report[i] == a;
        assert(all[first.len() + i] == a);
    }
    if first.contains(a) {
        let i = choose|i: int| 0 <= i < first.len() && first[i] == a;
        assert(all[i] == a);
    }
    if all.contains(a) {
        let i = choose|i: int| 0 <= i < all.len() && all[i] == a;
        if i < first.len() {
            assert(first[i] == a);
        } else {
            assert(report[i - first.len()] == a);
        }
    }
    if comes_up(c, config, iter, a) {
        if a is TrainStep {
            assert(first[0] == a);
        } else if a is ScoreSplats {
            assert(first[1] == a);
        } else if a is Refine {
            assert(first[first.len() - 1] == a);
        }
    }
    if first.contains(a) {
        let i = choose|i: int| 0 <= i < first.len() && first[i] == a;
    }
}

/// How many actions a run does before its first iteration.
spec fn lead(c: Course) -> int {
    13 + c.warnings@.len() as int
}

/// What comes up in a run behind its beginning comes up in one of its iterations, and the
/// other way round.
proof fn lemma_in_run(c: Course, config: TrainStreamConfig, a: TrainAction)
    requires
        schedulable(config),
        a is TrainStep || a is ScoreSplats || a is Refine || a is Evaluate || a is ExportCheckpoint
            || a is LogSplatStats || a is LogSplats || a is LogTrainStats || a is LogMemory || a
            is LogRefineStats || a is EmitRefineStep || a is EmitTrainStep,
    ensures
        run(c, config).contains(a) <==> exists|iter: int|
            config.process_config.start_iter <= iter < config.train_config.total_steps
                && #[trigger] comes_up(c, config, iter, a),
{
    law_run_without_failures(c, config);
    let all = c.whole(config);
    let from = config.process_config.start_iter as int;
    let rest = c.iterations(config, from);
    assert(all.len() == lead(c) + rest.len());
    if all.contains(a) {
        let p = choose|p: int| 0 <= p < all.len() && all[p] == a;
        lemma_lead(c, config, p);
        lemma_tail(c, config, from);
        assert(p >= lead(c));
        assert(all[p] == rest[p - lead(c)]);
        assert(p - lead(c) < rest.len() - 2);
        let iter = lemma_locate(c, config, from, p - lead(c));
        let q = p - lead(c) - begin(c, config, from, iter);
        lemma_block(c, config, from, iter, q);
        assert(c.iteration(config, iter)[q] == a);
        lemma_comes_up(c, config, iter, a);
    }
    if exists|iter: int|
        config.process_config.start_iter <= iter < config.train_config.total_steps
            && #[trigger] comes_up(c, config, iter, a) {
        let iter = choose|iter: int|
            config.process_config.start_iter <= iter < config.train_config.total_steps
                && #[trigger] comes_up(c, config, iter, a);
        lemma_comes_up(c, config, iter, a);
        let now = c.iteration(config, iter);
        let q = choose|q: int| 0 <= q < now.len() && now[q] == a;
        lemma_block(c, config, from, iter, q);
        assert(all[lead(c) + begin(c, config, from, iter) + q] == a);
    }
}

/// Nothing of an iteration comes up before the first one.
proof fn lemma_lead(c: Course, config: TrainStreamConfig, p: int)
    requires
        0 <= p < c.whole(config).len(),
    ensures
        p < lead(c) ==> {
            let a = c.whole(config)[p];
            a is EmitTrainConfig || a is CreateVisualizer || a is SeedBackend || a is SeedRng || a
                is LoadDataset || a is EmitDatasetWarning || a is LogScene || a is EmitDataset || a
                is InitSplats || a is EmitSplatsUpdated || a is EmitDoneLoading || a
                is MemoryCleanup || a is PrepareTrainer
        },
{
    let start = startup_actions(config);
    let loading = c.loading(config);
    let all = c.whole(config);
    if p < 5 {
        assert(all[p] == start[p]);
    } else if p < lead(c) {
        assert(all[p] == loading[p - 5]);
        if p - 5 < c.warnings@.len() {
            assert(loading[p - 5] == dataset_warnings(c.warnings@)[p - 5]);
        }
    }
}

proof fn lemma_tail(c: Course, config: TrainStreamConfig, from: int)
    ensures
        ({
            let all = c.iterations(config, from);
            &&& all.len() >= 2
            &&& all[all.len() - 2] is EmitDoneTraining
            &&& all[all.len() - 1] is Finish
        }),
    decreases config.train_config.total_steps - from,
{
    if from < config.train_config.total_steps {
        lemma_tail(c, config, from + 1);
        let later = c.iterations(config, from + 1);
        let all = c.iterations(config, from);
        assert(all == c.iteration(config, from) + later);
        assert(all[all.len() - 2] == later[later.len() - 2]);
        assert(all[all.len() - 1] == later[later.len() - 1]);
    }
}

/// A number above zero is a multiple of another one exactly if it is a product of it.
pub proof fn law_multiples_are_products(n: int, every: int)
    requires
        n >= 1,
        every >= 0,
    ensures
        is_multiple(n, every) <==> exists|k: int| k >= 1 && n == #[trigger] (k * every),
        every > 0 ==> (n % every == 0 <==> exists|k: int| k >= 1 && n == #[trigger] (k * every)),
{
    if every > 0 {
        if n % every == 0 {
            let k = n / every;
            assert(n == k * every && k >= 1) by (nonlinear_arith)
                requires
                    k == n / every,
                    n % every == 0,
                    n >= 1,
                    every > 0,
            ;
        }
        if exists|k: int| k >= 1 && n == #[trigger] (k * every) {
            let k = choose|k: int| k >= 1 && n == #[trigger] (k * every);
            assert(n % every == 0) by (nonlinear_arith)
                requires
                    n == k * every,
                    every > 0,
            ;
        }
    } else {
        assert forall|k: int| k >= 1 implies n != #[trigger] (k * every) by {
            assert(k * every == 0) by (nonlinear_arith)
                requires
                    every == 0,
            ;
        }
    }
}

/// An action that names its step comes up in the iteration of that step, if anywhere.
proof fn lemma_at_step(c: Course, config: TrainStreamConfig, a: TrainAction)
    requires
        schedulable(config),
        place_in_run(a) is Some,
    ensures
        ({
            let n = (place_in_run(a)->0).0;
            run(c, config).contains(a) <==> config.process_config.start_iter < n
                <= config.train_config.total_steps && comes_up(c, config, n - 1, a)
        }),
{
    lemma_in_run(c, config, a);
    let n = (place_in_run(a)->0).0;
    let from = config.process_config.start_iter;
    let total = config.train_config.total_steps;
    if run(c, config).contains(a) {
        let iter = choose|iter: int|
            from <= iter < total && #[trigger] comes_up(c, config, iter, a);
        assert(iter == n - 1);
    }
    if from < n <= total && comes_up(c, config, n - 1, a) {
        assert(from <= n - 1 < total);
    }
}

/// With a disk, a run writes a checkpoint after every step whose number is a product of
/// the interval, and after the last step; never after another one, and never without a
/// disk.
pub proof fn law_checkpoints(c: Course, config: TrainStreamConfig, n: u32)
    requires
        schedulable(config),
    ensures
        run(c, config).contains(TrainAction::ExportCheckpoint { iter: n }) <==> {
            &&& config.has_disk
            &&& config.process_config.start_iter < n <= config.train_config.total_steps
            &&& n == config.train_config.total_steps || exists|k: int|
                k >= 1 && n == #[trigger] (k * config.process_config.export_every)
        },
{
    let a = TrainAction::ExportCheckpoint { iter: n };
    lemma_at_step(c, config, a);
    if config.process_config.start_iter < n <= config.train_config.total_steps {
        assert(plannable(config, n - 1));
        law_multiples_are_products(n as int, config.process_config.export_every as int);
    }
}

/// A run that has views to evaluate on evaluates after every step whose number is a
/// product of the interval, and after the last step; never after another one, and never
/// without such views. What it drew is kept where there is a disk and it was asked for.
pub proof fn law_evaluations(c: Course, config: TrainStreamConfig, n: u32, save_to_disk: bool)
    requires
        schedulable(config),
    ensures
        run(c, config).contains(TrainAction::Evaluate { iter: n, save_to_disk }) <==> {
            &&& c.has_eval
            &&& save_to_disk == (config.has_disk && config.process_config.eval_save_to_disk)
            &&& config.process_config.start_iter < n <= config.train_config.total_steps
            &&& n == config.train_config.total_steps || exists|k: int|
                k >= 1 && n == #[trigger] (k * config.process_config.eval_every)
        },
{
    let a = TrainAction::Evaluate { iter: n, save_to_disk };
    lemma_at_step(c, config, a);
    if config.process_config.start_iter < n <= config.train_config.total_steps {
        assert(plannable(config, n - 1));
        law_multiples_are_products(n as int, config.process_config.eval_every as int);
    }
}

/// The splats go to the visualizer after every step whose number is a product of their
/// interval and after the last step, if there is such an interval; the figures of a step
/// likewise, by an interval of their own.
pub proof fn law_logged_steps(c: Course, config: TrainStreamConfig, n: u32)
    requires
        schedulable(config),
    ensures
        run(c, config).contains(TrainAction::LogSplats { iter: n }) <==> {
            &&& config.process_config.start_iter < n <= config.train_config.total_steps
            &&& config.rerun_config.rerun_log_splats_every matches Some(every) && (n
                == config.train_config.total_steps || exists|k: int|
                k >= 1 && n == #[trigger] (k * every))
        },
        run(c, config).contains(TrainAction::LogTrainStats { iter: n }) <==> {
            &&& config.process_config.start_iter < n <= config.train_config.total_steps
            &&& n == config.train_config.total_steps || exists|k: int|
                k >= 1 && n == #[trigger] (k * config.rerun_config.rerun_log_train_stats_every)
        },
{
    let a = TrainAction::LogSplats { iter: n };
    let b = TrainAction::LogTrainStats { iter: n };
    lemma_at_step(c, config, a);
    lemma_at_step(c, config, b);
    if config.process_config.start_iter < n <= config.train_config.total_steps {
        assert(plannable(config, n - 1));
        if let Some(every) = config.rerun_config.rerun_log_splats_every {
            law_multiples_are_products(n as int, every as int);
        }
        law_multiples_are_products(
            n as int,
            config.rerun_config.rerun_log_train_stats_every as int,
        );
    }
}

/// Listeners hear how far training has come after every fifth step and after the last
/// one, and always with the number of all steps.
pub proof fn law_progress_is_told(c: Course, config: TrainStreamConfig, n: u32, total_steps: u32)
    requires
        schedulable(config),
    ensures
        run(c, config).contains(TrainAction::EmitTrainStep { iter: n, total_steps }) <==> {
            &&& config.process_config.start_iter < n <= config.train_config.total_steps
            &&& total_steps == config.train_config.total_steps
            &&& n == config.train_config.total_steps || exists|k: int|
                k >= 1 && n == #[trigger] (k * 5)
        },
{
    let a = TrainAction::EmitTrainStep { iter: n, total_steps };
    lemma_at_step(c, config, a);
    if config.process_config.start_iter < n <= config.train_config.total_steps {
        assert(plannable(config, n - 1));
        law_multiples_are_products(n as int, 5);
    }
}

/// The number of splats and the memory use go to the visualizer after every step. What a
/// refinement did is logged and told after its step exactly if it added splats, with its
/// own figures.
pub proof fn law_figures_of_every_step(
    c: Course,
    config: TrainStreamConfig,
    n: u32,
    total_splats: u32,
    stats: RefineStats,
)
    requires
        schedulable(config),
    ensures
        ({
            let within = config.process_config.start_iter < n <= config.train_config.total_steps;
            let here = (c.stats)(n - 1);
            &&& run(c, config).contains(TrainAction::LogSplatStats { iter: n, total_splats })
                <==> within && total_splats == here.total_splats
            &&& run(c, config).contains(TrainAction::LogMemory { iter: n }) <==> within
            &&& run(c, config).contains(TrainAction::LogRefineStats { iter: n, stats }) <==> within
                && stats == here && here.num_added > 0
            &&& run(c, config).contains(
                TrainAction::EmitRefineStep { iter: n, cur_splat_count: total_splats },
            ) <==> within && total_splats == here.total_splats && here.num_added > 0
        }),
{
    let a = TrainAction::LogSplatStats { iter: n, total_splats };
    let b = TrainAction::LogMemory { iter: n };
    let d = TrainAction::LogRefineStats { iter: n, stats };
    let e = TrainAction::EmitRefineStep { iter: n, cur_splat_count: total_splats };
    lemma_at_step(c, config, a);
    lemma_at_step(c, config, b);
    lemma_at_step(c, config, d);
    lemma_at_step(c, config, e);
}

/// Every step of a run trains once and decides once about refining. Splats may be added
/// after a step whose number is a product of one interval and lies between zero and the
/// end of growth; they are only removed after a step beyond that end whose number is a
/// product of the other interval; nothing is refined otherwise.
pub proof fn law_refinements(c: Course, config: TrainStreamConfig, i: u32, kind: RefineKind)
    requires
        schedulable(config),
    ensures
        ({
            let within = config.process_config.start_iter <= i < config.train_config.total_steps;
            let stop = config.train_config.growth_stop_iter;
            let grows = 0 < i < stop && exists|k: int|
                k >= 1 && i == #[trigger] (k * config.train_config.refine_every);
            let prunes = i > stop && exists|k: int|
                k >= 1 && i == #[trigger] (k * config.train_config.refine_every_final);
            &&& run(c, config).contains(TrainAction::TrainStep { iter: i }) <==> within
            &&& run(c, config).contains(TrainAction::Refine { iter: i, kind }) <==> within
                && match kind {
                RefineKind::Growth => grows,
                RefineKind::Final => prunes,
                RefineKind::Skip => !grows && !prunes,
            }
        }),
{
    let a = TrainAction::TrainStep { iter: i };
    let b = TrainAction::Refine { iter: i, kind };
    lemma_at_step(c, config, a);
    lemma_at_step(c, config, b);
    if config.process_config.start_iter <= i < config.train_config.total_steps {
        assert(plannable(config, i as int));
        if i > 0 {
            law_multiples_are_products(i as int, config.train_config.refine_every as int);
            law_multiples_are_products(i as int, config.train_config.refine_every_final as int);
        }
    }
}

/// Which step an action of an iteration belongs to, counted from one, and its place among
/// the actions of that step; nothing for actions that do not name their step.
pub open spec fn place_in_run(a: TrainAction) -> Option<(int, int)> {
    match a {
        TrainAction::TrainStep { iter } => Some((iter + 1, 0int)),
        TrainAction::Refine { iter, .. } => Some((iter + 1, 1int)),
        TrainAction::Evaluate { iter, .. } => Some((iter as int, 2int)),
        TrainAction::ExportCheckpoint { iter } => Some((iter as int, 3int)),
        TrainAction::LogSplatStats { iter, .. } => Some((iter as int, 4int)),
        TrainAction::LogSplats { iter } => Some((iter as int, 5int)),
        TrainAction::LogTrainStats { iter } => Some((iter as int, 6int)),
        TrainAction::LogMemory { iter } => Some((iter as int, 7int)),
        TrainAction::LogRefineStats { iter, .. } => Some((iter as int, 8int)),
        TrainAction::EmitRefineStep { iter, .. } => Some((iter as int, 9int)),
        TrainAction::EmitTrainStep { iter, .. } => Some((iter as int, 10int)),
        _ => None,
    }
}

/// Whether one place lies before another one.
pub open spec fn before(a: (int, int), b: (int, int)) -> bool {
    a.0 < b.0 || (a.0 == b.0 && a.1 < b.1)
}

/// All actions of a run come in the order of their steps, and those of a step in this
/// order: training, refining, evaluating, exporting, logging, telling. So none of them
/// comes twice.
pub proof fn law_actions_in_order(c: Course, config: TrainStreamConfig, p: int, q: int)
    requires
        schedulable(config),
        0 <= p < q < run(c, config).len(),
        place_in_run(run(c, config)[p]) is Some,
        place_in_run(run(c, config)[q]) is Some,
    ensures
        before(place_in_run(run(c, config)[p])->0, place_in_run(run(c, config)[q])->0),
{
    law_run_without_failures(c, config);
    let all = c.whole(config);
    let from = config.process_config.start_iter as int;
    let rest = c.iterations(config, from);
    lemma_lead(c, config, p);
    lemma_lead(c, config, q);
    lemma_tail(c, config, from);
    let a = p - lead(c);
    let b = q - lead(c);
    assert(all[p] == rest[a] && all[q] == rest[b]);
    let i = lemma_locate(c, config, from, a);
    let j = lemma_locate(c, config, from, b);
    let x = a - begin(c, config, from, i);
    let y = b - begin(c, config, from, j);
    lemma_block(c, config, from, i, x);
    lemma_block(c, config, from, j, y);
    if j < i {
        lemma_begin_grows(c, config, from, j, i);
    }
    assert(i <= j);
    lemma_number(c, config, i, x);
    lemma_number(c, config, j, y);
    if i == j {
        lemma_ranks(c, config, i, x, y);
    }
}

/// What an iteration names is its own step.
proof fn lemma_number(c: Course, config: TrainStreamConfig, iter: int, x: int)
    requires
        0 <= iter < config.train_config.total_steps,
        0 <= x < c.iteration(config, iter).len(),
    ensures
        place_in_run(c.iteration(config, iter)[x]) matches Some(place) ==> place.0 == iter + 1,
{
    let a = c.iteration(config, iter)[x];
    assert(c.iteration(config, iter).contains(a));
    lemma_comes_up(c, config, iter, a);
}

/// The place of an action among those of its step, all of them counted.
pub open spec fn rank(a: TrainAction) -> int {
    match a {
        TrainAction::TrainStep { .. } => 0,
        TrainAction::ScoreSplats { .. } => 1,
        TrainAction::Refine { .. } => 2,
        TrainAction::Evaluate { .. } => 3,
        TrainAction::ExportCheckpoint { .. } => 4,
        TrainAction::LogSplatStats { .. } => 5,
        TrainAction::LogSplats { .. } => 6,
        TrainAction::LogTrainStats { .. } => 7,
        TrainAction::LogMemory { .. } => 8,
        TrainAction::LogRefineStats { .. } => 9,
        TrainAction::EmitRefineStep { .. } => 10,
        TrainAction::EmitSplatsUpdated { .. } => 11,
        TrainAction::EmitTrainStep { .. } => 12,
        _ => 13,
    }
}

/// Whether actions come by their rank, none of them beyond `top`.
spec fn ranked(s: Seq<TrainAction>, top: int) -> bool {
    &&& forall|i: int| 0 <= i < s.len() ==> rank(#[trigger] s[i]) <= top
    &&& forall|i: int, j: int|
        0 <= i < j < s.len() ==> rank(#[trigger] s[i]) < rank(#[trigger] s[j])
}

proof fn lemma_ranked_push(s: Seq<TrainAction>, top: int, due: bool, a: TrainAction)
    requires
        ranked(s, top),
        top < rank(a),
    ensures
        ranked(and_if(s, due, a), rank(a)),
{
    reveal(and_if);
}

proof fn lemma_ranks(c: Course, config: TrainStreamConfig, iter: int, x: int, y: int)
    requires
        0 <= iter < config.train_config.total_steps,
        0 <= x < y < c.iteration(config, iter).len(),
    ensures
        rank(c.iteration(config, iter)[x]) < rank(c.iteration(config, iter)[y]),
{
    let first = training_actions(config, iter);
    let plan = step_plan(config, c.has_eval, iter);
    let stats = (c.stats)(iter);
    let report = report_actions(config, plan, stats, c.sh_degree);
    let all = c.iteration(config, iter);
    assert(all == first + report);
    lemma_report_ranked(config, plan, stats, c.sh_degree);
    if x >= first.len() {
        assert(all[x] == report[x - first.len()]);
        assert(all[y] == report[y - first.len()]);
    } else if y >= first.len() {
        assert(all[x] == first[x]);
        assert(report.contains(report[y - first.len()]));
        lemma_reported(config, plan, stats, c.sh_degree, report[y - first.len()]);
    }
}

proof fn lemma_report_ranked(
    config: TrainStreamConfig,
    plan: StepPlan,
    stats: RefineStats,
    degree: u32,
)
    ensures
        ranked(report_actions(config, plan, stats, degree), 12),
{
    let iter = plan.next_iter;
    let save_to_disk = plan.save_to_disk;
    let total_splats = stats.total_splats;
    let total_steps = config.train_config.total_steps;
    let added = stats.num_added > 0;
    let shown = TrainAction::EmitSplatsUpdated {
        up_axis: UpAxis::Unchanged,
        num_splats: total_splats,
        sh_degree: degree,
    };
    let refined = TrainAction::EmitRefineStep { iter, cur_splat_count: total_splats };
    let told = TrainAction::EmitTrainStep { iter, total_steps };
    let s0 = Seq::<TrainAction>::empty();
    let s1 = and_if(s0, plan.evaluate, TrainAction::Evaluate { iter, save_to_disk });
    let s2 = and_if(s1, plan.export, TrainAction::ExportCheckpoint { iter });
    let s3 = and_if(s2, true, TrainAction::LogSplatStats { iter, total_splats });
    let s4 = and_if(s3, plan.log_splats, TrainAction::LogSplats { iter });
    let s5 = and_if(s4, plan.log_train_stats, TrainAction::LogTrainStats { iter });
    let s6 = and_if(s5, true, TrainAction::LogMemory { iter });
    let s7 = and_if(s6, added, TrainAction::LogRefineStats { iter, stats });
    let s8 = and_if(s7, added, refined);
    let s9 = and_if(s8, plan.update_ui, shown);
    lemma_ranked_push(s0, 2, plan.evaluate, TrainAction::Evaluate { iter, save_to_disk });
    lemma_ranked_push(s1, 3, plan.export, TrainAction::ExportCheckpoint { iter });
    lemma_ranked_push(s2, 4, true, TrainAction::LogSplatStats { iter, total_splats });
    lemma_ranked_push(s3, 5, plan.log_splats, TrainAction::LogSplats { iter });
    lemma_ranked_push(s4, 6, plan.log_train_stats, TrainAction::LogTrainStats { iter });
    lemma_ranked_push(s5, 7, true, TrainAction::LogMemory { iter });
    lemma_ranked_push(s6, 8, added, TrainAction::LogRefineStats { iter, stats });
    lemma_ranked_push(s7, 9, added, refined);
    lemma_ranked_push(s8, 10, plan.update_ui, shown);
    lemma_ranked_push(s9, 11, plan.update_ui, told);
}

/// Splats are scored right before they are refined, on the views and with the threshold of
/// the settings, and at no other time. When listeners hear how far training has come, they
/// have just heard that there are splats to show, as many as the step left, and they hear
/// that at no other time between the steps.
pub proof fn law_neighbors_in_run(c: Course, config: TrainStreamConfig, p: int)
    requires
        schedulable(config),
        0 <= p < run(c, config).len(),
    ensures
        ({
            let all = run(c, config);
            &&& all[p] matches TrainAction::Refine { iter, kind } ==> {
                &&& !(kind is Skip) ==> p >= 2 && all[p - 1] == (TrainAction::ScoreSplats {
                    n_views: config.train_config.n_views,
                    error_threshold: config.train_config.high_error_threshold,
                }) && all[p - 2] == (TrainAction::TrainStep { iter })
                &&& kind is Skip ==> p >= 1 && all[p - 1] == (TrainAction::TrainStep { iter })
            }
            &&& all[p] is ScoreSplats ==> p + 1 < all.len() && (all[p + 1]
                matches TrainAction::Refine { kind, .. } && !(kind is Skip))
            &&& all[p] matches TrainAction::EmitTrainStep { iter, .. } ==> p >= 1 && all[p - 1]
                == (TrainAction::EmitSplatsUpdated {
                up_axis: UpAxis::Unchanged,
                num_splats: (c.stats)(iter - 1).total_splats,
                sh_degree: c.sh_degree,
            })
            &&& all[p] matches TrainAction::EmitSplatsUpdated { up_axis, .. } ==> (up_axis
                is Unchanged ==> p + 1 < all.len() && all[p + 1] is EmitTrainStep)
        }),
{
    law_run_without_failures(c, config);
    let all = c.whole(config);
    let from = config.process_config.start_iter as int;
    let rest = c.iterations(config, from);
    lemma_lead(c, config, p);
    lemma_tail(c, config, from);
    if p < lead(c) {
        lemma_first_update(c, config, p);
    } else {
        let a = p - lead(c);
        assert(all[p] == rest[a]);
        if a < rest.len() - 2 {
            let i = lemma_locate(c, config, from, a);
            let x = a - begin(c, config, from, i);
            let now = c.iteration(config, i);
            lemma_block(c, config, from, i, x);
            lemma_number(c, config, i, x);
            lemma_neighbors(c, config, i, x);
            if x >= 1 {
                lemma_block(c, config, from, i, x - 1);
                assert(all[p - 1] == now[x - 1]);
            }
            if x >= 2 {
                lemma_block(c, config, from, i, x - 2);
                assert(all[p - 2] == now[x - 2]);
            }
            if x + 1 < now.len() {
                lemma_block(c, config, from, i, x + 1);
                assert(all[p + 1] == now[x + 1]);
            }
        }
    }
}

/// Before the first iteration splats come with a direction.
proof fn lemma_first_update(c: Course, config: TrainStreamConfig, p: int)
    requires
        0 <= p < lead(c),
    ensures
        c.whole(config)[p] matches TrainAction::EmitSplatsUpdated { up_axis, .. } ==> !(up_axis
            is Unchanged),
{
    let start = startup_actions(config);
    let loading = c.loading(config);
    let all = c.whole(config);
    if p < 5 {
        assert(all[p] == start[p]);
    } else {
        assert(all[p] == loading[p - 5]);
        if p - 5 < c.warnings@.len() {
            assert(loading[p - 5] == dataset_warnings(c.warnings@)[p - 5]);
        }
    }
}

proof fn lemma_neighbors(c: Course, config: TrainStreamConfig, iter: int, x: int)
    requires
        0 <= iter < config.train_config.total_steps,
        0 <= x < c.iteration(config, iter).len(),
    ensures
        ({
            let now = c.iteration(config, iter);
            let kind = refine_due(config.train_config, iter);
            &&& now[x] is Refine && !(kind is Skip) ==> x == 2 && now[1]
                == (TrainAction::ScoreSplats {
                n_views: config.train_config.n_views,
                error_threshold: config.train_config.high_error_threshold,
            }) && now[0] == (TrainAction::TrainStep { iter: iter as u32 }) && now[x] == (
            TrainAction::Refine { iter: iter as u32, kind })
            &&& now[x] is Refine && kind is Skip ==> x == 1 && now[0] == (TrainAction::TrainStep {
                iter: iter as u32,
            }) && now[x] == (TrainAction::Refine { iter: iter as u32, kind })
            &&& now[x] is ScoreSplats ==> x == 1 && x + 1 < now.len() && !(kind is Skip) && now[2]
                == (TrainAction::Refine { iter: iter as u32, kind })
            &&& now[x] is EmitTrainStep ==> x >= 1 && now[x - 1]
                == (TrainAction::EmitSplatsUpdated {
                up_axis: UpAxis::Unchanged,
                num_splats: (c.stats)(iter).total_splats,
                sh_degree: c.sh_degree,
            })
            &&& now[x] is EmitSplatsUpdated ==> x + 1 < now.len() && now[x + 1] is EmitTrainStep
        }),
{
    let first = training_actions(config, iter);
    let plan = step_plan(config, c.has_eval, iter);
    let stats = (c.stats)(iter);
    let report = report_actions(config, plan, stats, c.sh_degree);
    let now = c.iteration(config, iter);
    let k = first.len() as int;
    assert(now == first + report);
    if x < k {
        assert(now[x] == first[x]);
    } else {
        assert(now[x] == report[x - k]);
        assert(report.contains(report[x - k]));
        lemma_reported(config, plan, stats, c.sh_degree, report[x - k]);
        lemma_last_two(config, plan, stats, c.sh_degree);
        lemma_report_ranked(config, plan, stats, c.sh_degree);
        let n = report.len() as int;
        if plan.update_ui {
            assert(rank(report[n - 1]) == 12 && rank(report[n - 2]) == 11);
            if report[x - k] is EmitTrainStep {
                assert(x - k == n - 1);
                assert(now[x - 1] == report[n - 2]);
            }
            if report[x - k] is EmitSplatsUpdated {
                assert(x - k == n - 2);
                assert(now[x + 1] == report[n - 1]);
            }
        }
    }
}

proof fn lemma_last_two(
    config: TrainStreamConfig,
    plan: StepPlan,
    stats: RefineStats,
    degree: u32,
)
    ensures
        ({
            let report = report_actions(config, plan, stats, degree);
            let n = report.len();
            plan.update_ui ==> n >= 2 && report[n - 1] is EmitTrainStep && report[n - 2]
                == (TrainAction::EmitSplatsUpdated {
                up_axis: UpAxis::Unchanged,
                num_splats: stats.total_splats,
                sh_degree: degree,
            })
        }),
{
    reveal(and_if);
}

/// How every run begins: listeners hear the settings, the visualizer is connected if it
/// was asked for, all chance is fixed by the one seed, and the dataset is read.
pub proof fn law_beginning(c: Course, config: TrainStreamConfig)
    requires
        schedulable(config),
    ensures
        ({
            let all = run(c, config);
            &&& all.len() >= 5
            &&& all[0] is EmitTrainConfig
            &&& all[1] == (TrainAction::CreateVisualizer {
                enabled: config.rerun_config.rerun_enabled,
            })
            &&& all[2] == (TrainAction::SeedBackend { seed: config.process_config.seed })
            &&& all[3] matches TrainAction::SeedRng { seed_byte } && exists|q: int|
                config.process_config.seed == #[trigger] (256 * q) + seed_byte
            &&& all[4] is LoadDataset
        }),
{
    law_run_without_failures(c, config);
    let all = c.whole(config);
    let start = startup_actions(config);
    assert(all[0] == start[0] && all[1] == start[1] && all[2] == start[2] && all[3] == start[3]
        && all[4] == start[4]);
    let seed = config.process_config.seed as int;
    assert(seed == (256 * (seed / 256)) + seed % 256);
}

/// What follows once the dataset was read: each of its warnings is passed on, in order;
/// then come the views, the dataset, the first splats with the degree of the settings, the
/// news of them with what they turned out to be, and the preparations for training, whose
/// views are shuffled by a fixed seed.
pub proof fn law_loading(c: Course, config: TrainStreamConfig, i: int)
    requires
        schedulable(config),
        0 <= i < c.warnings@.len(),
    ensures
        run(c, config)[5 + i] == (TrainAction::EmitDatasetWarning { text: c.warnings@[i] }),
{
    law_run_without_failures(c, config);
    let loading = c.loading(config);
    assert(c.whole(config)[5 + i] == loading[i]);
    assert(loading[i] == dataset_warnings(c.warnings@)[i]);
}

/// What follows the warnings of a dataset. See `law_loading`.
pub proof fn law_loaded(c: Course, config: TrainStreamConfig)
    requires
        schedulable(config),
    ensures
        ({
            let all = run(c, config);
            let k = 5 + c.warnings@.len() as int;
            let max_img_size = config.rerun_config.rerun_max_img_size;
            &&& all.len() >= k + 8
            &&& all[k] == (TrainAction::LogScene { max_img_size })
            &&& all[k + 1] == (TrainAction::LogScene { max_img_size })
            &&& all[k + 2] is EmitDataset
            &&& all[k + 3] matches TrainAction::InitSplats { source, sh_degree } && {
                &&& sh_degree == config.model_config.sh_degree
                &&& source is Loaded <==> c.init is Some
                &&& source matches SplatSource::Loaded { render_mode } ==> {
                    &&& config.train_config.render_mode is Some ==> Some(render_mode)
                        == config.train_config.render_mode
                    &&& config.train_config.render_mode is None && c.init->0.render_mode is Some
                        ==> Some(render_mode) == c.init->0.render_mode
                    &&& config.train_config.render_mode is None && c.init->0.render_mode is None
                        ==> render_mode is Default
                }
                &&& source matches SplatSource::Random { render_mode } ==> {
                    &&& config.train_config.render_mode is Some ==> Some(render_mode)
                        == config.train_config.render_mode
                    &&& config.train_config.render_mode is None ==> render_mode is Default
                }
            }
            &&& all[k + 4] matches TrainAction::EmitSplatsUpdated {
                up_axis,
                num_splats,
                sh_degree,
            } && {
                &&& num_splats == c.num_splats
                &&& sh_degree == c.sh_degree
                &&& up_axis is Named <==> c.init is Some && c.init->0.names_up_axis
                &&& up_axis is Named || up_axis is Estimated
            }
            &&& all[k + 5] is EmitDoneLoading
            &&& all[k + 6] is MemoryCleanup
            &&& all[k + 7] == (TrainAction::PrepareTrainer { loader_seed: 42 })
        }),
{
    law_run_without_failures(c, config);
    let all = c.whole(config);
    let loading = c.loading(config);
    let w = c.warnings@.len() as int;
    assert(dataset_warnings(c.warnings@).len() == w);
    assert(loading.len() == w + 8);
    assert forall|j: int| 0 <= j < 8 implies all[5 + w + j] == #[trigger] loading[w + j] by {}
    assert(all[5 + w] == loading[w + 0]);
    assert(all[5 + w + 1] == loading[w + 1]);
    assert(all[5 + w + 2] == loading[w + 2]);
    assert(all[5 + w + 3] == loading[w + 3]);
    assert(all[5 + w + 4] == loading[w + 4]);
    assert(all[5 + w + 5] == loading[w + 5]);
    assert(all[5 + w + 6] == loading[w + 6]);
    assert(all[5 + w + 7] == loading[w + 7]);
}

/// A dataset that cannot be read and a memory use that cannot be found end the run with
/// the error that came. Nothing else that fails does: listeners hear the error with what
/// it was about, the step included, and what was still to do stays to do.
pub proof fn law_failures(s: RunState, action: TrainAction, error: Failure)
    requires
        s.awaiting == awaits(action),
        0 <= s.iter <= u32::MAX,
        answers(s.awaiting, TrainEvent::Failed { error }),
    ensures
        ({
            let failed = TrainEvent::Failed { error };
            let follows = s.next_action(failed);
            let after = s.next_state(failed);
            &&& action is LoadDataset || action is LogMemory ==> follows == (TrainAction::Abort {
                error,
            }) && after.queue.len() == 0
            &&& action is LogScene ==> follows == (TrainAction::EmitWarning {
                context: WarningContext::LogScene,
                error,
            })
            &&& action is Evaluate ==> (follows matches TrainAction::EmitWarning {
                context: WarningContext::Eval { iter },
                error: e,
            } && iter == s.iter && e == error)
            &&& action is ExportCheckpoint ==> (follows matches TrainAction::EmitWarning {
                context: WarningContext::Export { iter },
                error: e,
            } && iter == s.iter && e == error)
            &&& action is LogScene || action is Evaluate || action is ExportCheckpoint
                ==> after.queue == s.queue
            &&& after.config == s.config && after.iter == s.iter && after.has_eval == s.has_eval
            &&& after.up_axis == s.up_axis && after.sh_degree == s.sh_degree
        }),
{
    let failed = TrainEvent::Failed { error };
    if action is LogScene || action is Evaluate || action is ExportCheckpoint {
        assert(s.absorb(failed).queue.drop_first() == s.queue);
    }
}

/// Which answers an action can get.
pub proof fn law_accepted_answers(action: TrainAction, event: TrainEvent)
    ensures
        answers(awaits(action), event) <==> match action {
            TrainAction::LoadDataset => event is Loaded || event is Failed,
            TrainAction::LogScene { .. } => event is Done || event is Failed,
            TrainAction::Evaluate { .. } => event is Done || event is Failed,
            TrainAction::ExportCheckpoint { .. } => event is Done || event is Failed,
            TrainAction::LogMemory { .. } => event is Done || event is Failed,
            TrainAction::InitSplats { .. } => event is SplatsReady,
            TrainAction::Refine { .. } => event is Refined,
            TrainAction::Finish => false,
            TrainAction::Abort { .. } => false,
            _ => event is Done,
        },
{
}

/// What a run learns from its answers, and when: whether there are views to evaluate on
/// from the dataset, the degree from the first splats, and that a step is over from its
/// refinement. Nothing else changes what it knows, and the settings never change.
pub proof fn law_what_runs_learn(s: RunState, event: TrainEvent)
    requires
        answers(s.awaiting, event),
    ensures
        ({
            let after = s.next_state(event);
            &&& after.config == s.config
            &&& event matches TrainEvent::Loaded { has_eval, .. } ==> after.has_eval == has_eval
            &&& !(event is Loaded) ==> after.has_eval == s.has_eval && after.up_axis == s.up_axis
            &&& event matches TrainEvent::SplatsReady { sh_degree, .. } ==> after.sh_degree
                == sh_degree
            &&& !(event is SplatsReady) ==> after.sh_degree == s.sh_degree
            &&& after.iter == if event is Refined {
                s.iter + 1
            } else {
                s.iter
            }
        }),
{
}

/// A run is well defined exactly if it has no iterations, or evaluates at an interval that
/// is not zero, exports at one if it has a disk, and prunes at one if it goes on beyond
/// the end of growth.
pub proof fn law_well_defined_runs(config: TrainStreamConfig)
    ensures
        schedulable(config) <==> {
            ||| config.process_config.start_iter >= config.train_config.total_steps
            ||| {
                &&& config.process_config.eval_every != 0
                &&& !config.has_disk || config.process_config.export_every != 0
                &&& config.train_config.total_steps <= config.train_config.growth_stop_iter + 1
                    || config.train_config.refine_every_final != 0
            }
        },
{
    let total = config.train_config.total_steps;
    let start = config.process_config.start_iter;
    if start < total {
        if schedulable(config) {
            assert(plannable(config, total - 1));
        }
    }
}

/// What an iteration is planned to be, in numbers.
pub proof fn law_planned_step(config: TrainStreamConfig, has_eval: bool, iter: int)
    requires
        0 <= iter < config.train_config.total_steps,
        plannable(config, iter),
    ensures
        ({
            let plan = step_plan(config, has_eval, iter);
            let last = iter == config.train_config.total_steps - 1;
            &&& plan.next_iter == iter + 1
            &&& plan.is_last == last
            &&& plan.evaluate <==> has_eval && (last || exists|k: int|
                k >= 1 && iter + 1 == #[trigger] (k * config.process_config.eval_every))
            &&& plan.export <==> config.has_disk && (last || exists|k: int|
                k >= 1 && iter + 1 == #[trigger] (k * config.process_config.export_every))
            &&& plan.update_ui <==> last || exists|k: int|
                k >= 1 && iter + 1 == #[trigger] (k * 5)
            &&& plan.save_to_disk <==> config.has_disk && config.process_config.eval_save_to_disk
        }),
{
    law_multiples_are_products(iter + 1, config.process_config.eval_every as int);
    law_multiples_are_products(iter + 1, config.process_config.export_every as int);
    law_multiples_are_products(iter + 1, 5);
}

/// What listeners hear of each action. Directions, counts and times are those that the run
/// knows; an error is told with what it was about before its causes.
pub proof fn law_announcements(
    action: TrainAction,
    facts: RunFacts,
    message: Option<ProcessMessage>,
)
    requires
        announces(action, facts, message),
    ensures
        match action {
            TrainAction::EmitTrainConfig => message matches Some(
                ProcessMessage::TrainMessage(TrainMessage::TrainConfig),
            ),
            TrainAction::EmitDatasetWarning { text } => message matches Some(
                ProcessMessage::Warning { error },
            ) && error.chain@.len() == 1 && error.chain@[0]@ == text@,
            TrainAction::EmitWarning { context, error: cause } => message matches Some(
                ProcessMessage::Warning { error },
            ) && match context {
                WarningContext::LogScene => error.causes() == cause.causes(),
                WarningContext::Eval { iter } => error.causes().skip(1) == cause.causes()
                    && error.chain@.len() == cause.chain@.len() + 1 && error.chain@[0]@
                    == "Failed evaluation at iteration "@ + decimal(iter as nat),
                WarningContext::Export { iter } => error.causes().skip(1) == cause.causes()
                    && error.chain@.len() == cause.chain@.len() + 1 && error.chain@[0]@
                    == "Export at iteration "@ + decimal(iter as nat) + " failed"@,
            },
            TrainAction::EmitDataset => message matches Some(
                ProcessMessage::TrainMessage(TrainMessage::Dataset { train_views, eval_views }),
            ) && train_views == facts.train_views && eval_views == facts.eval_views,
            TrainAction::EmitSplatsUpdated { up_axis, num_splats, sh_degree } => message
                matches Some(
                ProcessMessage::SplatsUpdated {
                    up_axis: up,
                    frame,
                    total_frames,
                    num_splats: n,
                    sh_degree: d,
                },
            ) && {
                &&& frame == 0 && total_frames == 1
                &&& n == num_splats && d == sh_degree
                &&& up_axis is Unchanged ==> up is None
                &&& up_axis is Named ==> up == facts.named_up
                &&& up_axis is Estimated ==> up == Some(facts.estimated_up)
            },
            TrainAction::EmitDoneLoading => message matches Some(ProcessMessage::DoneLoading),
            TrainAction::EmitRefineStep { iter, cur_splat_count } => message matches Some(
                ProcessMessage::TrainMessage(
                    TrainMessage::RefineStep { cur_splat_count: n, iter: i },
                ),
            ) && n == cur_splat_count && i == iter,
            TrainAction::EmitTrainStep { iter, total_steps } => message matches Some(
                ProcessMessage::TrainMessage(
                    TrainMessage::TrainStep { iter: i, total_steps: t, total_elapsed_secs: secs },
                ),
            ) && i == iter && t == total_steps && secs == facts.elapsed_secs,
            TrainAction::EmitDoneTraining => message matches Some(
                ProcessMessage::TrainMessage(TrainMessage::DoneTraining),
            ),
            _ => message is None,
        },
{
    if let TrainAction::EmitDatasetWarning { text } = action {
        let error = message->0->Warning_error;
        assert(error.causes().len() == 1);
        assert(error.causes()[0] == text@);
        assert(error.chain@[0]@ == error.causes()[0]);
    }
    if let TrainAction::EmitWarning { context, error: cause } = action {
        let error = message->0->Warning_error;
        match context {
            WarningContext::LogScene => {},
            _ => {
                assert(error.causes().skip(1) == cause.causes());
                assert(error.chain@[0]@ == error.causes()[0]);
                assert(error.causes().len() == cause.causes().len() + 1);
            },
        }
    }
}

/// What a step is followed by once it is refined, by what was planned for it and by what
/// the refinement did; every action names the step that comes next, and the numbers are
/// those of the refinement. The actions come in a fixed order, and none of them twice.
pub proof fn law_reports_of_plan(
    config: TrainStreamConfig,
    plan: StepPlan,
    stats: RefineStats,
    degree: u32,
    a: TrainAction,
    i: int,
    j: int,
)
    ensures
        report_actions(config, plan, stats, degree).contains(a) <==> match a {
            TrainAction::Evaluate { iter, save_to_disk } => plan.evaluate && iter == plan.next_iter
                && save_to_disk == plan.save_to_disk,
            TrainAction::ExportCheckpoint { iter } => plan.export && iter == plan.next_iter,
            TrainAction::LogSplatStats { iter, total_splats } => iter == plan.next_iter
                && total_splats == stats.total_splats,
            TrainAction::LogSplats { iter } => plan.log_splats && iter == plan.next_iter,
            TrainAction::LogTrainStats { iter } => plan.log_train_stats && iter == plan.next_iter,
            TrainAction::LogMemory { iter } => iter == plan.next_iter,
            TrainAction::LogRefineStats { iter, stats: s } => stats.num_added > 0 && iter
                == plan.next_iter && s == stats,
            TrainAction::EmitRefineStep { iter, cur_splat_count } => stats.num_added > 0 && iter
                == plan.next_iter && cur_splat_count == stats.total_splats,
            TrainAction::EmitSplatsUpdated { up_axis, num_splats, sh_degree } => plan.update_ui
                && up_axis is Unchanged && num_splats == stats.total_splats && sh_degree == degree,
            TrainAction::EmitTrainStep { iter, total_steps } => plan.update_ui && iter
                == plan.next_iter && total_steps == config.train_config.total_steps,
            _ => false,
        },
        0 <= i < j < report_actions(config, plan, stats, degree).len() ==> rank(
            report_actions(config, plan, stats, degree)[i],
        ) < rank(report_actions(config, plan, stats, degree)[j]),
{
    lemma_reported(config, plan, stats, degree, a);
    lemma_report_ranked(config, plan, stats, degree);
}

} // verus!
