//! What holds of every training run as a whole.

use crate::config::TrainStreamConfig;
use crate::failure::Failure;
use crate::train_stream::{
    answers, awaits, closing_actions, dataset_warnings, first_up_axis, is_report,
    lemma_report_plain, loading_actions, and_if, plain, plain_action, refine_due, report_actions,
    schedulable, splat_source, startup_actions, step_plan, training_actions, Awaiting, InitSplats,
    RefineStats, RunState, StepPlan, TrainAction, TrainEvent, LOADER_SEED,
};
use vstd::prelude::*;

verus! {

/// What the world answers in a run in which nothing fails.
pub struct Course {
    pub warnings: Vec<String>,
    pub has_eval: bool,
    pub init: Option<InitSplats>,
    pub num_splats: u32,
    pub sh_degree: u32,
    /// What the refinement of each iteration does.
    pub stats: spec_fn(int) -> RefineStats,
}

impl Course {
    /// What comes of `action`.
    pub open spec fn answer(self, action: TrainAction) -> TrainEvent {
        match action {
            TrainAction::LoadDataset => TrainEvent::Loaded {
                warnings: self.warnings,
                has_eval: self.has_eval,
                init: self.init,
            },
            TrainAction::InitSplats { .. } => TrainEvent::SplatsReady {
                num_splats: self.num_splats,
                sh_degree: self.sh_degree,
            },
            TrainAction::Refine { iter, .. } => TrainEvent::Refined {
                stats: (self.stats)(iter as int),
            },
            _ => TrainEvent::Done,
        }
    }

    /// The first `n` actions that a run hands out from `state` on, when the last action
    /// was answered by `event`.
    pub open spec fn trace(self, state: RunState, event: TrainEvent, n: nat) -> Seq<TrainAction>
        decreases n,
    {
        if n == 0 {
            seq![]
        } else {
            let action = state.next_action(event);
            seq![action] + self.trace(
                state.next_state(event),
                self.answer(action),
                (n - 1) as nat,
            )
        }
    }

    /// Where the run stands after those actions, and the answer to the last of them.
    pub open spec fn after(self, state: RunState, event: TrainEvent, n: nat) -> (
        RunState,
        TrainEvent,
    )
        decreases n,
    {
        if n == 0 {
            (state, event)
        } else {
            self.after(
                state.next_state(event),
                self.answer(state.next_action(event)),
                (n - 1) as nat,
            )
        }
    }

    /// The actions of one iteration.
    pub open spec fn iteration(self, config: TrainStreamConfig, iter: int) -> Seq<TrainAction> {
        training_actions(config, iter) + report_actions(
            config,
            step_plan(config, self.has_eval, iter),
            (self.stats)(iter),
            self.sh_degree,
        )
    }

    /// The actions of all iterations from `iter` on, and of the end of the run.
    pub open spec fn iterations(self, config: TrainStreamConfig, iter: int) -> Seq<TrainAction>
        decreases config.train_config.total_steps - iter,
    {
        if iter < config.train_config.total_steps {
            self.iteration(config, iter) + self.iterations(config, iter + 1)
        } else {
            closing_actions()
        }
    }

    /// The actions between reading the dataset and the first iteration.
    pub open spec fn loading(self, config: TrainStreamConfig) -> Seq<TrainAction> {
        let max_img_size = config.rerun_config.rerun_max_img_size;
        dataset_warnings(self.warnings@) + seq![
            TrainAction::LogScene { max_img_size },
            TrainAction::LogScene { max_img_size },
            TrainAction::EmitDataset,
            TrainAction::InitSplats {
                source: splat_source(config.train_config, self.init),
                sh_degree: config.model_config.sh_degree,
            },
            TrainAction::EmitSplatsUpdated {
                up_axis: first_up_axis(self.init),
                num_splats: self.num_splats,
                sh_degree: self.sh_degree,
            },
            TrainAction::EmitDoneLoading,
            TrainAction::MemoryCleanup,
            TrainAction::PrepareTrainer { loader_seed: LOADER_SEED },
        ]
    }

    /// All actions of a run.
    pub open spec fn whole(self, config: TrainStreamConfig) -> Seq<TrainAction> {
        startup_actions(config) + self.loading(config) + self.iterations(
            config,
            config.process_config.start_iter as int,
        )
    }
}

proof fn lemma_trace_len(c: Course, s: RunState, e: TrainEvent, n: nat)
    ensures
        c.trace(s, e, n).len() == n,
    decreases n,
{
    if n > 0 {
        lemma_trace_len(c, s.next_state(e), c.answer(s.next_action(e)), (n - 1) as nat);
    }
}

/// A longer stretch of a run is two shorter ones.
proof fn lemma_trace_split(c: Course, s: RunState, e: TrainEvent, n: nat, m: nat)
    ensures
        c.trace(s, e, n + m) == c.trace(s, e, n) + c.trace(
            c.after(s, e, n).0,
            c.after(s, e, n).1,
            m,
        ),
        c.after(s, e, n + m) == c.after(c.after(s, e, n).0, c.after(s, e, n).1, m),
    decreases n,
{
    if n == 0 {
        assert(c.trace(s, e, 0) + c.trace(s, e, m) == c.trace(s, e, m));
    } else {
        let s1 = s.next_state(e);
        let e1 = c.answer(s.next_action(e));
        lemma_trace_split(c, s1, e1, (n - 1) as nat, m);
        let rest = c.trace(c.after(s, e, n).0, c.after(s, e, n).1, m);
        assert(seq![s.next_action(e)] + (c.trace(s1, e1, (n - 1) as nat) + rest) == seq![
            s.next_action(e),
        ] + c.trace(s1, e1, (n - 1) as nat) + rest);
    }
}

/// Taking in an answer first and going on from there is the same.
proof fn lemma_absorb_first(c: Course, s: RunState, e: TrainEvent, n: nat)
    requires
        n > 0,
    ensures
        c.trace(s, e, n) == c.trace(s.absorb(e), TrainEvent::Done, n),
        c.after(s, e, n) == c.after(s.absorb(e), TrainEvent::Done, n),
{
    let a = s.absorb(e);
    assert(a.absorb(TrainEvent::Done) == a);
}

/// Plain actions that are queued are handed out in order.
proof fn lemma_drain(c: Course, s: RunState, n: nat)
    requires
        n <= s.queue.len(),
        plain(s.queue.take(n as int)),
    ensures
        c.trace(s, TrainEvent::Done, n) == s.queue.take(n as int),
        c.after(s, TrainEvent::Done, n) == (
            RunState {
                awaiting: if n == 0 {
                    s.awaiting
                } else {
                    awaits(s.queue[n - 1])
                },
                queue: s.queue.skip(n as int),
                ..s
            },
            TrainEvent::Done,
        ),
    decreases n,
{
    if n == 0 {
        assert(s.queue.skip(0) == s.queue);
    } else {
        let s1 = s.next_state(TrainEvent::Done);
        assert(plain_action(s.queue.take(n as int)[0]));
        assert(s.next_action(TrainEvent::Done) == s.queue[0]);
        assert(c.answer(s.queue[0]) == TrainEvent::Done);
        let m = (n - 1) as nat;
        assert(s1.queue.take(m as int) == s.queue.take(n as int).drop_first());
        assert(plain(s1.queue.take(m as int))) by {
            assert forall|i: int| 0 <= i < m implies plain_action(
                #[trigger] s1.queue.take(m as int)[i],
            ) by {
                assert(s1.queue.take(m as int)[i] == s.queue.take(n as int)[i + 1]);
            }
        }
        lemma_drain(c, s1, m);
        assert(s1.queue.skip(m as int) == s.queue.skip(n as int));
        assert(seq![s.queue[0]] + s1.queue.take(m as int) == s.queue.take(n as int));
        if m > 0 {
            assert(s1.queue[m - 1] == s.queue[n - 1]);
        }
    }
}

/// One iteration of a run, from planning it to its last report.
proof fn lemma_iteration(c: Course, s: RunState)
    requires
        s.queue.len() == 0,
        0 <= s.iter < s.config.train_config.total_steps,
        s.has_eval == c.has_eval,
        s.sh_degree == c.sh_degree,
    ensures
        c.trace(s, TrainEvent::Done, c.iteration(s.config, s.iter).len()) == c.iteration(
            s.config,
            s.iter,
        ),
        ({
            let (t, e) = c.after(s, TrainEvent::Done, c.iteration(s.config, s.iter).len());
            &&& e == TrainEvent::Done
            &&& t == RunState {
                iter: s.iter + 1,
                queue: Seq::empty(),
                awaiting: t.awaiting,
                ..s
            }
        }),
{
    let done = TrainEvent::Done;
    let first = training_actions(s.config, s.iter);
    let report = report_actions(
        s.config,
        step_plan(s.config, s.has_eval, s.iter),
        (c.stats)(s.iter),
        s.sh_degree,
    );
    // The training step, the scoring, and the refinement.
    let k = first.len();
    let s1 = RunState { queue: first, ..s };
    assert(s.absorb(done) == s && s1.absorb(done) == s1);
    assert(s.refill() == s1 && s1.refill() == s1);
    lemma_same_refill(c, s, s1, k);
    let m = (k - 1) as nat;
    assert(plain(first.take(m as int)));
    lemma_drain(c, s1, m);
    let t1 = c.after(s1, done, m).0;
    assert(t1.queue == seq![first[m as int]]);
    assert(t1.absorb(done) == t1);
    lemma_one(c, t1, done);
    lemma_trace_split(c, s1, done, m, 1);
    let s2 = t1.next_state(done);
    assert(s2.queue == Seq::<TrainAction>::empty());
    let refined = c.answer(first[m as int]);
    assert(refined == (TrainEvent::Refined { stats: (c.stats)(s.iter) }));
    assert(first.take(m as int) + seq![first[m as int]] == first);
    assert(c.trace(s, done, k) == first);
    assert(c.after(s, done, k) == (s2, refined));
    // The report.
    let s3 = s2.absorb(refined);
    assert(s3.queue == report);
    let n = report.len();
    lemma_report_plain(
        s.config,
        step_plan(s.config, s.has_eval, s.iter),
        (c.stats)(s.iter),
        s.sh_degree,
    );
    lemma_absorb_first(c, s2, refined, n);
    assert(report.take(n as int) == report);
    lemma_drain(c, s3, n);
    assert(report.skip(n as int) == Seq::<TrainAction>::empty());
    lemma_trace_split(c, s, done, k, n);
    assert(c.iteration(s.config, s.iter).len() == k + n);
}

/// A run that has run out of things to do goes on as if the next ones were queued.
proof fn lemma_same_refill(c: Course, s: RunState, t: RunState, n: nat)
    requires
        n > 0,
        s.absorb(TrainEvent::Done).refill() == t.absorb(TrainEvent::Done).refill(),
    ensures
        c.trace(s, TrainEvent::Done, n) == c.trace(t, TrainEvent::Done, n),
        c.after(s, TrainEvent::Done, n) == c.after(t, TrainEvent::Done, n),
{
}

/// The rest of a run, from an iteration that has not begun.
proof fn lemma_iterations(c: Course, s: RunState)
    requires
        s.queue.len() == 0,
        0 <= s.iter,
        s.has_eval == c.has_eval,
        s.sh_degree == c.sh_degree,
    ensures
        c.trace(s, TrainEvent::Done, c.iterations(s.config, s.iter).len()) == c.iterations(
            s.config,
            s.iter,
        ),
        c.after(s, TrainEvent::Done, c.iterations(s.config, s.iter).len()).0.awaiting
            == Awaiting::Over,
    decreases s.config.train_config.total_steps - s.iter,
{
    let done = TrainEvent::Done;
    if s.iter < s.config.train_config.total_steps {
        let now = c.iteration(s.config, s.iter);
        let later = c.iterations(s.config, s.iter + 1);
        lemma_iteration(c, s);
        let t = c.after(s, done, now.len()).0;
        lemma_iterations(c, t);
        lemma_trace_split(c, s, done, now.len(), later.len());
        assert(c.iterations(s.config, s.iter).len() == now.len() + later.len());
    } else {
        assert(s.absorb(done) == s);
        let s1 = s.next_state(done);
        assert(s1.queue == seq![TrainAction::Finish]);
        assert(s1.absorb(done) == s1);
        reveal_with_fuel(Course::trace, 3);
        reveal_with_fuel(Course::after, 3);
        assert(c.trace(s, done, 2) == closing_actions());
    }
}

/// What one step hands out, and where it leads.
proof fn lemma_one(c: Course, s: RunState, e: TrainEvent)
    ensures
        c.trace(s, e, 1) == seq![s.next_action(e)],
        c.after(s, e, 1) == (s.next_state(e), c.answer(s.next_action(e))),
{
    reveal_with_fuel(Course::trace, 2);
    reveal_with_fuel(Course::after, 2);
}

/// A run up to reading the dataset.
proof fn lemma_startup(c: Course, config: TrainStreamConfig)
    ensures
        c.trace(RunState::start(config), TrainEvent::Done, 5) == startup_actions(config),
        c.after(RunState::start(config), TrainEvent::Done, 5) == (
            RunState {
                queue: Seq::empty(),
                awaiting: Awaiting::Dataset,
                ..RunState::start(config)
            },
            c.answer(TrainAction::LoadDataset),
        ),
{
    let done = TrainEvent::Done;
    let s = RunState::start(config);
    assert(plain(s.queue.take(4)));
    lemma_drain(c, s, 4);
    let s4 = c.after(s, done, 4).0;
    assert(s4.queue == seq![TrainAction::LoadDataset]);
    assert(s4.absorb(done) == s4);
    lemma_one(c, s4, done);
    lemma_trace_split(c, s, done, 4, 1);
    assert(s4.next_state(done).queue == Seq::<TrainAction>::empty());
    assert(s.queue.take(4) + seq![TrainAction::LoadDataset] == startup_actions(config));
}

/// A run from the dataset up to the making of the first splats.
proof fn lemma_dataset(c: Course, s: RunState)
    requires
        s.awaiting == Awaiting::Dataset,
    ensures
        ({
            let loaded = c.answer(TrainAction::LoadDataset);
            let load = loading_actions(s.config, c.warnings@, c.init);
            let k = c.warnings@.len() + 4;
            &&& c.trace(s, loaded, k) == load.take(k as int)
            &&& c.after(s, loaded, k) == (
                RunState {
                    has_eval: c.has_eval,
                    up_axis: first_up_axis(c.init),
                    awaiting: Awaiting::Splats,
                    queue: load.skip(k as int),
                    ..s
                },
                c.answer(load[k - 1]),
            )
        }),
{
    let done = TrainEvent::Done;
    let loaded = c.answer(TrainAction::LoadDataset);
    let t = s.absorb(loaded);
    let load = loading_actions(s.config, c.warnings@, c.init);
    let w = c.warnings@.len();
    let k = w + 3;
    let before = load.take(k as int);
    assert(plain(before)) by {
        assert forall|i: int| 0 <= i < before.len() implies plain_action(
            #[trigger] before[i],
        ) by {
            if i < w {
                assert(before[i] == dataset_warnings(c.warnings@)[i]);
            }
        }
    }
    lemma_absorb_first(c, s, loaded, k);
    lemma_drain(c, t, k);
    let u = c.after(s, loaded, k).0;
    assert(u.queue[0] == load[k as int]);
    assert(u.absorb(done) == u);
    lemma_one(c, u, done);
    lemma_trace_split(c, s, loaded, k, 1);
    assert(before + seq![load[k as int]] == load.take((k + 1) as int));
    assert(u.queue.drop_first() == load.skip((k + 1) as int));
}

/// A run from the making of the first splats up to the first iteration.
proof fn lemma_first_splats(c: Course, s: RunState, made: TrainAction)
    requires
        s.awaiting == Awaiting::Splats,
        made is InitSplats,
        plain(s.queue),
    ensures
        ({
            let ready = c.answer(made);
            let updated = TrainAction::EmitSplatsUpdated {
                up_axis: s.up_axis,
                num_splats: c.num_splats,
                sh_degree: c.sh_degree,
            };
            let n = s.queue.len() + 1;
            let (t, e) = c.after(s, ready, n);
            &&& c.trace(s, ready, n) == seq![updated] + s.queue
            &&& e == TrainEvent::Done
            &&& t == RunState {
                sh_degree: c.sh_degree,
                queue: Seq::empty(),
                awaiting: t.awaiting,
                ..s
            }
        }),
{
    let ready = c.answer(made);
    let t = s.absorb(ready);
    let n = s.queue.len() + 1;
    assert(t.queue.take(n as int) == t.queue);
    assert(plain(t.queue)) by {
        assert forall|i: int| 0 <= i < t.queue.len() implies plain_action(
            #[trigger] t.queue[i],
        ) by {
            if i > 0 {
                assert(t.queue[i] == s.queue[i - 1]);
            }
        }
    }
    lemma_absorb_first(c, s, ready, n);
    lemma_drain(c, t, n);
    assert(t.queue.skip(n as int) == Seq::<TrainAction>::empty());
}

/// A run in which nothing fails hands out exactly these actions, and is then over.
pub proof fn law_run_without_failures(c: Course, config: TrainStreamConfig)
    requires
        schedulable(config),
    ensures
        c.trace(RunState::start(config), TrainEvent::Done, c.whole(config).len()) == c.whole(
            config,
        ),
        c.after(
            RunState::start(config),
            TrainEvent::Done,
            c.whole(config).len(),
        ).0.awaiting == Awaiting::Over,
{
    let done = TrainEvent::Done;
    let s = RunState::start(config);
    let start = startup_actions(config);
    lemma_startup(c, config);
    let (s1, loaded) = c.after(s, done, 5);
    let load = loading_actions(config, c.warnings@, c.init);
    let k = c.warnings@.len() + 4;
    lemma_dataset(c, s1);
    let (s2, ready) = c.after(s1, loaded, k);
    assert(s2.queue == seq![
        TrainAction::EmitDoneLoading,
        TrainAction::MemoryCleanup,
        TrainAction::PrepareTrainer { loader_seed: LOADER_SEED },
    ]);
    lemma_first_splats(c, s2, load[k - 1]);
    let s3 = c.after(s2, ready, 4).0;
    lemma_trace_split(c, s1, loaded, k, 4);
    let loading = c.loading(config);
    assert(c.trace(s1, loaded, k + 4) == loading);
    let rest = c.iterations(config, s3.iter);
    lemma_iterations(c, s3);
    lemma_trace_split(c, s1, loaded, k + 4, rest.len());
    lemma_trace_split(c, s, done, 5, k + 4 + rest.len());
    assert(start + (loading + rest) == start + loading + rest);
    assert(c.whole(config).len() == 5 + (k + 4 + rest.len()));
}

/// A sequence of which nothing passes `keep` leaves nothing.
proof fn lemma_filter_none(s: Seq<TrainAction>, keep: spec_fn(TrainAction) -> bool)
    requires
        forall|i: int| 0 <= i < s.len() ==> !keep(#[trigger] s[i]),
    ensures
        s.filter(keep) == Seq::<TrainAction>::empty(),
    decreases s.len(),
{
    reveal(Seq::filter);
    if s.len() > 0 {
        assert forall|i: int| 0 <= i < s.drop_last().len() implies !keep(
            #[trigger] s.drop_last()[i],
        ) by {
            assert(s.drop_last()[i] == s[i]);
        }
        lemma_filter_none(s.drop_last(), keep);
    }
}

/// Of a sequence of which only the first item passes `keep`, that one is left.
proof fn lemma_filter_first(s: Seq<TrainAction>, keep: spec_fn(TrainAction) -> bool)
    requires
        s.len() > 0,
        keep(s[0]),
        forall|i: int| 0 < i < s.len() ==> !keep(#[trigger] s[i]),
    ensures
        s.filter(keep) == seq![s[0]],
{
    let head = seq![s[0]];
    let tail = s.skip(1);
    assert(s == head + tail);
    Seq::filter_distributes_over_add(head, tail, keep);
    assert forall|i: int| 0 <= i < tail.len() implies !keep(#[trigger] tail[i]) by {
        assert(tail[i] == s[i + 1]);
    }
    lemma_filter_none(tail, keep);
    assert(head.filter(keep) == head) by {
        reveal_with_fuel(Seq::filter, 2);
        assert(head.drop_last() == Seq::<TrainAction>::empty());
    }
    assert(head + Seq::<TrainAction>::empty() == head);
}

/// The training steps `from`, `from + 1`, and so on below `to`.
pub open spec fn steps(from: int, to: int) -> Seq<TrainAction> {
    Seq::new(
        if from < to {
            (to - from) as nat
        } else {
            0
        },
        |i: int| TrainAction::TrainStep { iter: (from + i) as u32 },
    )
}

proof fn lemma_iteration_steps(c: Course, config: TrainStreamConfig, iter: int)
    ensures
        c.iteration(config, iter).filter(|a: TrainAction| a is TrainStep) == seq![
            TrainAction::TrainStep { iter: iter as u32 },
        ],
{
    let keep = |a: TrainAction| a is TrainStep;
    let first = training_actions(config, iter);
    let plan = step_plan(config, c.has_eval, iter);
    let report = report_actions(config, plan, (c.stats)(iter), c.sh_degree);
    lemma_report_plain(config, plan, (c.stats)(iter), c.sh_degree);
    assert forall|i: int| 0 <= i < report.len() implies !keep(#[trigger] report[i]) by {
        assert(is_report(report[i]));
    }
    lemma_filter_none(report, keep);
    Seq::filter_distributes_over_add(first, report, keep);
    lemma_filter_first(first, keep);
}

proof fn lemma_iterations_steps(c: Course, config: TrainStreamConfig, iter: int)
    ensures
        c.iterations(config, iter).filter(|a: TrainAction| a is TrainStep) == steps(
            iter,
            config.train_config.total_steps as int,
        ),
    decreases config.train_config.total_steps - iter,
{
    let keep = |a: TrainAction| a is TrainStep;
    let total = config.train_config.total_steps as int;
    if iter < total {
        lemma_iteration_steps(c, config, iter);
        lemma_iterations_steps(c, config, iter + 1);
        Seq::filter_distributes_over_add(
            c.iteration(config, iter),
            c.iterations(config, iter + 1),
            keep,
        );
        assert(seq![TrainAction::TrainStep { iter: iter as u32 }] + steps(iter + 1, total)
            == steps(iter, total));
    } else {
        lemma_filter_none(closing_actions(), keep);
        assert(steps(iter, total) == Seq::<TrainAction>::empty());
    }
}

/// A run trains every step from the first one up to the last exactly once, and in
/// order.
pub proof fn law_every_step_once(c: Course, config: TrainStreamConfig)
    ensures
        c.whole(config).filter(|a: TrainAction| a is TrainStep) == steps(
            config.process_config.start_iter as int,
            config.train_config.total_steps as int,
        ),
{
    let keep = |a: TrainAction| a is TrainStep;
    let start = startup_actions(config);
    let loading = c.loading(config);
    let from = config.process_config.start_iter as int;
    lemma_filter_none(start, keep);
    assert forall|i: int| 0 <= i < loading.len() implies !keep(#[trigger] loading[i]) by {
        if i < c.warnings@.len() {
            assert(loading[i] == dataset_warnings(c.warnings@)[i]);
        }
    }
    lemma_filter_none(loading, keep);
    lemma_iterations_steps(c, config, from);
    Seq::filter_distributes_over_add(start, loading, keep);
    Seq::filter_distributes_over_add(start + loading, c.iterations(config, from), keep);
    assert(Seq::<TrainAction>::empty() + Seq::<TrainAction>::empty() + steps(
        from,
        config.train_config.total_steps as int,
    ) == steps(from, config.train_config.total_steps as int));
}

/// Whatever the intervals are, the last step exports if there is a disk, shows the splats
/// and the progress, and evaluates if there is anything to evaluate on.
pub proof fn law_last_step_reports(
    config: TrainStreamConfig,
    has_eval: bool,
    stats: RefineStats,
    sh_degree: u32,
)
    requires
        config.train_config.total_steps > 0,
    ensures
        ({
            let iter = config.train_config.total_steps;
            let report = report_actions(
                config,
                step_plan(config, has_eval, iter - 1),
                stats,
                sh_degree,
            );
            let save_to_disk = config.has_disk && config.process_config.eval_save_to_disk;
            let evaluate = TrainAction::Evaluate { iter, save_to_disk };
            &&& report.contains(TrainAction::ExportCheckpoint { iter }) <==> config.has_disk
            &&& report.contains(TrainAction::LogTrainStats { iter })
            &&& report.last() == (TrainAction::EmitTrainStep { iter, total_steps: iter })
            &&& report.contains(evaluate) <==> has_eval
        }),
{
    let iter = config.train_config.total_steps;
    let plan = step_plan(config, has_eval, iter - 1);
    let report = report_actions(config, plan, stats, sh_degree);
    let save_to_disk = plan.save_to_disk;
    let evaluate = TrainAction::Evaluate { iter, save_to_disk };
    reveal(and_if);
    assert(plan.is_last && plan.log_train_stats && plan.update_ui);
    assert(plan.export == config.has_disk && plan.evaluate == has_eval);
    let exported = TrainAction::ExportCheckpoint { iter };
    let logged = TrainAction::LogTrainStats { iter };
    let e: int = if has_eval {
        1
    } else {
        0
    };
    let x: int = if config.has_disk {
        1
    } else {
        0
    };
    let l: int = if plan.log_splats {
        1
    } else {
        0
    };
    if has_eval {
        assert(report[0] == evaluate);
    }
    if config.has_disk {
        assert(report[e] == exported);
    }
    assert(report[e + x + 1 + l] == logged);
    if report.contains(evaluate) {
        let i = choose|i: int| 0 <= i < report.len() && report[i] == evaluate;
        assert(report[i] is Evaluate);
    }
    if report.contains(exported) {
        let i = choose|i: int| 0 <= i < report.len() && report[i] == exported;
        assert(report[i] is ExportCheckpoint);
    }
}

/// A scene that cannot be shown, a failed evaluation and a failed export end nothing:
/// listeners get a warning, and the run goes on as it would have.
pub proof fn law_failure_only_warns(s: RunState, error: Failure)
    requires
        s.awaiting is Scene || s.awaiting is Evaluation || s.awaiting is Export,
        0 <= s.iter <= u32::MAX,
    ensures
        ({
            let failed = TrainEvent::Failed { error };
            let warned = s.next_state(failed);
            &&& s.next_action(failed) matches TrainAction::EmitWarning { error: e, .. } && e
                == error
            &&& warned.next_action(TrainEvent::Done) == s.next_action(TrainEvent::Done)
            &&& warned.next_state(TrainEvent::Done) == s.next_state(TrainEvent::Done)
        }),
{
    let failed = TrainEvent::Failed { error };
    let warned = s.next_state(failed);
    assert(s.absorb(failed).queue.drop_first() == s.queue);
    assert(warned == RunState { awaiting: Awaiting::Nothing, ..s });
    assert(s.absorb(TrainEvent::Done) == s);
    assert(warned.absorb(TrainEvent::Done) == warned);
}

/// Listeners hear that training is over as the last thing of every run, and never
/// before.
pub proof fn law_done_training_last(c: Course, config: TrainStreamConfig)
    ensures
        ({
            let all = c.whole(config);
            let n = all.len();
            &&& n >= 2
            &&& all[n - 2] is EmitDoneTraining
            &&& all[n - 1] is Finish
            &&& forall|i: int|
                0 <= i < n - 2 ==> !(#[trigger] all[i] is EmitDoneTraining) && !(all[i] is Finish)
        }),
{
    let start = startup_actions(config);
    let loading = c.loading(config);
    let rest = c.iterations(config, config.process_config.start_iter as int);
    let all = c.whole(config);
    lemma_iterations_end(c, config, config.process_config.start_iter as int);
    let m = (start + loading).len() as int;
    assert(all[all.len() - 2] == rest[rest.len() - 2]);
    assert(all[all.len() - 1] == rest[rest.len() - 1]);
    assert forall|i: int| 0 <= i < all.len() - 2 implies !(#[trigger] all[i] is EmitDoneTraining)
        && !(all[i] is Finish) by {
        if i < start.len() {
            assert(all[i] == start[i]);
        } else if i < m {
            let j = i - start.len();
            assert(all[i] == loading[j]);
            if j < c.warnings@.len() {
                assert(loading[j] == dataset_warnings(c.warnings@)[j]);
            }
        } else {
            assert(all[i] == rest[i - m]);
        }
    }
}

proof fn lemma_iterations_end(c: Course, config: TrainStreamConfig, iter: int)
    ensures
        ({
            let all = c.iterations(config, iter);
            let n = all.len();
            &&& n >= 2
            &&& all[n - 2] is EmitDoneTraining
            &&& all[n - 1] is Finish
            &&& forall|i: int|
                0 <= i < n - 2 ==> !(#[trigger] all[i] is EmitDoneTraining) && !(all[i] is Finish)
        }),
    decreases config.train_config.total_steps - iter,
{
    if iter < config.train_config.total_steps {
        let now = c.iteration(config, iter);
        let rest = c.iterations(config, iter + 1);
        let all = c.iterations(config, iter);
        lemma_iterations_end(c, config, iter + 1);
        let plan = step_plan(config, c.has_eval, iter);
        let report = report_actions(config, plan, (c.stats)(iter), c.sh_degree);
        lemma_report_plain(config, plan, (c.stats)(iter), c.sh_degree);
        assert(all == now + rest);
        assert(all[all.len() - 2] == rest[rest.len() - 2]);
        assert(all[all.len() - 1] == rest[rest.len() - 1]);
        assert forall|i: int|
            0 <= i < all.len() - 2 implies !(#[trigger] all[i] is EmitDoneTraining)
            && !(all[i] is Finish) by {
            let first = training_actions(config, iter);
            if i < first.len() {
                assert(all[i] == first[i]);
            } else if i < now.len() {
                assert(all[i] == report[i - first.len()]);
                assert(is_report(report[i - first.len()]));
            } else {
                assert(all[i] == rest[i - now.len()]);
            }
        }
    }
}

/// An evaluation that is due between two steps comes before the refinement of the second
/// one.
pub proof fn law_evaluated_before_refined(c: Course, config: TrainStreamConfig, iter: int)
    requires
        0 < iter < config.train_config.total_steps,
        step_plan(config, c.has_eval, iter - 1).evaluate,
    ensures
        ({
            let all = c.iterations(config, iter - 1);
            exists|p: int, q: int|
                0 <= p < q < all.len() && #[trigger] all[p] == (TrainAction::Evaluate {
                    iter: iter as u32,
                    save_to_disk: config.has_disk && config.process_config.eval_save_to_disk,
                }) && #[trigger] all[q] == (TrainAction::Refine {
                    iter: iter as u32,
                    kind: refine_due(config.train_config, iter),
                })
        }),
{
    let all = c.iterations(config, iter - 1);
    let now = c.iteration(config, iter - 1);
    let next = c.iteration(config, iter);
    let plan = step_plan(config, c.has_eval, iter - 1);
    let report = report_actions(config, plan, (c.stats)(iter - 1), c.sh_degree);
    let later = c.iterations(config, iter);
    assert(all == now + later);
    assert(later == next + c.iterations(config, iter + 1));
    lemma_first_report(config, plan, (c.stats)(iter - 1), c.sh_degree);
    let p = training_actions(config, iter - 1).len() as int;
    let first = training_actions(config, iter);
    let k = first.len() - 1;
    assert(now[p] == report[0]);
    let q = now.len() + k;
    assert(all[p] == report[0]);
    assert(next[k] == first[k]);
    assert(later[k] == next[k]);
    assert(all[q] == later[k]);
}

/// A due evaluation is the first report.
proof fn lemma_first_report(
    config: TrainStreamConfig,
    plan: StepPlan,
    stats: RefineStats,
    sh_degree: u32,
)
    requires
        plan.evaluate,
    ensures
        report_actions(config, plan, stats, sh_degree).len() > 0,
        report_actions(config, plan, stats, sh_degree)[0] == (TrainAction::Evaluate {
            iter: plan.next_iter,
            save_to_disk: plan.save_to_disk,
        }),
{
    reveal(and_if);
}

/// Splats are scored, on as many views as were asked for, right before every refinement
/// that may add or remove some, and at no other time.
pub proof fn law_scored_before_refined(config: TrainStreamConfig, iter: int)
    ensures
        ({
            let all = training_actions(config, iter);
            let kind = refine_due(config.train_config, iter);
            let score = TrainAction::ScoreSplats {
                n_views: config.train_config.n_views,
                error_threshold: config.train_config.high_error_threshold,
            };
            &&& all.last() == (TrainAction::Refine { iter: iter as u32, kind })
            &&& all.contains(score) <==> !(kind is Skip)
            &&& !(kind is Skip) ==> all[all.len() - 2] == score
        }),
{
    let all = training_actions(config, iter);
    let kind = refine_due(config.train_config, iter);
    let score = TrainAction::ScoreSplats {
        n_views: config.train_config.n_views,
        error_threshold: config.train_config.high_error_threshold,
    };
    if kind is Skip {
        if all.contains(score) {
            let i = choose|i: int| 0 <= i < all.len() && all[i] == score;
            assert(all[i] is ScoreSplats);
        }
    } else {
        assert(all[1] == score);
    }
}

} // verus!
