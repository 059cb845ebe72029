//! Scoring splats by how much they have to do with errors.

use crate::message::Vec3Bits;
use crate::num::F32Bits;
use crate::render::RasterizeMode;
use vstd::prelude::*;

verus! {

/// The side of the window in which structure is compared.
pub const SSIM_WINDOW_SIZE: usize = 11;

/// The number of color channels that are compared.
pub const COLOR_CHANNELS: usize = 3;

/// One thing that is done to score splats.
#[derive(Clone, Copy, PartialEq, Eq, Structural, Debug)]
pub enum ScoreStep {
    /// Make two rows of zeros, one value for each splat: for counts, and for losses.
    ClearSums { num_splats: usize },
    /// Take the next training view.
    NextBatch,
    /// Run the first pass.
    Project,
    /// Read how many intersections there are.
    ReadNumIntersections,
    /// Run the second pass. The second time it gets the mask of high errors.
    Rasterize { mode: RasterizeMode, background: Vec3Bits, masked: bool },
    /// Compare the picture with the view, and mark where the error is above the
    /// threshold.
    MarkErrors { channels: usize },
    /// Add the counts to the first row, and the counts times the mean loss to the second.
    AddCounts,
    /// Divide the first row by the number of views, and bring the second one to the range
    /// from zero to one.
    Scale { n_views: i32 },
}

/// The color behind the splats that are scored.
pub open spec fn black() -> Vec3Bits {
    let zero = F32Bits { bits: 0 };
    Vec3Bits { x: zero, y: zero, z: zero }
}

/// How the splats of one view are measured.
pub open spec fn view_steps() -> Seq<ScoreStep> {
    let background = black();
    let plain = RasterizeMode { bwd_info: true, high_error_info: false };
    let counting = RasterizeMode { bwd_info: true, high_error_info: true };
    seq![
        ScoreStep::Project,
        ScoreStep::ReadNumIntersections,
        ScoreStep::Rasterize { mode: plain, background, masked: false },
        ScoreStep::MarkErrors { channels: COLOR_CHANNELS },
        ScoreStep::Rasterize { mode: counting, background, masked: true },
    ]
}

/// What is done for the first `n` views.
pub open spec fn views_steps(n: nat) -> Seq<ScoreStep>
    decreases n,
{
    if n == 0 {
        Seq::empty()
    } else {
        views_steps((n - 1) as nat) + (seq![ScoreStep::NextBatch] + view_steps()).push(
            ScoreStep::AddCounts,
        )
    }
}

/// How many views are looked at.
pub open spec fn view_count(n_views: i32) -> nat {
    if n_views > 0 {
        n_views as nat
    } else {
        0
    }
}

/// Lists how the splats of one view are measured.
pub fn compute_view_metrics() -> (r: Vec<ScoreStep>)
    ensures
        r@ == view_steps(),
{
    let plain = RasterizeMode { bwd_info: true, high_error_info: false };
    let counting = RasterizeMode { bwd_info: true, high_error_info: true };
    let zero = F32Bits { bits: 0 };
    let background = Vec3Bits { x: zero, y: zero, z: zero };
    let out = vec![
        ScoreStep::Project,
        ScoreStep::ReadNumIntersections,
        ScoreStep::Rasterize { mode: plain, background, masked: false },
        ScoreStep::MarkErrors { channels: COLOR_CHANNELS },
        ScoreStep::Rasterize { mode: counting, background, masked: true },
    ];
    assert(out@ =~= view_steps());
    out
}

/// Lists what is done to score splats.
pub fn compute_gaussian_score(num_splats: usize, n_views: i32) -> (r: Vec<ScoreStep>)
    ensures
        r@ == (seq![ScoreStep::ClearSums { num_splats }] + views_steps(view_count(n_views))).push(
            ScoreStep::Scale { n_views },
        ),
{
    let mut out: Vec<ScoreStep> = Vec::new();
    out.push(ScoreStep::ClearSums { num_splats });
    let ghost head = seq![ScoreStep::ClearSums { num_splats }];
    assert(out@ =~= head + views_steps(0));
    let mut view: i32 = 0;
    while view < n_views
        invariant
            0 <= view,
            view <= n_views || view == 0,
            out@ == head + views_steps(view as nat),
        decreases n_views - view,
    {
        let ghost before = out@;
        out.push(ScoreStep::NextBatch);
        let steps = compute_view_metrics();
        let ghost started = out@;
        let mut i: usize = 0;
        while i < steps.len()
            invariant
                i <= steps.len(),
                steps@ == view_steps(),
                out@ == started + steps@.take(i as int),
            decreases steps.len() - i,
        {
            out.push(steps[i]);
            i = i + 1;
            assert(steps@.take(i as int) == steps@.take(i - 1).push(steps@[i - 1]));
        }
        assert(steps@.take(steps@.len() as int) == steps@);
        out.push(ScoreStep::AddCounts);
        assert(out@ =~= before + (seq![ScoreStep::NextBatch] + view_steps()).push(
            ScoreStep::AddCounts,
        ));
        view = view + 1;
        assert(out@ =~= head + views_steps(view as nat));
    }
    out.push(ScoreStep::Scale { n_views });
    out
}

/// As many views are taken, and added to the scores, as were asked for.
pub proof fn law_every_view_counts(n: nat)
    ensures
        views_steps(n).filter(|s: ScoreStep| s is NextBatch).len() == n,
        views_steps(n).filter(|s: ScoreStep| s is AddCounts).len() == n,
    decreases n,
{
    let taken = |s: ScoreStep| s is NextBatch;
    let added = |s: ScoreStep| s is AddCounts;
    reveal(Seq::filter);
    if n > 0 {
        let before = views_steps((n - 1) as nat);
        let now = (seq![ScoreStep::NextBatch] + view_steps()).push(ScoreStep::AddCounts);
        law_every_view_counts((n - 1) as nat);
        Seq::filter_distributes_over_add(before, now, taken);
        Seq::filter_distributes_over_add(before, now, added);
        lemma_one_view();
    }
}

proof fn lemma_one_view()
    ensures
        ({
            let now = (seq![ScoreStep::NextBatch] + view_steps()).push(ScoreStep::AddCounts);
            &&& now.filter(|s: ScoreStep| s is NextBatch).len() == 1
            &&& now.filter(|s: ScoreStep| s is AddCounts).len() == 1
        }),
{
    let taken = |s: ScoreStep| s is NextBatch;
    let added = |s: ScoreStep| s is AddCounts;
    let first = seq![ScoreStep::NextBatch];
    let middle = view_steps();
    let last = seq![ScoreStep::AddCounts];
    let now = (first + middle).push(ScoreStep::AddCounts);
    assert(now == first + middle + last);
    Seq::filter_distributes_over_add(first + middle, last, taken);
    Seq::filter_distributes_over_add(first, middle, taken);
    Seq::filter_distributes_over_add(first + middle, last, added);
    Seq::filter_distributes_over_add(first, middle, added);
    lemma_single(ScoreStep::NextBatch, taken);
    lemma_single(ScoreStep::NextBatch, added);
    lemma_single(ScoreStep::AddCounts, taken);
    lemma_single(ScoreStep::AddCounts, added);
    lemma_none(middle, taken);
    lemma_none(middle, added);
}

proof fn lemma_single(step: ScoreStep, keep: spec_fn(ScoreStep) -> bool)
    ensures
        seq![step].filter(keep).len() == if keep(step) {
            1nat
        } else {
            0nat
        },
{
    reveal_with_fuel(Seq::filter, 2);
    assert(seq![step].drop_last() == Seq::<ScoreStep>::empty());
}

proof fn lemma_none(steps: Seq<ScoreStep>, keep: spec_fn(ScoreStep) -> bool)
    requires
        forall|i: int| 0 <= i < steps.len() ==> !keep(#[trigger] steps[i]),
    ensures
        steps.filter(keep).len() == 0,
    decreases steps.len(),
{
    reveal(Seq::filter);
    if steps.len() > 0 {
        assert forall|i: int| 0 <= i < steps.drop_last().len() implies !keep(
            #[trigger] steps.drop_last()[i],
        ) by {
            assert(steps.drop_last()[i] == steps[i]);
        }
        lemma_none(steps.drop_last(), keep);
    }
}

/// What is done for each view, in order: the view is taken, its splats are projected and
/// drawn without a mask on black, the errors of three channels are marked, the splats are
/// drawn again with the mask to be counted where the errors are, and the counts are added.
pub proof fn law_steps_of_every_view(n: nat, view: int)
    requires
        0 <= view < n,
    ensures
        ({
            let all = views_steps(n);
            let k = 7 * view;
            &&& all.len() == 7 * n
            &&& all[k] is NextBatch
            &&& all[k + 1] is Project
            &&& all[k + 2] is ReadNumIntersections
            &&& all[k + 3] matches ScoreStep::Rasterize { mode, background, masked } && {
                &&& mode.bwd_info && !mode.high_error_info && !masked
                &&& background.x.bits == 0 && background.y.bits == 0 && background.z.bits == 0
            }
            &&& all[k + 4] matches ScoreStep::MarkErrors { channels } && channels == 3
            &&& all[k + 5] matches ScoreStep::Rasterize { mode, background, masked } && {
                &&& mode.bwd_info && mode.high_error_info && masked
                &&& background.x.bits == 0 && background.y.bits == 0 && background.z.bits == 0
            }
            &&& all[k + 6] is AddCounts
        }),
    decreases n,
{
    let before = views_steps((n - 1) as nat);
    let now = (seq![ScoreStep::NextBatch] + view_steps()).push(ScoreStep::AddCounts);
    let all = views_steps(n);
    assert(all == before + now);
    if view < n - 1 {
        law_steps_of_every_view((n - 1) as nat, view);
        let k = 7 * view;
        assert(all[k] == before[k] && all[k + 1] == before[k + 1] && all[k + 2] == before[k + 2]
            && all[k + 3] == before[k + 3] && all[k + 4] == before[k + 4] && all[k + 5]
            == before[k + 5] && all[k + 6] == before[k + 6]);
    } else {
        lemma_views_len((n - 1) as nat);
        let k = 7 * view;
        assert(before.len() == k);
        assert(all[k] == now[0] && all[k + 1] == now[1] && all[k + 2] == now[2] && all[k + 3]
            == now[3] && all[k + 4] == now[4] && all[k + 5] == now[5] && all[k + 6] == now[6]);
    }
}

proof fn lemma_views_len(n: nat)
    ensures
        views_steps(n).len() == 7 * n,
    decreases n,
{
    if n > 0 {
        lemma_views_len((n - 1) as nat);
    }
}

/// As many views are looked at as were asked for, and none for a number below zero.
pub proof fn law_view_count(n_views: i32)
    ensures
        n_views >= 0 ==> view_count(n_views) == n_views,
        n_views < 0 ==> view_count(n_views) == 0,
{
}

} // verus!
