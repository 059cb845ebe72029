//! Evaluation on views that were held out from training.

use crate::failure::Failure;
use crate::num::low_u32;
use crate::paths::{
    extension, extension_of, join_path, parent, parent_of, path_joined, stem, stem_of, PathStyle,
};
use crate::text::{decimal, push_decimal};
use vstd::prelude::*;
use vstd::string::*;

verus! {

/// One thing that an evaluation does. It ends with the first one that fails.
#[derive(Clone, Copy, PartialEq, Eq, Structural, Debug)]
pub enum EvalAction {
    /// Read the image of a view.
    Load { view: usize },
    /// Render a view, and compare it with its image.
    Measure { view: usize },
    /// Read the figures of the comparison, and add them up.
    Add { view: usize },
    /// Write what was rendered to a file.
    Save { view: usize },
    /// Send what was rendered to the visualizer.
    LogSample { view: usize, index: u32 },
    /// Divide the sums by the number of views.
    Average { count: usize },
    /// Send the averages to the visualizer.
    LogStats,
    /// Tell listeners the averages.
    EmitResult,
}

/// What an evaluation does besides measuring.
#[derive(Clone, Copy, PartialEq, Eq, Structural, Debug)]
pub struct EvalMode {
    /// Whether rendered views are written to files.
    pub save: bool,
    /// Whether the visualizer and listeners hear of it.
    pub log: bool,
}

/// What is done with one view. An evaluation that nobody hears of writes the view to a
/// file before it reads the figures, the other one afterwards.
pub open spec fn view_actions(view: int, mode: EvalMode) -> Seq<EvalAction> {
    let v = view as usize;
    let s = seq![EvalAction::Load { view: v }, EvalAction::Measure { view: v }];
    let s = if mode.log {
        s.push(EvalAction::Add { view: v })
    } else {
        s
    };
    let s = if mode.save {
        s.push(EvalAction::Save { view: v })
    } else {
        s
    };
    if mode.log {
        s.push(EvalAction::LogSample { view: v, index: (view % 0x1_0000_0000) as u32 })
    } else {
        s.push(EvalAction::Add { view: v })
    }
}

/// What is done with the first `views` views.
pub open spec fn views_actions(views: nat, mode: EvalMode) -> Seq<EvalAction>
    decreases views,
{
    if views == 0 {
        Seq::empty()
    } else {
        views_actions((views - 1) as nat, mode) + view_actions(views - 1, mode)
    }
}

/// What follows when all views are done.
pub open spec fn summary_actions(views: nat, mode: EvalMode) -> Seq<EvalAction> {
    if mode.log {
        seq![
            EvalAction::Average { count: views as usize },
            EvalAction::LogStats,
            EvalAction::EmitResult,
        ]
    } else {
        seq![EvalAction::Average { count: views as usize }]
    }
}

/// Lists what an evaluation on `views` views does.
pub fn run_eval(views: usize, mode: EvalMode) -> (r: Vec<EvalAction>)
    ensures
        r@ == views_actions(views as nat, mode) + summary_actions(views as nat, mode),
{
    let mut out: Vec<EvalAction> = Vec::new();
    for view in 0..views
        invariant
            out@ == views_actions(view as nat, mode),
    {
        let ghost before = out@;
        out.push(EvalAction::Load { view });
        out.push(EvalAction::Measure { view });
        if mode.log {
            out.push(EvalAction::Add { view });
        }
        if mode.save {
            out.push(EvalAction::Save { view });
        }
        if mode.log {
            out.push(EvalAction::LogSample { view, index: low_u32(view) });
        } else {
            out.push(EvalAction::Add { view });
        }
        assert(out@ == before + view_actions(view as int, mode));
    }
    let ghost before = out@;
    out.push(EvalAction::Average { count: views });
    if mode.log {
        out.push(EvalAction::LogStats);
        out.push(EvalAction::EmitResult);
    }
    assert(out@ == before + summary_actions(views as nat, mode));
    out
}

/// Whether `action` measures, adds up or averages.
pub open spec fn is_measurement(action: EvalAction) -> bool {
    action is Measure || action is Add || action is Average
}

/// Each of the first `views` views is measured, and its figures are added up.
pub open spec fn measurements(views: nat) -> Seq<EvalAction> {
    Seq::new(
        2 * views,
        |i: int|
            if i % 2 == 0 {
                EvalAction::Measure { view: (i / 2) as usize }
            } else {
                EvalAction::Add { view: (i / 2) as usize }
            },
    )
}

/// Every view is measured and added up once, in order, and as many are averaged as were
/// added up.
pub proof fn law_every_view_measured(views: nat, mode: EvalMode)
    requires
        views <= usize::MAX,
    ensures
        (views_actions(views, mode) + summary_actions(views, mode)).filter(
            |a: EvalAction| is_measurement(a),
        ) == measurements(views).push(EvalAction::Average { count: views as usize }),
{
    let keep = |a: EvalAction| is_measurement(a);
    let head = views_actions(views, mode);
    let tail = summary_actions(views, mode);
    Seq::filter_distributes_over_add(head, tail, keep);
    lemma_views_measured(views, mode);
    let average = EvalAction::Average { count: views as usize };
    assert(tail.filter(keep) == seq![average]) by {
        reveal_with_fuel(Seq::filter, 4);
        if mode.log {
            let t1 = tail.drop_last();
            assert(t1.drop_last() == seq![average]);
            assert(t1.drop_last().drop_last() == Seq::<EvalAction>::empty());
        } else {
            assert(tail.drop_last() == Seq::<EvalAction>::empty());
        }
    }
}

proof fn lemma_views_measured(views: nat, mode: EvalMode)
    ensures
        views_actions(views, mode).filter(|a: EvalAction| is_measurement(a)) == measurements(views),
    decreases views,
{
    let keep = |a: EvalAction| is_measurement(a);
    reveal(Seq::filter);
    if views > 0 {
        let n = (views - 1) as nat;
        lemma_views_measured(n, mode);
        let now = view_actions(n as int, mode);
        Seq::filter_distributes_over_add(views_actions(n, mode), now, keep);
        lemma_view_measured(n as int, mode);
        let two = seq![
            EvalAction::Measure { view: n as usize },
            EvalAction::Add { view: n as usize },
        ];
        assert(now.filter(keep) == two);
        assert(measurements(n) + two == measurements(views));
    } else {
        assert(measurements(0) == Seq::<EvalAction>::empty());
    }
}

proof fn lemma_view_measured(view: int, mode: EvalMode)
    ensures
        view_actions(view, mode).filter(|a: EvalAction| is_measurement(a)) == seq![
            EvalAction::Measure { view: view as usize },
            EvalAction::Add { view: view as usize },
        ],
{
    let keep = |a: EvalAction| is_measurement(a);
    let v = view as usize;
    let measure = EvalAction::Measure { view: v };
    let add_up = EvalAction::Add { view: v };
    let save = EvalAction::Save { view: v };
    let start = seq![EvalAction::Load { view: v }];
    let pair = start.push(measure);
    assert(pair == seq![EvalAction::Load { view: v }, measure]);
    assert(start.filter(keep) == Seq::<EvalAction>::empty()) by {
        assert(start == Seq::<EvalAction>::empty().push(EvalAction::Load { view: v }));
        lemma_filter_push(Seq::empty(), EvalAction::Load { view: v }, keep);
        reveal(Seq::filter);
    }
    lemma_filter_push(start, measure, keep);
    let s = if mode.log {
        pair.push(add_up)
    } else {
        pair
    };
    lemma_filter_push(pair, add_up, keep);
    let t = if mode.save {
        s.push(save)
    } else {
        s
    };
    lemma_filter_push(s, save, keep);
    lemma_filter_push(
        t,
        EvalAction::LogSample { view: v, index: (view % 0x1_0000_0000) as u32 },
        keep,
    );
    lemma_filter_push(t, add_up, keep);
}

/// The last item is kept behind the others, or left out.
proof fn lemma_filter_push(s: Seq<EvalAction>, last: EvalAction, keep: spec_fn(EvalAction) -> bool)
    ensures
        s.push(last).filter(keep) == if keep(last) {
            s.filter(keep).push(last)
        } else {
            s.filter(keep)
        },
{
    reveal(Seq::filter);
    assert(s.push(last).drop_last() == s);
}

/// Says of an error in which part of the evaluation it came up.
pub fn explain_eval_failure(action: EvalAction, error: Failure) -> (r: Failure)
    ensures
        action is Measure ==> r.causes() == seq!["Failed to run eval for sample."@]
            + error.causes(),
        !(action is Measure) ==> r == error,
{
    match action {
        EvalAction::Measure { .. } => error.context("Failed to run eval for sample.".to_owned()),
        _ => error,
    }
}

/// The file that a rendered view is written to.
pub open spec fn eval_image(
    style: PathStyle,
    dir: Seq<char>,
    iter: nat,
    img_name: Seq<char>,
) -> Seq<char> {
    path_joined(style, path_joined(style, dir, "eval_"@ + decimal(iter)), img_name + ".png"@)
}

/// Finds the file that a rendered view is written to.
pub fn eval_image_path(style: PathStyle, dir: &str, iter: u32, img_name: &str) -> (r: String)
    ensures
        r@ == eval_image(style, dir@, iter as nat, img_name@),
{
    let mut folder: String = "eval_".to_owned();
    push_decimal(&mut folder, iter as u64);
    let mut file: String = img_name.to_owned();
    file.append(".png");
    let inner: String = join_path(style, dir, folder.as_str());
    join_path(style, inner.as_str(), file.as_str())
}

/// The files that one compared view is written to.
pub struct SamplePaths {
    pub dir: String,
    pub gt: String,
    pub rendered: String,
}

/// `stem` followed by `suffix` and the extension.
pub open spec fn sample_file(stem: Seq<char>, suffix: Seq<char>, extension: Seq<char>) -> Seq<
    char,
> {
    stem + suffix + extension
}

/// The value, or what stands in for it.
pub open spec fn or_text(value: Option<Seq<char>>, other: Seq<char>) -> Seq<char> {
    match value {
        Some(text) => text,
        None => other,
    }
}

fn or_owned(value: Option<String>, other: &str) -> (r: String)
    ensures
        r@ == or_text(crate::paths::text_view(value), other@),
{
    match value {
        Some(text) => text,
        None => other.to_owned(),
    }
}

/// Finds the two files that a compared view is written to: next to `path`, with names
/// that are made from its own.
pub fn sample_paths(style: PathStyle, path: &str) -> (r: SamplePaths)
    ensures
        ({
            let dir = or_text(parent_of(style, path@), "."@);
            let stem = or_text(stem_of(style, path@), "eval"@);
            let extension = or_text(extension_of(style, path@), "png"@);
            &&& r.dir@ == dir
            &&& r.gt@ == path_joined(style, dir, sample_file(stem, "_gt."@, extension))
            &&& r.rendered@ == path_joined(style, dir, sample_file(stem, "_rendered."@, extension))
        }),
{
    let dir: String = or_owned(parent(style, path), ".");
    let name: String = or_owned(stem(style, path), "eval");
    let ext: String = or_owned(extension(style, path), "png");
    let mut gt: String = name.clone();
    gt.append("_gt.");
    gt.append(ext.as_str());
    let mut rendered: String = name;
    rendered.append("_rendered.");
    rendered.append(ext.as_str());
    let gt_path: String = join_path(style, dir.as_str(), gt.as_str());
    let rendered_path: String = join_path(style, dir.as_str(), rendered.as_str());
    SamplePaths { dir, gt: gt_path, rendered: rendered_path }
}

/// What an evaluation does with each view. It reads and measures it, adds its figures up,
/// writes it to a file exactly if that was asked for, and sends it to the visualizer with
/// its number exactly if there are listeners.
pub proof fn law_every_view(views: nat, mode: EvalMode, view: usize, index: u32)
    requires
        views <= usize::MAX,
    ensures
        ({
            let all = views_actions(views, mode);
            &&& all.contains(EvalAction::Load { view }) <==> view < views
            &&& all.contains(EvalAction::Measure { view }) <==> view < views
            &&& all.contains(EvalAction::Add { view }) <==> view < views
            &&& all.contains(EvalAction::Save { view }) <==> view < views && mode.save
            &&& all.contains(EvalAction::LogSample { view, index }) <==> view < views && mode.log
                && index == view as int % 0x1_0000_0000
            &&& forall|i: int|
                0 <= i < all.len() ==> !((#[trigger] all[i]) is Average) && !(all[i] is LogStats)
                    && !(all[i] is EmitResult)
        }),
    decreases views,
{
    let load = EvalAction::Load { view };
    let measure = EvalAction::Measure { view };
    let adds = EvalAction::Add { view };
    let save = EvalAction::Save { view };
    let sample = EvalAction::LogSample { view, index };
    if views > 0 {
        let n = (views - 1) as nat;
        let before = views_actions(n, mode);
        let now = view_actions(n as int, mode);
        law_every_view(n, mode, view, index);
        lemma_contains_add(before, now, load);
        lemma_contains_add(before, now, measure);
        lemma_contains_add(before, now, adds);
        lemma_contains_add(before, now, save);
        lemma_contains_add(before, now, sample);
        lemma_one_view(n as int, mode, load);
        lemma_one_view(n as int, mode, measure);
        lemma_one_view(n as int, mode, adds);
        lemma_one_view(n as int, mode, save);
        lemma_one_view(n as int, mode, sample);
        let all = views_actions(views, mode);
        assert forall|i: int| 0 <= i < all.len() implies !((#[trigger] all[i]) is Average) && !(
        all[i] is LogStats) && !(all[i] is EmitResult) by {
            if i < before.len() {
                assert(all[i] == before[i]);
            } else {
                assert(all[i] == now[i - before.len()]);
            }
        }
    }
}

proof fn lemma_contains_add(a: Seq<EvalAction>, b: Seq<EvalAction>, x: EvalAction)
    ensures
        (a + b).contains(x) <==> a.contains(x) || b.contains(x),
{
    if a.contains(x) {
        let i = choose|i: int| 0 <= i < a.len() && a[i] == x;
        assert((a + b)[i] == x);
    }
    if b.contains(x) {
        let i = choose|i: int| 0 <= i < b.len() && b[i] == x;
        assert((a + b)[a.len() + i] == x);
    }
    if (a + b).contains(x) {
        let i = choose|i: int| 0 <= i < (a + b).len() && (a + b)[i] == x;
        if i < a.len() {
            assert(a[i] == x);
        } else {
            assert(b[i - a.len()] == x);
        }
    }
}

proof fn lemma_one_view(n: int, mode: EvalMode, x: EvalAction)
    requires
        0 <= n <= usize::MAX,
    ensures
        view_actions(n, mode).contains(x) <==> match x {
            EvalAction::Load { view } => view == n,
            EvalAction::Measure { view } => view == n,
            EvalAction::Add { view } => view == n,
            EvalAction::Save { view } => view == n && mode.save,
            EvalAction::LogSample { view, index } => view == n && index == n % 0x1_0000_0000 && mode.log,
            _ => false,
        },
{
    let now = view_actions(n, mode);
    let k = if mode.log {
        3int
    } else {
        2
    };
    assert(now[0] is Load);
    assert(now[1] is Measure);
    assert(mode.log ==> now[2] is Add);
    assert(mode.save ==> now[k] is Save);
    assert(now[now.len() - 1] is Add || mode.log);
    assert(now[now.len() - 1] is LogSample || !mode.log);
    if now.contains(x) {
        let i = choose|i: int| 0 <= i < now.len() && now[i] == x;
        assert(now[i] == x);
    }
    if x is Load {
        assert(now[0] == x || x->Load_view != n);
    }
    if x is Measure {
        assert(now[1] == x || x->Measure_view != n);
    }
    if x is Add {
        let at = if mode.log {
            2int
        } else {
            now.len() - 1
        };
        assert(now[at] == x || x->Add_view != n);
    }
    if x is Save && mode.save {
        assert(now[k] == x || x->Save_view != n);
    }
    if let EvalAction::LogSample { view, index } = x {
        if mode.log && view == n && index == n % 0x1_0000_0000 {
            assert(now[now.len() - 1] == x);
        }
    }
}

/// The views come one after the other: nothing is done about a view before everything that
/// is done about those before it, and reading a view comes before measuring it, adding its
/// figures up, writing it to a file and logging it.
pub proof fn law_views_in_order(views: nat, mode: EvalMode, p: int, q: int)
    requires
        views <= usize::MAX,
        0 <= p < q < views_actions(views, mode).len(),
    ensures
        ({
            let all = views_actions(views, mode);
            &&& 0 <= view_of(all[p]) <= view_of(all[q]) < views
            &&& view_of(all[p]) == view_of(all[q]) ==> !(all[q] is Load) && (all[q] is Measure
                ==> all[p] is Load) && !(all[p] is LogSample) && (all[p] is Save && mode.log
                ==> all[q] is LogSample) && (all[p] is Save && !mode.log ==> all[q] is Add)
        }),
    decreases views,
{
    let n = (views - 1) as nat;
    let before = views_actions(n, mode);
    let now = view_actions(n as int, mode);
    let all = views_actions(views, mode);
    assert(all == before + now);
    if q < before.len() {
        law_views_in_order(n, mode, p, q);
        assert(all[p] == before[p] && all[q] == before[q]);
    } else {
        assert(all[q] == now[q - before.len()]);
        if p < before.len() {
            lemma_views_below(n, mode, p);
            assert(all[p] == before[p]);
        } else {
            assert(all[p] == now[p - before.len()]);
        }
    }
}

/// Which view an action is about.
pub open spec fn view_of(a: EvalAction) -> int {
    match a {
        EvalAction::Load { view } => view as int,
        EvalAction::Measure { view } => view as int,
        EvalAction::Add { view } => view as int,
        EvalAction::Save { view } => view as int,
        EvalAction::LogSample { view, .. } => view as int,
        _ => -1,
    }
}

proof fn lemma_views_below(views: nat, mode: EvalMode, p: int)
    requires
        views <= usize::MAX,
        0 <= p < views_actions(views, mode).len(),
    ensures
        0 <= view_of(views_actions(views, mode)[p]) < views,
    decreases views,
{
    let n = (views - 1) as nat;
    let before = views_actions(n, mode);
    let now = view_actions(n as int, mode);
    assert(views_actions(views, mode) == before + now);
    if p < before.len() {
        lemma_views_below(n, mode, p);
        assert(views_actions(views, mode)[p] == before[p]);
    } else {
        assert(views_actions(views, mode)[p] == now[p - before.len()]);
    }
}

/// Once all views are done their figures are averaged over all of them, and the averages
/// go to the visualizer and to listeners exactly if there are any.
pub proof fn law_averages(views: nat, mode: EvalMode)
    requires
        views <= usize::MAX,
    ensures
        ({
            let last = summary_actions(views, mode);
            &&& last[0] matches EvalAction::Average { count } && count == views
            &&& mode.log ==> last.len() == 3 && last[1] is LogStats && last[2] is EmitResult
            &&& !mode.log ==> last.len() == 1
        }),
{
}

} // verus!
