//! What holds of loading splats as a whole.

use crate::message::SplatId;
use crate::view_stream::{Loading, SplatMeta, ViewAction, ViewEvent, ViewWait};
use vstd::prelude::*;

verus! {

/// What the world answers while splats are loaded and nothing fails.
pub struct LoadCourse {
    /// The parts that each file is read in.
    pub parts: spec_fn(int) -> Seq<(SplatMeta, SplatId)>,
}

impl LoadCourse {
    /// What reading on in a file gives once `read` parts of it were read.
    pub open spec fn part(self, file: int, read: int) -> ViewEvent {
        if 0 <= read < (self.parts)(file).len() {
            let (meta, splats) = (self.parts)(file)[read];
            ViewEvent::Part { meta, splats }
        } else {
            ViewEvent::End
        }
    }

    /// What comes of `action` when `file` is open and `read` parts of it were read.
    pub open spec fn answer(self, action: ViewAction, file: int, read: int) -> ViewEvent {
        match action {
            ViewAction::Read => self.part(file, read),
            _ => ViewEvent::Done,
        }
    }

    /// How often the open file was read once `action` was performed.
    pub open spec fn reads(self, action: ViewAction, read: int) -> int {
        match action {
            ViewAction::Open { .. } => 0,
            ViewAction::Read => read + 1,
            _ => read,
        }
    }

    /// The first `n` actions that are handed out from `state` on, when the last action was
    /// answered by `event` and the open file was read `read` times.
    pub open spec fn trace(self, state: Loading, event: ViewEvent, read: int, n: nat) -> Seq<
        ViewAction,
    >
        decreases n,
    {
        if n == 0 {
            seq![]
        } else {
            let action = state.next_action(event);
            let next = state.next_state(event);
            seq![action] + self.trace(
                next,
                self.answer(action, next.begun - 1, read),
                self.reads(action, read),
                (n - 1) as nat,
            )
        }
    }

    /// Where loading stands after those actions: the state, the answer to the last of
    /// them, and how often the open file was read.
    pub open spec fn after(self, state: Loading, event: ViewEvent, read: int, n: nat) -> (
        Loading,
        ViewEvent,
        int,
    )
        decreases n,
    {
        if n == 0 {
            (state, event, read)
        } else {
            let action = state.next_action(event);
            let next = state.next_state(event);
            self.after(
                next,
                self.answer(action, next.begun - 1, read),
                self.reads(action, read),
                (n - 1) as nat,
            )
        }
    }

    /// What is done for the parts of `file` from `read` on: each is told to listeners.
    pub open spec fn telling(self, file: int, read: int) -> Seq<ViewAction>
        decreases (self.parts)(file).len() - read,
    {
        if 0 <= read < (self.parts)(file).len() {
            let (meta, splats) = (self.parts)(file)[read];
            seq![
                ViewAction::MemoryCleanup,
                ViewAction::EmitPart { file: file as usize, meta, splats },
                ViewAction::Read,
            ] + self.telling(file, read + 1)
        } else {
            Seq::empty()
        }
    }

    /// What is done for one file.
    pub open spec fn file_actions(self, file: int) -> Seq<ViewAction> {
        seq![
            ViewAction::EmitStartLoading,
            ViewAction::Open { file: file as usize },
            ViewAction::Read,
        ] + self.telling(file, 0)
    }

    /// What is done for the files from `file` on, and at the end.
    pub open spec fn whole(self, files: int, file: int) -> Seq<ViewAction>
        decreases files - file,
    {
        if file < files {
            self.file_actions(file) + self.whole(files, file + 1)
        } else {
            seq![ViewAction::EmitDoneLoading, ViewAction::MemoryCleanup, ViewAction::Finish]
        }
    }
}

/// A longer stretch is two shorter ones.
proof fn lemma_trace_split(c: LoadCourse, s: Loading, e: ViewEvent, r: int, n: nat, m: nat)
    ensures
        ({
            let (s1, e1, r1) = c.after(s, e, r, n);
            &&& c.trace(s, e, r, n + m) == c.trace(s, e, r, n) + c.trace(s1, e1, r1, m)
            &&& c.after(s, e, r, n + m) == c.after(s1, e1, r1, m)
        }),
    decreases n,
{
    let (sn, en, rn) = c.after(s, e, r, n);
    let rest = c.trace(sn, en, rn, m);
    if n == 0 {
        assert(c.trace(s, e, r, 0) + rest == rest);
    } else {
        let action = s.next_action(e);
        let next = s.next_state(e);
        let e1 = c.answer(action, next.begun - 1, r);
        let r1 = c.reads(action, r);
        lemma_trace_split(c, next, e1, r1, (n - 1) as nat, m);
        assert(seq![action] + (c.trace(next, e1, r1, (n - 1) as nat) + rest) == seq![action]
            + c.trace(next, e1, r1, (n - 1) as nat) + rest);
    }
}

/// Three actions that are queued are handed out in order.
proof fn lemma_three(c: LoadCourse, s: Loading, e: ViewEvent, r: int)
    requires
        s.absorb(e).queue.len() == 3,
        s.absorb(e).queue[0] is MemoryCleanup || s.absorb(e).queue[0] is EmitDoneLoading,
        s.absorb(e).queue[1] is MemoryCleanup || s.absorb(e).queue[1] is EmitPart,
    ensures
        ({
            let q = s.absorb(e).queue;
            let t = Loading {
                queue: Seq::empty(),
                wait: crate::view_stream::view_waits(q[2]),
                ..s.absorb(e)
            };
            &&& c.trace(s, e, r, 3) == q
            &&& c.after(s, e, r, 3) == (t, c.answer(q[2], t.begun - 1, r), c.reads(q[2], r))
        }),
{
    let done = ViewEvent::Done;
    let q = s.absorb(e).queue;
    let s1 = s.next_state(e);
    assert(s1.queue == q.drop_first());
    assert(s1.absorb(done) == s1);
    let s2 = s1.next_state(done);
    assert(s2.queue == q.drop_first().drop_first());
    assert(s2.absorb(done) == s2);
    let s3 = s2.next_state(done);
    assert(s3.queue == Seq::<ViewAction>::empty());
    reveal_with_fuel(LoadCourse::trace, 4);
    reveal_with_fuel(LoadCourse::after, 4);
    assert(c.trace(s, e, r, 3) == q);
}

/// The parts of a file, from one on.
proof fn lemma_parts(c: LoadCourse, s: Loading, read: int)
    requires
        s.wait == ViewWait::Part,
        s.queue == Seq::<ViewAction>::empty(),
        0 < s.begun <= s.files <= usize::MAX,
        0 <= read <= (c.parts)(s.begun - 1).len(),
    ensures
        ({
            let file = s.begun - 1;
            let all = c.telling(file, read);
            let end = (c.parts)(file).len() as int;
            &&& c.trace(s, c.part(file, read), read + 1, all.len()) == all
            &&& c.after(s, c.part(file, read), read + 1, all.len()) == (
                s,
                ViewEvent::End,
                end + 1,
            )
        }),
    decreases (c.parts)(s.begun - 1).len() - read,
{
    let file = s.begun - 1;
    let e = c.part(file, read);
    if read < (c.parts)(file).len() {
        lemma_three(c, s, e, read + 1);
        let (t, e1, r1) = c.after(s, e, read + 1, 3);
        assert(t == s);
        assert(e1 == c.part(file, read + 1));
        lemma_parts(c, s, read + 1);
        let rest = c.telling(file, read + 1);
        lemma_trace_split(c, s, e, read + 1, 3, rest.len());
        assert(c.telling(file, read).len() == 3 + rest.len());
    }
}

/// The files from one on, and the end.
proof fn lemma_files(c: LoadCourse, s: Loading, e: ViewEvent, r: int, base: Loading)
    requires
        s.absorb(e) == base.advance(),
        base.wait == s.wait,
        0 <= base.begun <= base.files <= usize::MAX,
    ensures
        ({
            let all = c.whole(base.files, base.begun);
            &&& c.trace(s, e, r, all.len()) == all
            &&& c.after(s, e, r, all.len()).0.wait == ViewWait::Over
        }),
    decreases base.files - base.begun,
{
    let done = ViewEvent::Done;
    let file = base.begun;
    if file < base.files {
        let open = ViewAction::Open { file: file as usize };
        let s1 = s.next_state(e);
        assert(s1.queue == seq![open]);
        assert(s1.absorb(done) == s1);
        let s2 = s1.next_state(done);
        assert(s2.queue == Seq::<ViewAction>::empty());
        let s3 = s2.next_state(done);
        assert(s3.queue == Seq::<ViewAction>::empty());
        let first = seq![ViewAction::EmitStartLoading, open, ViewAction::Read];
        reveal_with_fuel(LoadCourse::trace, 4);
        reveal_with_fuel(LoadCourse::after, 4);
        assert(c.trace(s, e, r, 3) == first);
        assert(c.after(s, e, r, 3) == (s3, c.part(file, 0), 1int));
        let told = c.telling(file, 0);
        lemma_parts(c, s3, 0);
        lemma_trace_split(c, s, e, r, 3, told.len());
        let now = c.file_actions(file);
        assert(now.len() == 3 + told.len());
        let (t, e1, r1) = c.after(s, e, r, now.len());
        assert(t == s3 && e1 is End);
        lemma_files(c, t, e1, r1, t);
        let later = c.whole(base.files, file + 1);
        lemma_trace_split(c, s, e, r, now.len(), later.len());
        assert(c.whole(base.files, file).len() == now.len() + later.len());
    } else {
        lemma_three(c, s, e, r);
    }
}

/// Loading in which nothing fails hands out exactly these actions, and is then over: each
/// file is opened and read to its end, one after the other, every part of it is told to
/// listeners, and at the end they hear that loading is over.
pub proof fn law_loading_without_failures(c: LoadCourse, files: int)
    requires
        0 <= files <= usize::MAX,
    ensures
        c.trace(Loading::start(files), ViewEvent::Done, 0, c.whole(files, 0).len()) == c.whole(
            files,
            0,
        ),
        c.after(
            Loading::start(files),
            ViewEvent::Done,
            0,
            c.whole(files, 0).len(),
        ).0.wait == ViewWait::Over,
{
    let base = Loading { files, begun: 0, wait: ViewWait::Nothing, queue: Seq::empty() };
    let s = Loading::start(files);
    assert(s.absorb(ViewEvent::Done) == s);
    lemma_files(c, s, ViewEvent::Done, 0, base);
}

proof fn lemma_filter_none(s: Seq<ViewAction>, keep: spec_fn(ViewAction) -> bool)
    requires
        forall|i: int| 0 <= i < s.len() ==> !keep(#[trigger] s[i]),
    ensures
        s.filter(keep) == Seq::<ViewAction>::empty(),
    decreases s.len(),
{
    reveal(Seq::filter);
    if s.len() > 0 {
        assert forall|i: int| 0 <= i < s.drop_last().len() implies !keep(
            #[trigger] s.drop_last()[i],
        ) by {
            assert(s.drop_last()[i] == s[i]);
        }
        lemma_filter_none(s.drop_last(), keep);
    }
}

/// While the parts of a file are told, nothing is opened, and nothing ends.
proof fn lemma_telling(c: LoadCourse, file: int, read: int)
    ensures
        forall|i: int|
            0 <= i < c.telling(file, read).len() ==> {
                let a = #[trigger] c.telling(file, read)[i];
                a is MemoryCleanup || a is EmitPart || a is Read
            },
    decreases (c.parts)(file).len() - read,
{
    if 0 <= read < (c.parts)(file).len() {
        lemma_telling(c, file, read + 1);
        let all = c.telling(file, read);
        let rest = c.telling(file, read + 1);
        assert forall|i: int| 0 <= i < all.len() implies {
            let a = #[trigger] all[i];
            a is MemoryCleanup || a is EmitPart || a is Read
        } by {
            if i >= 3 {
                assert(all[i] == rest[i - 3]);
            }
        }
    }
}

/// The files from `from` on, each opened.
pub open spec fn opened(files: int, from: int) -> Seq<ViewAction> {
    Seq::new(
        if from < files {
            (files - from) as nat
        } else {
            0
        },
        |i: int| ViewAction::Open { file: (from + i) as usize },
    )
}

proof fn lemma_file_opened(c: LoadCourse, file: int)
    ensures
        c.file_actions(file).filter(|a: ViewAction| a is Open) == seq![
            ViewAction::Open { file: file as usize },
        ],
{
    let keep = |a: ViewAction| a is Open;
    let open = ViewAction::Open { file: file as usize };
    let a = seq![ViewAction::EmitStartLoading];
    let b = seq![open];
    let d = seq![ViewAction::Read] + c.telling(file, 0);
    lemma_telling(c, file, 0);
    assert(c.file_actions(file) == a + b + d);
    lemma_filter_none(a, keep);
    lemma_filter_none(d, keep);
    assert(b.filter(keep) == b) by {
        reveal_with_fuel(Seq::filter, 2);
        assert(b.drop_last() == Seq::<ViewAction>::empty());
    }
    Seq::filter_distributes_over_add(a, b, keep);
    Seq::filter_distributes_over_add(a + b, d, keep);
    let none = Seq::<ViewAction>::empty();
    assert(none + b + none == b);
}

proof fn lemma_opened(c: LoadCourse, files: int, from: int)
    ensures
        c.whole(files, from).filter(|a: ViewAction| a is Open) == opened(files, from),
    decreases files - from,
{
    let keep = |a: ViewAction| a is Open;
    if from < files {
        let now = c.file_actions(from);
        let later = c.whole(files, from + 1);
        lemma_file_opened(c, from);
        lemma_opened(c, files, from + 1);
        assert(c.whole(files, from) == now + later);
        Seq::filter_distributes_over_add(now, later, keep);
        assert(seq![ViewAction::Open { file: from as usize }] + opened(files, from + 1) == opened(
            files,
            from,
        ));
    } else {
        lemma_filter_none(c.whole(files, from), keep);
        assert(opened(files, from) == Seq::<ViewAction>::empty());
    }
}

/// Every file is opened exactly once, and in order.
pub proof fn law_every_file_opened_once(c: LoadCourse, files: int)
    ensures
        c.whole(files, 0).filter(|a: ViewAction| a is Open) == opened(files, 0),
{
    lemma_opened(c, files, 0);
}

proof fn lemma_end(c: LoadCourse, files: int, from: int)
    ensures
        ({
            let all = c.whole(files, from);
            let n = all.len();
            &&& n >= 3
            &&& all[n - 3] is EmitDoneLoading
            &&& all[n - 2] is MemoryCleanup
            &&& all[n - 1] is Finish
            &&& forall|i: int|
                0 <= i < n - 3 ==> !(#[trigger] all[i] is EmitDoneLoading) && !(all[i] is Finish)
        }),
    decreases files - from,
{
    if from < files {
        let all = c.whole(files, from);
        let now = c.file_actions(from);
        let later = c.whole(files, from + 1);
        let told = c.telling(from, 0);
        lemma_end(c, files, from + 1);
        lemma_telling(c, from, 0);
        assert(all == now + later);
        let n = all.len();
        let m = later.len();
        assert(all[n - 3] == later[m - 3]);
        assert(all[n - 2] == later[m - 2]);
        assert(all[n - 1] == later[m - 1]);
        assert forall|i: int| 0 <= i < n - 3 implies !(#[trigger] all[i] is EmitDoneLoading)
            && !(all[i] is Finish) by {
            if i < 3 {
                assert(all[i] == now[i]);
            } else if i < now.len() {
                assert(all[i] == told[i - 3]);
            } else {
                assert(all[i] == later[i - now.len()]);
            }
        }
    }
}

/// Listeners hear once that loading is over, after everything else was told; then memory
/// is released, and loading ends.
pub proof fn law_done_loading_last(c: LoadCourse, files: int)
    ensures
        ({
            let all = c.whole(files, 0);
            let n = all.len();
            &&& n >= 3
            &&& all[n - 3] is EmitDoneLoading
            &&& all[n - 2] is MemoryCleanup
            &&& all[n - 1] is Finish
            &&& forall|i: int|
                0 <= i < n - 3 ==> !(#[trigger] all[i] is EmitDoneLoading) && !(all[i] is Finish)
        }),
{
    lemma_end(c, files, 0);
}

proof fn lemma_contains_add(a: Seq<ViewAction>, b: Seq<ViewAction>, x: ViewAction)
    ensures
        (a + b).contains(x) <==> a.contains(x) || b.contains(x),
{
    if a.contains(x) {
        let i = choose|i: int| 0 <= i < a.len() && a[i] == x;
        assert((a + b)[i] == x);
    }
    if b.contains(x) {
        let i = choose|i: int| 0 <= i < b.len() && b[i] == x;
        assert((a + b)[a.len() + i] == x);
    }
    if (a + b).contains(x) {
        let i = choose|i: int| 0 <= i < (a + b).len() && (a + b)[i] == x;
        if i < a.len() {
            assert(a[i] == x);
        } else {
            assert(b[i - a.len()] == x);
        }
    }
}

proof fn lemma_told(c: LoadCourse, file: int, read: int, meta: SplatMeta, splats: SplatId, f: usize)
    requires
        0 <= read <= (c.parts)(file).len(),
        0 <= file <= usize::MAX,
    ensures
        c.telling(file, read).contains(ViewAction::EmitPart { file: f, meta, splats }) <==> f == file
            && exists|k: int|
            read <= k < (c.parts)(file).len() && #[trigger] (c.parts)(file)[k] == (meta, splats),
    decreases (c.parts)(file).len() - read,
{
    let x = ViewAction::EmitPart { file: f, meta, splats };
    let parts = (c.parts)(file);
    if read < parts.len() {
        let (m, s) = parts[read];
        let now = seq![
            ViewAction::MemoryCleanup,
            ViewAction::EmitPart { file: file as usize, meta: m, splats: s },
            ViewAction::Read,
        ];
        let later = c.telling(file, read + 1);
        lemma_told(c, file, read + 1, meta, splats, f);
        lemma_contains_add(now, later, x);
        if f == file && parts[read] == (meta, splats) {
            assert(now[1] == x);
        }
        if now.contains(x) {
            let i = choose|i: int| 0 <= i < now.len() && now[i] == x;
            assert(i == 1);
            assert(parts[read] == (meta, splats));
        }
        if c.telling(file, read).contains(x) && later.contains(x) {
            let k = choose|k: int|
                read + 1 <= k < parts.len() && #[trigger] parts[k] == (meta, splats);
            assert(parts[k] == (meta, splats));
        }
    }
}

proof fn lemma_all_told(
    c: LoadCourse,
    files: int,
    from: int,
    meta: SplatMeta,
    splats: SplatId,
    f: usize,
)
    requires
        0 <= from <= files <= usize::MAX,
    ensures
        c.whole(files, from).contains(ViewAction::EmitPart { file: f, meta, splats }) <==> from <= f
            < files && exists|k: int|
            0 <= k < (c.parts)(f as int).len() && #[trigger] (c.parts)(f as int)[k] == (
                meta,
                splats,
            ),
    decreases files - from,
{
    let x = ViewAction::EmitPart { file: f, meta, splats };
    if from < files {
        let start = seq![
            ViewAction::EmitStartLoading,
            ViewAction::Open { file: from as usize },
            ViewAction::Read,
        ];
        let told = c.telling(from, 0);
        let now = c.file_actions(from);
        let later = c.whole(files, from + 1);
        lemma_told(c, from, 0, meta, splats, f);
        lemma_all_told(c, files, from + 1, meta, splats, f);
        lemma_contains_add(start, told, x);
        lemma_contains_add(now, later, x);
        assert(now == start + told);
        assert(c.whole(files, from) == now + later);
        if start.contains(x) {
            let i = choose|i: int| 0 <= i < start.len() && start[i] == x;
            assert(start[i] == x);
        }
    } else {
        let end = c.whole(files, from);
        if end.contains(x) {
            let i = choose|i: int| 0 <= i < end.len() && end[i] == x;
            assert(end[i] == x);
        }
    }
}

/// Whatever is read of a file is told, as a part of that file, with what came along with
/// it; and nothing else is told.
pub proof fn law_every_part_told(
    c: LoadCourse,
    files: int,
    file: usize,
    meta: SplatMeta,
    splats: SplatId,
)
    requires
        0 <= files <= usize::MAX,
    ensures
        c.trace(Loading::start(files), ViewEvent::Done, 0, c.whole(files, 0).len()).contains(
            ViewAction::EmitPart { file, meta, splats },
        ) <==> file < files && exists|k: int|
            0 <= k < (c.parts)(file as int).len() && #[trigger] (c.parts)(file as int)[k] == (
                meta,
                splats,
            ),
{
    law_loading_without_failures(c, files);
    lemma_all_told(c, files, 0, meta, splats, file);
}

} // verus!
