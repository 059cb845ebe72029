//! Loading splats to look at them.

use crate::failure::Failure;
use crate::message::{ProcessMessage, SplatId, Vec3Bits};
use crate::num::{low_u32, F32Bits};
use crate::paths::{
    extension, extension_of, file_name, file_name_of, stem, stem_of, text_view, PathStyle,
};
use crate::text::{same_text, texts};
use vstd::prelude::*;
use vstd::string::*;

verus! {

/// `texts` in the order in which people list them: numbers in them count as numbers.
pub uninterp spec fn alphanumeric_order(texts: Seq<Seq<char>>) -> Seq<Seq<char>>;

/// `alphanumeric_sort::sort_path_slice`: it brings the paths into alphanumeric order, and
/// neither adds nor drops any.
#[verifier::external_body]
fn sort_paths(paths: &mut Vec<String>)
    ensures
        texts(final(paths)@) == alphanumeric_order(texts(old(paths)@)),
        texts(final(paths)@).to_multiset() == texts(old(paths)@).to_multiset(),
{
    alphanumeric_sort::sort_path_slice(paths);
}

/// One step of a process that shows splats.
#[derive(Clone, Copy, PartialEq, Eq, Structural, Debug)]
pub enum ProcessStep {
    /// Tell listeners that there is a new place to load from.
    EmitNewSource,
    /// Open that place. The process ends here if it cannot be opened.
    Mount,
    /// Release unused memory of the device.
    MemoryCleanup,
    /// Load what is there.
    View,
}

/// Lists the steps of a process that shows splats.
pub fn process_stream() -> (r: Vec<ProcessStep>)
    ensures
        r@ == seq![
            ProcessStep::EmitNewSource,
            ProcessStep::Mount,
            ProcessStep::MemoryCleanup,
            ProcessStep::View,
        ],
{
    let out = vec![
        ProcessStep::EmitNewSource,
        ProcessStep::Mount,
        ProcessStep::MemoryCleanup,
        ProcessStep::View,
    ];
    assert(out@ == seq![
        ProcessStep::EmitNewSource,
        ProcessStep::Mount,
        ProcessStep::MemoryCleanup,
        ProcessStep::View,
    ]);
    out
}

/// A file with splats.
#[derive(Debug)]
pub struct PlyFile {
    /// Where it stands among all files.
    pub index: usize,
    pub path: String,
    /// The name of auxiliary splats; the main splats have none.
    pub auxiliary: Option<String>,
}

/// What a file with splats is.
pub struct PlyView {
    pub index: int,
    pub path: Seq<char>,
    pub auxiliary: Option<Seq<char>>,
}

impl View for PlyFile {
    type V = PlyView;

    open spec fn view(&self) -> PlyView {
        PlyView {
            index: self.index as int,
            path: self.path@,
            auxiliary: text_view(self.auxiliary),
        }
    }
}

/// Whether a path leads to splats.
pub open spec fn is_ply(style: PathStyle, path: Seq<char>) -> bool {
    extension_of(style, path) == Some("ply"@)
}

/// The name of the auxiliary splats that a file holds. The file `full.ply` holds the
/// main ones.
pub open spec fn auxiliary_name(style: PathStyle, path: Seq<char>) -> Option<Seq<char>> {
    if file_name_of(style, path) == Some("full.ply"@) {
        None
    } else {
        stem_of(style, path)
    }
}

/// The files with splats among `paths`.
pub open spec fn ply_files(style: PathStyle, paths: Seq<Seq<char>>) -> Seq<PlyView>
    decreases paths.len(),
{
    if paths.len() == 0 {
        Seq::empty()
    } else {
        let before = ply_files(style, paths.drop_last());
        if is_ply(style, paths.last()) {
            before.push(
                PlyView {
                    index: paths.len() - 1,
                    path: paths.last(),
                    auxiliary: auxiliary_name(style, paths.last()),
                },
            )
        } else {
            before
        }
    }
}

/// Files as what they are.
pub open spec fn ply_views(files: Seq<PlyFile>) -> Seq<PlyView> {
    files.map_values(|f: PlyFile| f@)
}

/// Finds the files with splats among `paths`.
pub fn find_ply_files(style: PathStyle, paths: &Vec<String>) -> (r: Vec<PlyFile>)
    ensures
        ply_views(r@) == ply_files(style, texts(paths@)),
{
    let mut out: Vec<PlyFile> = Vec::new();
    let ghost all = texts(paths@);
    for index in 0..paths.len()
        invariant
            all == texts(paths@),
            ply_views(out@) == ply_files(style, all.take(index as int)),
    {
        let path: &str = paths[index].as_str();
        let ghost before = out@;
        assert(all.take(index + 1).drop_last() == all.take(index as int));
        assert(all.take(index + 1).last() == path@);
        let found = match extension(style, path) {
            Some(text) => same_text(text.as_str(), "ply"),
            None => false,
        };
        if found {
            let main = match file_name(style, path) {
                Some(name) => same_text(name.as_str(), "full.ply"),
                None => false,
            };
            let auxiliary = if main {
                None
            } else {
                stem(style, path)
            };
            let file = PlyFile { index, path: path.to_owned(), auxiliary };
            out.push(file);
            assert(ply_views(out@) == ply_views(before).push(file@));
        }
    }
    assert(all.take(all.len() as int) == all);
    out
}

/// What a file says of the splats that it holds.
#[derive(Clone, Copy, PartialEq, Eq, Structural, Debug)]
pub struct SplatMeta {
    pub up_axis: Option<Vec3Bits>,
    pub current_frame: u32,
    pub frame_count: u32,
    pub progress: F32Bits,
}

/// Whether `message` is what listeners hear when a part of a file was read. Only a file
/// that stands alone can be an animation; otherwise every file is a frame.
pub open spec fn tells(
    message: ProcessMessage,
    file: PlyView,
    path_count: int,
    meta: SplatMeta,
    splats: SplatId,
) -> bool {
    match file.auxiliary {
        None => message == (ProcessMessage::ViewSplats {
            up_axis: meta.up_axis,
            splats,
            frame: if path_count == 1 {
                meta.current_frame
            } else {
                (file.index % 0x1_0000_0000) as u32
            },
            total_frames: if path_count == 1 {
                meta.frame_count
            } else {
                (path_count % 0x1_0000_0000) as u32
            },
            progress: meta.progress,
        }),
        Some(text) => message matches ProcessMessage::ViewAuxiliarySplat { name, splats: s } && s
            == splats && name@ == text,
    }
}

/// Makes up what listeners hear when a part of a file was read.
pub fn part_message(file: &PlyFile, path_count: usize, meta: SplatMeta, splats: SplatId) -> (r:
    ProcessMessage)
    ensures
        tells(r, file@, path_count as int, meta, splats),
        file.auxiliary is None ==> (r matches ProcessMessage::ViewSplats {
            up_axis,
            splats: shown,
            progress,
            ..
        } && up_axis == meta.up_axis && progress == meta.progress && shown == splats),
{
    match &file.auxiliary {
        None => {
            let (frame, total_frames): (u32, u32) = if path_count == 1 {
                (meta.current_frame, meta.frame_count)
            } else {
                (low_u32(file.index), low_u32(path_count))
            };
            ProcessMessage::ViewSplats {
                up_axis: meta.up_axis,
                splats,
                frame,
                total_frames,
                progress: meta.progress,
            }
        },
        Some(name) => ProcessMessage::ViewAuxiliarySplat { name: name.clone(), splats },
    }
}

/// One thing that is done to load splats.
#[derive(Debug)]
pub enum ViewAction {
    /// Tell listeners that loading begins.
    EmitStartLoading,
    /// Open the next file. Answered by `Done` or `Failed`.
    Open { file: usize },
    /// Read on in the file. Answered by `Part`, `End` or `Failed`.
    Read,
    /// Release unused memory of the device.
    MemoryCleanup,
    /// Tell listeners what was read.
    EmitPart { file: usize, meta: SplatMeta, splats: SplatId },
    /// Tell listeners that loading is over.
    EmitDoneLoading,
    /// Everything is loaded.
    Finish,
    /// Loading ends with an error.
    Abort { error: Failure },
}

/// What came of it.
#[derive(Debug)]
pub enum ViewEvent {
    Done,
    Failed { error: Failure },
    Part { meta: SplatMeta, splats: SplatId },
    End,
}

/// Which answer is waited for.
#[derive(Clone, Copy, PartialEq, Eq, Structural, Debug)]
pub enum ViewWait {
    Nothing,
    Opening,
    Part,
    Over,
}

/// What `action` waits for.
pub open spec fn view_waits(action: ViewAction) -> ViewWait {
    match action {
        ViewAction::Open { .. } => ViewWait::Opening,
        ViewAction::Read => ViewWait::Part,
        ViewAction::Finish | ViewAction::Abort { .. } => ViewWait::Over,
        _ => ViewWait::Nothing,
    }
}

/// Whether `event` can be what `wait` waits for.
pub open spec fn view_settles(wait: ViewWait, event: ViewEvent) -> bool {
    match wait {
        ViewWait::Nothing => event is Done,
        ViewWait::Opening => event is Done || event is Failed,
        ViewWait::Part => event is Part || event is End || event is Failed,
        ViewWait::Over => false,
    }
}

/// Where loading stands: how many files there are and how many were begun.
#[verifier::ext_equal]
pub struct Loading {
    pub files: int,
    pub begun: int,
    pub wait: ViewWait,
    pub queue: Seq<ViewAction>,
}

impl Loading {
    pub open spec fn valid(self) -> bool {
        &&& 0 <= self.begun <= self.files <= usize::MAX
        &&& self.wait is Opening || self.wait is Part ==> self.begun > 0
        &&& forall|i: int|
            0 <= i < self.queue.len() ==> (match #[trigger] self.queue[i] {
                ViewAction::Open { file } => self.begun > 0 && file < self.files,
                ViewAction::EmitPart { file, .. } => file < self.files,
                ViewAction::Read => self.begun > 0,
                _ => true,
            })
        &&& self.queue.len() == 0 ==> !(self.wait is Nothing)
        &&& self.queue.len() > 0 ==> !(view_waits(self.queue.last()) is Nothing)
    }

    /// Goes on to the next file, or ends.
    pub open spec fn advance(self) -> Loading {
        if self.begun < self.files {
            Loading {
                begun: self.begun + 1,
                queue: seq![
                    ViewAction::EmitStartLoading,
                    ViewAction::Open { file: self.begun as usize },
                ],
                ..self
            }
        } else {
            Loading {
                queue: seq![
                    ViewAction::EmitDoneLoading,
                    ViewAction::MemoryCleanup,
                    ViewAction::Finish,
                ],
                ..self
            }
        }
    }

    /// What is to do after `event`.
    pub open spec fn absorb(self, event: ViewEvent) -> Loading {
        match (self.wait, event) {
            (ViewWait::Opening, ViewEvent::Done) => Loading {
                queue: seq![ViewAction::Read],
                ..self
            },
            (ViewWait::Part, ViewEvent::Part { meta, splats }) => Loading {
                queue: seq![
                    ViewAction::MemoryCleanup,
                    ViewAction::EmitPart { file: (self.begun - 1) as usize, meta, splats },
                    ViewAction::Read,
                ],
                ..self
            },
            (ViewWait::Part, ViewEvent::End) => self.advance(),
            (_, ViewEvent::Failed { error }) => Loading {
                queue: seq![ViewAction::Abort { error }],
                ..self
            },
            _ => self,
        }
    }

    pub open spec fn next_action(self, event: ViewEvent) -> ViewAction {
        self.absorb(event).queue[0]
    }

    pub open spec fn next_state(self, event: ViewEvent) -> Loading {
        let s = self.absorb(event);
        Loading { wait: view_waits(s.queue[0]), queue: s.queue.drop_first(), ..s }
    }

    /// Nothing was loaded yet.
    pub open spec fn start(files: int) -> Loading {
        (Loading { files, begun: 0, wait: ViewWait::Nothing, queue: Seq::empty() }).advance()
    }
}

/// Splats that are being loaded.
pub struct ViewStream {
    files: Vec<PlyFile>,
    path_count: usize,
    begun: usize,
    wait: ViewWait,
    queue: Vec<ViewAction>,
}

impl View for ViewStream {
    type V = Loading;

    closed spec fn view(&self) -> Loading {
        Loading {
            files: self.files@.len() as int,
            begun: self.begun as int,
            wait: self.wait,
            queue: self.queue@,
        }
    }
}

/// Begins to load the splats among `paths`.
pub fn view_stream(style: PathStyle, paths: Vec<String>) -> (r: ViewStream)
    ensures
        r.plys() == ply_files(style, alphanumeric_order(texts(paths@))),
        r.paths() == paths@.len(),
        r@ == Loading::start(r.plys().len() as int),
        r@.valid(),
{
    let mut sorted = paths;
    sort_paths(&mut sorted);
    proof {
        let before = texts(paths@);
        let after = texts(sorted@);
        vstd::seq_lib::to_multiset_len(before);
        vstd::seq_lib::to_multiset_len(after);
    }
    let files = find_ply_files(style, &sorted);
    let path_count: usize = sorted.len();
    let (queue, begun): (Vec<ViewAction>, usize) = if files.len() > 0 {
        (vec![ViewAction::EmitStartLoading, ViewAction::Open { file: 0 }], 1)
    } else {
        (vec![ViewAction::EmitDoneLoading, ViewAction::MemoryCleanup, ViewAction::Finish], 0)
    };
    let r = ViewStream { files, path_count, begun, wait: ViewWait::Nothing, queue };
    assert(r@.queue =~= Loading::start(r.plys().len() as int).queue);
    r
}

impl ViewStream {
    /// The files with splats, in the order in which they are loaded.
    pub closed spec fn plys(self) -> Seq<PlyView> {
        ply_views(self.files@)
    }

    /// How many files there are, with splats or without.
    pub closed spec fn paths(self) -> int {
        self.path_count as int
    }

    /// The path of a file.
    pub fn path(&self, file: usize) -> (r: String)
        requires
            file < self.plys().len(),
        ensures
            r@ == self.plys()[file as int].path,
    {
        self.files[file].path.clone()
    }

    /// Makes up what listeners hear when a part of a file was read.
    pub fn message(&self, file: usize, meta: SplatMeta, splats: SplatId) -> (r: ProcessMessage)
        requires
            file < self.plys().len(),
        ensures
            tells(r, self.plys()[file as int], self.paths(), meta, splats),
    {
        part_message(&self.files[file], self.path_count, meta, splats)
    }

    /// Whether `event` can be what is waited for.
    pub fn accepts(&self, event: &ViewEvent) -> (r: bool)
        ensures
            r == view_settles(self@.wait, *event),
    {
        match self.wait {
            ViewWait::Nothing => matches!(event, ViewEvent::Done),
            ViewWait::Opening => matches!(event, ViewEvent::Done | ViewEvent::Failed { .. }),
            ViewWait::Part => matches!(
                event,
                ViewEvent::Part { .. } | ViewEvent::End | ViewEvent::Failed { .. }
            ),
            ViewWait::Over => false,
        }
    }

    /// Takes in what came of the last action, and hands out the next one.
    pub fn next(&mut self, event: ViewEvent) -> (r: ViewAction)
        requires
            old(self)@.valid(),
            view_settles(old(self)@.wait, event),
        ensures
            r == old(self)@.next_action(event),
            final(self)@ == old(self)@.next_state(event),
            final(self)@.valid(),
            match r {
                ViewAction::Open { file } | ViewAction::EmitPart { file, .. } => file
                    < final(self)@.files,
                _ => true,
            },
            final(self).plys() == old(self).plys(),
            final(self).paths() == old(self).paths(),
    {
        let ghost before = self@;
        match (self.wait, event) {
            (ViewWait::Opening, ViewEvent::Done) => {
                self.queue = vec![ViewAction::Read];
            },
            (ViewWait::Part, ViewEvent::Part { meta, splats }) => {
                self.queue = vec![
                    ViewAction::MemoryCleanup,
                    ViewAction::EmitPart { file: self.begun - 1, meta, splats },
                    ViewAction::Read,
                ];
            },
            (ViewWait::Part, ViewEvent::End) => {
                if self.begun < self.files.len() {
                    self.queue = vec![
                        ViewAction::EmitStartLoading,
                        ViewAction::Open { file: self.begun },
                    ];
                    self.begun = self.begun + 1;
                } else {
                    self.queue = vec![
                        ViewAction::EmitDoneLoading,
                        ViewAction::MemoryCleanup,
                        ViewAction::Finish,
                    ];
                }
            },
            (_, ViewEvent::Failed { error }) => {
                self.queue = vec![ViewAction::Abort { error }];
            },
            _ => {},
        }
        assert(self@.queue == before.absorb(event).queue);
        assert(self@ == before.absorb(event));
        let ghost all = self@.queue;
        assert(all.len() > 0);
        let action = self.queue.remove(0);
        self.wait = view_waited_for(&action);
        assert(self@.queue == all.drop_first());
        proof {
            lemma_next_valid(before, event);
        }
        action
    }
}

fn view_waited_for(action: &ViewAction) -> (r: ViewWait)
    ensures
        r == view_waits(*action),
{
    match action {
        ViewAction::Open { .. } => ViewWait::Opening,
        ViewAction::Read => ViewWait::Part,
        ViewAction::Finish | ViewAction::Abort { .. } => ViewWait::Over,
        _ => ViewWait::Nothing,
    }
}

proof fn lemma_next_valid(s: Loading, event: ViewEvent)
    requires
        s.valid(),
        view_settles(s.wait, event),
    ensures
        s.next_state(event).valid(),
{
    let a = s.absorb(event);
    let n = s.next_state(event);
    assert(a.queue.len() > 0 && !(view_waits(a.queue.last()) is Nothing));
    assert forall|i: int| 0 <= i < n.queue.len() implies (match #[trigger] n.queue[i] {
        ViewAction::Open { file } => n.begun > 0 && file < n.files,
        ViewAction::EmitPart { file, .. } => file < n.files,
        ViewAction::Read => n.begun > 0,
        _ => true,
    }) by {
        assert(n.queue[i] == a.queue[i + 1]);
    }
    if n.queue.len() > 0 {
        assert(n.queue.last() == a.queue.last());
    }
}

/// Every part of a file that was read is told to listeners, as one of that file, before
/// anything else is read.
pub proof fn law_parts_are_told(s: Loading, meta: SplatMeta, splats: SplatId)
    requires
        s.wait == ViewWait::Part,
        0 < s.begun <= s.files <= usize::MAX,
    ensures
        ({
            let read = ViewEvent::Part { meta, splats };
            let s1 = s.next_state(read);
            let s2 = s1.next_state(ViewEvent::Done);
            let s3 = s2.next_state(ViewEvent::Done);
            &&& s.next_action(read) is MemoryCleanup
            &&& s1.next_action(ViewEvent::Done) == (ViewAction::EmitPart {
                file: (s.begun - 1) as usize,
                meta,
                splats,
            })
            &&& s2.next_action(ViewEvent::Done) is Read
            &&& s3.begun == s.begun
            &&& s3.wait == ViewWait::Part
        }),
{
    let read = ViewEvent::Part { meta, splats };
    let a = s.absorb(read);
    let s1 = s.next_state(read);
    assert(s1.queue == a.queue.drop_first());
    let s2 = s1.next_state(ViewEvent::Done);
    assert(s2.queue == a.queue.drop_first().drop_first());
}

/// Every file is listed once, in order, and only files with splats are.
pub proof fn law_only_ply_files(style: PathStyle, paths: Seq<Seq<char>>)
    ensures
        forall|i: int|
            0 <= i < ply_files(style, paths).len() ==> {
                let f = #[trigger] ply_files(style, paths)[i];
                0 <= f.index < paths.len() && f.path == paths[f.index] && is_ply(style, f.path)
            },
        forall|i: int, j: int|
            0 <= i < j < ply_files(style, paths).len() ==> (#[trigger] ply_files(
                style,
                paths,
            )[i]).index < (#[trigger] ply_files(style, paths)[j]).index,
        forall|k: int|
            0 <= k < paths.len() && is_ply(style, #[trigger] paths[k]) ==> exists|i: int|
                0 <= i < ply_files(style, paths).len() && (#[trigger] ply_files(
                    style,
                    paths,
                )[i]).index == k,
    decreases paths.len(),
{
    if paths.len() > 0 {
        let rest = paths.drop_last();
        law_only_ply_files(style, rest);
        let before = ply_files(style, rest);
        let all = ply_files(style, paths);
        assert forall|i: int| 0 <= i < all.len() implies {
            let f = #[trigger] all[i];
            0 <= f.index < paths.len() && f.path == paths[f.index] && is_ply(style, f.path)
        } by {
            if i < before.len() {
                assert(all[i] == before[i]);
            }
        }
        assert forall|i: int, j: int| 0 <= i < j < all.len() implies (#[trigger] all[i]).index < (
        #[trigger] all[j]).index by {
            assert(all[i] == before[i]);
            if j < before.len() {
                assert(all[j] == before[j]);
            }
        }
        assert forall|k: int| 0 <= k < paths.len() && is_ply(style, #[trigger] paths[k]) implies exists|
            i: int,
        | 0 <= i < all.len() && (#[trigger] all[i]).index == k by {
            if k < rest.len() {
                assert(rest[k] == paths[k]);
                let i = choose|i: int| 0 <= i < before.len() && (#[trigger] before[i]).index == k;
                assert(all[i] == before[i]);
            } else {
                assert(all[before.len() as int].index == k);
            }
        }
    }
}

/// Which answers an action of loading can get.
pub proof fn law_view_answers(action: ViewAction, event: ViewEvent)
    ensures
        view_settles(view_waits(action), event) <==> match action {
            ViewAction::Open { .. } => event is Done || event is Failed,
            ViewAction::Read => event is Part || event is End || event is Failed,
            ViewAction::Finish => false,
            ViewAction::Abort { .. } => false,
            _ => event is Done,
        },
{
}

/// A part that was read is told as a part of the file that is open, with what came along
/// with it, and reading goes on. A file that cannot be opened or read ends the loading with
/// the error that came.
pub proof fn law_view_parts(s: Loading, meta: SplatMeta, splats: SplatId, error: Failure)
    requires
        s.valid(),
    ensures
        s.wait is Part ==> {
            let part = ViewEvent::Part { meta, splats };
            let after = s.next_state(part);
            &&& s.next_action(part) is MemoryCleanup
            &&& after.begun == s.begun && after.files == s.files
            &&& after.queue.len() == 2
            &&& after.queue[0] matches ViewAction::EmitPart { file, meta: m, splats: x } && file
                == s.begun - 1 && m == meta && x == splats
            &&& after.queue[1] is Read
        },
        s.wait is Opening ==> s.next_action(ViewEvent::Done) is Read,
        s.wait is Opening || s.wait is Part ==> s.next_action(ViewEvent::Failed { error }) == (
        ViewAction::Abort { error }) && s.next_state(ViewEvent::Failed { error }).queue.len() == 0,
{
}

/// Behind the end of a file comes the next one, if there is any, each with the news that
/// loading begins; behind the last one comes the news that loading is over.
pub proof fn law_view_files(s: Loading)
    requires
        s.valid(),
        s.wait is Part,
    ensures
        ({
            let after = s.next_state(ViewEvent::End);
            &&& s.begun < s.files ==> {
                &&& s.next_action(ViewEvent::End) is EmitStartLoading
                &&& after.queue.len() == 1
                &&& after.queue[0] matches ViewAction::Open { file } && file == s.begun
                &&& after.begun == s.begun + 1
            }
            &&& s.begun == s.files ==> {
                &&& s.next_action(ViewEvent::End) is EmitDoneLoading
                &&& after.queue.len() == 2
                &&& after.queue[0] is MemoryCleanup
                &&& after.queue[1] is Finish
                &&& after.begun == s.begun
            }
            &&& after.files == s.files
        }),
{
}

/// The files with splats are exactly the paths that end in `ply`, each where it stands
/// among all paths; `full.ply` holds the main splats, and every other file is named by its
/// stem.
pub proof fn law_every_ply_file(style: PathStyle, paths: Seq<Seq<char>>, i: int, k: int)
    ensures
        0 <= i < paths.len() && extension_of(style, paths[i]) == Some("ply"@) ==> exists|j: int|
            0 <= j < ply_files(style, paths).len() && (#[trigger] ply_files(style, paths)[j]).index
                == i,
        0 <= k < ply_files(style, paths).len() ==> {
            let file = ply_files(style, paths)[k];
            &&& 0 <= file.index < paths.len()
            &&& file.path == paths[file.index]
            &&& extension_of(style, file.path) == Some("ply"@)
            &&& file.auxiliary is None <==> file_name_of(style, file.path) == Some("full.ply"@)
            &&& file.auxiliary is Some ==> file.auxiliary == stem_of(style, file.path)
            &&& k > 0 ==> ply_files(style, paths)[k - 1].index < file.index
        },
    decreases paths.len(),
{
    if paths.len() > 0 {
        let before = paths.drop_last();
        let all = ply_files(style, paths);
        let list = ply_files(style, before);
        law_every_ply_file(style, before, i, k);
        if 0 <= i < paths.len() && extension_of(style, paths[i]) == Some("ply"@) {
            if i < before.len() {
                assert(before[i] == paths[i]);
                let j = choose|j: int|
                    0 <= j < list.len() && (#[trigger] list[j]).index == i;
                assert(all[j] == list[j]);
                assert(all[j].index == i);
            } else {
                assert(all[all.len() - 1].index == i);
            }
        }
        if 0 <= k < all.len() {
            if k < list.len() {
                assert(all[k] == list[k]);
            } else {
                law_every_ply_file(style, before, i, k - 1);
                assert(stem_of(style, paths.last()) is Some);
            }
        }
    }
}

} // verus!
