//! Paths, as they are written where components are separated by slashes, and on Windows.

use crate::text::{chars_of, join, joined, text_of, texts};
use vstd::prelude::*;
use vstd::string::*;

verus! {

/// How a machine writes paths.
#[derive(Clone, Copy, PartialEq, Eq, Structural, Debug)]
pub enum PathStyle {
    /// With slashes between components.
    Slash,
    /// With backslashes or slashes between components, and with prefixes such as drives.
    Windows,
}

/// What stands between the components of a path.
#[derive(Clone, Copy, PartialEq, Eq, Structural, Debug)]
pub enum Cut {
    Slash,
    Backslash,
    Either,
}

/// What a path on Windows can begin with.
#[derive(Clone, Copy, PartialEq, Eq, Structural, Debug)]
pub enum Prefix {
    /// Nothing.
    Absent,
    /// A drive, such as `C:`.
    Drive,
    /// A share, such as `\\server\share`, or a device, such as `\\.\COM42`.
    Share,
    /// Anything behind `\\?\`. Such a path is taken as it is: slashes and dots in it are
    /// like any other character.
    Verbatim,
}

/// Whether `c` stands between components.
pub open spec fn cuts(cut: Cut, c: char) -> bool {
    match cut {
        Cut::Slash => c == '/',
        Cut::Backslash => c == '\\',
        Cut::Either => c == '/' || c == '\\',
    }
}

/// What stands between the components of a path that is not verbatim.
pub open spec fn plain_cut(style: PathStyle) -> Cut {
    match style {
        PathStyle::Slash => Cut::Slash,
        PathStyle::Windows => Cut::Either,
    }
}

/// What stands between the components of a path with this prefix.
pub open spec fn cut_of(style: PathStyle, prefix: Prefix) -> Cut {
    if prefix is Verbatim {
        Cut::Backslash
    } else {
        plain_cut(style)
    }
}

/// What is put between components.
pub open spec fn separator(style: PathStyle) -> char {
    match style {
        PathStyle::Slash => '/',
        PathStyle::Windows => '\\',
    }
}

/// Where the piece of `s` that begins at `from` ends: at the next cut, or with `s`.
pub open spec fn piece_end(cut: Cut, s: Seq<char>, from: int) -> int
    decreases s.len() - from,
{
    if from < 0 || from >= s.len() {
        s.len() as int
    } else if cuts(cut, s[from]) {
        from
    } else {
        piece_end(cut, s, from + 1)
    }
}

/// Where the piece behind the one that begins at `from` ends, if there is one.
pub open spec fn second_end(cut: Cut, s: Seq<char>, from: int) -> int {
    let first = piece_end(cut, s, from);
    if first < s.len() {
        piece_end(cut, s, first + 1)
    } else {
        first
    }
}

/// Whether a drive is named at `at`: a letter and a colon.
pub open spec fn drive_at(s: Seq<char>, at: int) -> bool {
    at + 1 < s.len() && ('a' <= s[at] <= 'z' || 'A' <= s[at] <= 'Z') && s[at + 1] == ':'
}

/// Where a verbatim prefix ends: behind server and share, behind a drive, or behind the
/// piece that it names.
pub open spec fn verbatim_end(s: Seq<char>) -> int {
    if s.len() >= 8 && s[4] == 'U' && s[5] == 'N' && s[6] == 'C' && cuts(Cut::Either, s[7]) {
        let server = piece_end(Cut::Backslash, s, 8);
        let share = second_end(Cut::Backslash, s, 8);
        if share > server + 1 {
            share
        } else {
            server
        }
    } else if drive_at(s, 4) && (s.len() == 6 || cuts(Cut::Either, s[6])) {
        6
    } else {
        piece_end(Cut::Backslash, s, 4)
    }
}

/// The prefix of a path on Windows, and where it ends.
pub open spec fn windows_prefix(s: Seq<char>) -> (Prefix, int) {
    if s.len() >= 2 && cuts(Cut::Either, s[0]) && cuts(Cut::Either, s[1]) {
        if s.len() >= 4 && s[0] == '\\' && s[1] == '\\' && s[2] == '?' && s[3] == '\\' {
            (Prefix::Verbatim, verbatim_end(s))
        } else if s.len() >= 4 && s[2] == '.' && cuts(Cut::Either, s[3]) {
            (Prefix::Share, piece_end(Cut::Either, s, 4))
        } else {
            let server = piece_end(Cut::Either, s, 2);
            let share = second_end(Cut::Either, s, 2);
            if server > 2 && share > server + 1 {
                (Prefix::Share, share)
            } else {
                (Prefix::Absent, 0)
            }
        }
    } else if drive_at(s, 0) {
        (Prefix::Drive, 2)
    } else {
        (Prefix::Absent, 0)
    }
}

/// The prefix of a path, and where it ends.
pub open spec fn prefix_of(style: PathStyle, s: Seq<char>) -> (Prefix, int) {
    match style {
        PathStyle::Slash => (Prefix::Absent, 0),
        PathStyle::Windows => windows_prefix(s),
    }
}

/// Whether a root is written behind the prefix of `s`.
pub open spec fn has_root(style: PathStyle, s: Seq<char>) -> bool {
    let end = prefix_of(style, s).1;
    end < s.len() && cuts(plain_cut(style), s[end])
}

/// Where the components of `s` begin: behind prefix and root.
pub open spec fn body_start(style: PathStyle, s: Seq<char>) -> int {
    if has_root(style, s) {
        prefix_of(style, s).1 + 1
    } else {
        prefix_of(style, s).1
    }
}

/// Where the piece of `s` that ends at `end` begins: behind the last cut before it, but not
/// before `from`.
pub open spec fn piece_start(cut: Cut, s: Seq<char>, from: int, end: int) -> int
    decreases end - from,
{
    if end <= from {
        from
    } else if cuts(cut, s[end - 1]) {
        end
    } else {
        piece_start(cut, s, from, end - 1)
    }
}

/// Whether the piece from `start` to `end` names anything. Empty pieces do not. A single dot
/// does so at the very beginning of a path, and where everything is taken as it is.
pub open spec fn names_something(cut: Cut, s: Seq<char>, start: int, end: int) -> bool {
    start < end && (end == start + 1 && s[start] == '.' ==> start == 0 || cut is Backslash)
}

/// Where the components of `s` between `from` and `end` stand, from left to right.
pub open spec fn spans(cut: Cut, s: Seq<char>, from: int, end: int) -> Seq<(int, int)>
    decreases end - from,
{
    if end <= from {
        Seq::empty()
    } else {
        let start = piece_start(cut, s, from, end);
        let before = if from < start <= end {
            spans(cut, s, from, start - 1)
        } else {
            Seq::empty()
        };
        if names_something(cut, s, start, end) {
            before.push((start, end))
        } else {
            before
        }
    }
}

/// Where the components of `s` stand.
pub open spec fn all_spans(style: PathStyle, s: Seq<char>) -> Seq<(int, int)> {
    spans(cut_of(style, prefix_of(style, s).0), s, body_start(style, s), s.len() as int)
}

/// The components of `s`, without prefix and root.
pub open spec fn components(style: PathStyle, s: Seq<char>) -> Seq<Seq<char>> {
    all_spans(style, s).map_values(|r: (int, int)| s.subrange(r.0, r.1))
}

/// Whether `s` leads to the same place wherever it is looked up from.
pub open spec fn is_absolute(style: PathStyle, s: Seq<char>) -> bool {
    match style {
        PathStyle::Slash => has_root(style, s),
        PathStyle::Windows => match prefix_of(style, s).0 {
            Prefix::Absent => false,
            Prefix::Drive => has_root(style, s),
            Prefix::Share | Prefix::Verbatim => true,
        },
    }
}

/// Whether a component is a name, and not one of the two relative ones.
pub open spec fn is_name(c: Seq<char>) -> bool {
    c != seq!['.'] && c != seq!['.', '.']
}

/// The last component of `s`, if it is a name.
pub open spec fn file_name_of(style: PathStyle, s: Seq<char>) -> Option<Seq<char>> {
    let cs = components(style, s);
    if cs.len() > 0 && is_name(cs.last()) {
        Some(cs.last())
    } else {
        None
    }
}

/// What is left of `s` without its only component: prefix and root, and a dot right behind
/// a drive.
pub open spec fn lead_end(style: PathStyle, s: Seq<char>) -> int {
    let start = body_start(style, s);
    if prefix_of(style, s).0 is Drive && !has_root(style, s) && start < s.len() && s[start] == '.'
        && (start + 1 == s.len() || cuts(Cut::Either, s[start + 1])) {
        start + 1
    } else {
        start
    }
}

/// `s` without its last component, if it has one.
pub open spec fn parent_of(style: PathStyle, s: Seq<char>) -> Option<Seq<char>> {
    let rs = all_spans(style, s);
    if rs.len() == 0 {
        None
    } else if rs.len() > 1 {
        Some(s.take(rs[rs.len() - 2].1))
    } else {
        Some(s.take(lead_end(style, s)))
    }
}

/// Where the last dot among the first `end` characters of `s` is.
pub open spec fn last_dot(s: Seq<char>, end: int) -> Option<int>
    decreases end,
{
    if end <= 0 {
        None
    } else if s[end - 1] == '.' {
        Some(end - 1)
    } else {
        last_dot(s, end - 1)
    }
}

/// Where a file name is split into stem and extension; a name that begins with its only
/// dot is not split.
pub open spec fn split_point(name: Seq<char>) -> Option<int> {
    match last_dot(name, name.len() as int) {
        Some(i) if i > 0 => Some(i),
        _ => None,
    }
}

/// What stands behind the last dot of the file name of `s`.
pub open spec fn extension_of(style: PathStyle, s: Seq<char>) -> Option<Seq<char>> {
    match file_name_of(style, s) {
        Some(name) => match split_point(name) {
            Some(i) => Some(name.skip(i + 1)),
            None => None,
        },
        None => None,
    }
}

/// The file name of `s` without its extension.
pub open spec fn stem_of(style: PathStyle, s: Seq<char>) -> Option<Seq<char>> {
    match file_name_of(style, s) {
        Some(name) => match split_point(name) {
            Some(i) => Some(name.take(i)),
            None => Some(name),
        },
        None => None,
    }
}

/// Where one gets from `body` by `steps`: a dot stays, two dots go back over a name, and
/// anything else goes on.
pub open spec fn walked(body: Seq<Seq<char>>, steps: Seq<Seq<char>>) -> Seq<Seq<char>>
    decreases steps.len(),
{
    if steps.len() == 0 {
        body
    } else {
        let here = walked(body, steps.drop_last());
        if steps.last() == seq!['.'] {
            here
        } else if steps.last() == seq!['.', '.'] {
            if here.len() > 0 && is_name(here.last()) {
                here.drop_last()
            } else {
                here
            }
        } else {
            here.push(steps.last())
        }
    }
}

/// `child` looked up from a verbatim `base`. There dots would be taken as they are, so they
/// are followed.
pub open spec fn verbatim_joined(base: Seq<char>, child: Seq<char>) -> Seq<char> {
    let style = PathStyle::Windows;
    let root = has_root(style, child);
    let above = if root {
        Seq::empty()
    } else {
        components(style, base)
    };
    let body = walked(above, components(style, child));
    let prefix = base.take(prefix_of(style, base).1);
    if root || has_root(style, base) || body.len() > 0 {
        prefix.push('\\') + joined(body, "\\"@)
    } else {
        prefix
    }
}

/// Whether a separator is put behind `base` before anything else: there is none yet, and
/// `base` is more than a drive.
pub open spec fn wants_separator(style: PathStyle, base: Seq<char>) -> bool {
    &&& base.len() > 0
    &&& !cuts(plain_cut(style), base.last())
    &&& !(prefix_of(style, base) == (Prefix::Drive, base.len() as int))
}

/// `child` looked up from `base`. On Windows, a child with a prefix takes the place of the
/// base, and one that begins at the root keeps only the prefix of the base.
pub open spec fn path_joined(style: PathStyle, base: Seq<char>, child: Seq<char>) -> Seq<char> {
    if is_absolute(style, child) || !(prefix_of(style, child).0 is Absent) {
        child
    } else if prefix_of(style, base).0 is Verbatim && child.len() > 0 {
        verbatim_joined(base, child)
    } else if has_root(style, child) {
        base.take(prefix_of(style, base).1) + child
    } else if wants_separator(style, base) {
        base.push(separator(style)) + child
    } else {
        base + child
    }
}

/// The parts of `s`: its prefix, its root and its components. A share has a root even where
/// none is written.
pub open spec fn parts_of(style: PathStyle, s: Seq<char>) -> Seq<Seq<char>> {
    let (prefix, end) = prefix_of(style, s);
    let lead = if prefix is Absent {
        Seq::empty()
    } else {
        seq![s.take(end)]
    };
    let lead = if has_root(style, s) || prefix is Share {
        lead.push(seq![separator(style)])
    } else {
        lead
    };
    lead + components(style, s)
}

/// `parts`, each looked up from those before it.
pub open spec fn gathered(style: PathStyle, parts: Seq<Seq<char>>) -> Seq<char>
    decreases parts.len(),
{
    if parts.len() == 0 {
        Seq::empty()
    } else {
        path_joined(style, gathered(style, parts.drop_last()), parts.last())
    }
}

/// `s` without anything that names nothing.
pub open spec fn normalized(style: PathStyle, s: Seq<char>) -> Seq<char> {
    gathered(style, parts_of(style, s))
}

/// The text of an optional text.
pub open spec fn text_view(s: Option<String>) -> Option<Seq<char>> {
    match s {
        Some(text) => Some(text@),
        None => None,
    }
}

fn is_cut(cut: Cut, c: char) -> (r: bool)
    ensures
        r == cuts(cut, c),
{
    match cut {
        Cut::Slash => c == '/',
        Cut::Backslash => c == '\\',
        Cut::Either => c == '/' || c == '\\',
    }
}

fn find_plain_cut(style: PathStyle) -> (r: Cut)
    ensures
        r == plain_cut(style),
{
    match style {
        PathStyle::Slash => Cut::Slash,
        PathStyle::Windows => Cut::Either,
    }
}

fn find_separator(style: PathStyle) -> (r: char)
    ensures
        r == separator(style),
{
    match style {
        PathStyle::Slash => '/',
        PathStyle::Windows => '\\',
    }
}

fn find_piece_end(cut: Cut, chars: &Vec<char>, from: usize) -> (r: usize)
    requires
        from <= chars.len(),
    ensures
        r == piece_end(cut, chars@, from as int),
        from <= r <= chars.len(),
{
    let mut end: usize = from;
    while end < chars.len()
        invariant
            from <= end <= chars.len(),
            piece_end(cut, chars@, from as int) == piece_end(cut, chars@, end as int),
        decreases chars.len() - end,
    {
        if is_cut(cut, chars[end]) {
            return end;
        }
        end = end + 1;
    }
    end
}

fn find_second_end(cut: Cut, chars: &Vec<char>, from: usize) -> (r: usize)
    requires
        from <= chars.len(),
    ensures
        r == second_end(cut, chars@, from as int),
        from <= r <= chars.len(),
{
    let first: usize = find_piece_end(cut, chars, from);
    if first < chars.len() {
        find_piece_end(cut, chars, first + 1)
    } else {
        first
    }
}

fn names_drive(chars: &Vec<char>, at: usize) -> (r: bool)
    requires
        at <= chars.len(),
    ensures
        r == drive_at(chars@, at as int),
{
    if chars.len() - at < 2 {
        return false;
    }
    let c: char = chars[at];
    (('a' <= c && c <= 'z') || ('A' <= c && c <= 'Z')) && chars[at + 1] == ':'
}

fn find_verbatim_end(chars: &Vec<char>) -> (r: usize)
    requires
        chars.len() >= 4,
    ensures
        r == verbatim_end(chars@),
        r <= chars.len(),
{
    if chars.len() >= 8 && chars[4] == 'U' && chars[5] == 'N' && chars[6] == 'C' && is_cut(
        Cut::Either,
        chars[7],
    ) {
        let server: usize = find_piece_end(Cut::Backslash, chars, 8);
        let share: usize = find_second_end(Cut::Backslash, chars, 8);
        if share > server && share - server > 1 {
            share
        } else {
            server
        }
    } else if names_drive(chars, 4) && (chars.len() == 6 || is_cut(Cut::Either, chars[6])) {
        6
    } else {
        find_piece_end(Cut::Backslash, chars, 4)
    }
}

fn find_windows_prefix(chars: &Vec<char>) -> (r: (Prefix, usize))
    ensures
        (r.0, r.1 as int) == windows_prefix(chars@),
        r.1 <= chars.len(),
{
    if chars.len() >= 2 && is_cut(Cut::Either, chars[0]) && is_cut(Cut::Either, chars[1]) {
        if chars.len() >= 4 && chars[0] == '\\' && chars[1] == '\\' && chars[2] == '?' && chars[3]
            == '\\' {
            (Prefix::Verbatim, find_verbatim_end(chars))
        } else if chars.len() >= 4 && chars[2] == '.' && is_cut(Cut::Either, chars[3]) {
            (Prefix::Share, find_piece_end(Cut::Either, chars, 4))
        } else {
            let server: usize = find_piece_end(Cut::Either, chars, 2);
            let share: usize = find_second_end(Cut::Either, chars, 2);
            if server > 2 && share > server && share - server > 1 {
                (Prefix::Share, share)
            } else {
                (Prefix::Absent, 0)
            }
        }
    } else if names_drive(chars, 0) {
        (Prefix::Drive, 2)
    } else {
        (Prefix::Absent, 0)
    }
}

/// A path taken apart.
struct Taken {
    chars: Vec<char>,
    prefix: Prefix,
    prefix_end: usize,
    root: bool,
    start: usize,
    spans: Vec<(usize, usize)>,
}

spec fn as_ints(spans: Seq<(usize, usize)>) -> Seq<(int, int)> {
    spans.map_values(|p: (usize, usize)| (p.0 as int, p.1 as int))
}

impl Taken {
    /// Whether this is `s` taken apart.
    spec fn is(self, style: PathStyle, s: Seq<char>) -> bool {
        &&& self.chars@ == s
        &&& (self.prefix, self.prefix_end as int) == prefix_of(style, s)
        &&& self.root == has_root(style, s)
        &&& self.start == body_start(style, s)
        &&& self.prefix_end <= self.start <= s.len()
        &&& as_ints(self.spans@) == all_spans(style, s)
        &&& self.spans@.len() == all_spans(style, s).len()
        &&& forall|i: int|
            0 <= i < self.spans@.len() ==> {
                let p = #[trigger] self.spans@[i];
                &&& p.0 < p.1 <= s.len()
                &&& all_spans(style, s)[i] == (p.0 as int, p.1 as int)
                &&& components(style, s)[i] == s.subrange(p.0 as int, p.1 as int)
            }
    }
}

proof fn lemma_piece_start(cut: Cut, s: Seq<char>, from: int, start: int, end: int)
    requires
        0 <= from <= start <= end <= s.len(),
        start == from || cuts(cut, s[start - 1]),
        forall|i: int| start <= i < end ==> !cuts(cut, s[i]),
    ensures
        piece_start(cut, s, from, end) == start,
    decreases end - start,
{
    if start < end {
        lemma_piece_start(cut, s, from, start, end - 1);
    }
}

/// Finds the components behind `from`.
fn find_spans(chars: &Vec<char>, cut: Cut, from: usize) -> (r: Vec<(usize, usize)>)
    requires
        from <= chars.len(),
    ensures
        as_ints(r@) == spans(cut, chars@, from as int, chars@.len() as int),
        forall|i: int| 0 <= i < r.len() ==> (#[trigger] r[i]).0 < r[i].1 <= chars.len(),
{
    let mut out: Vec<(usize, usize)> = Vec::new();
    let mut start: usize = from;
    let mut end: usize = from;
    let ghost s = chars@;
    assert(as_ints(out@) == Seq::<(int, int)>::empty());
    while end <= chars.len()
        invariant
            s == chars@,
            from <= start <= end <= chars.len() + 1,
            from <= chars.len(),
            end == chars.len() + 1 ==> start == end,
            start == from || start == chars.len() + 1 || cuts(cut, s[start - 1]),
            forall|i: int| start <= i < end && i < chars.len() ==> !cuts(cut, s[i]),
            as_ints(out@) == if start == from {
                Seq::empty()
            } else {
                spans(cut, s, from as int, start - 1)
            },
            forall|i: int| 0 <= i < out.len() ==> (#[trigger] out[i]).0 < out[i].1 <= chars.len(),
        decreases chars.len() + 1 - end,
    {
        if end == chars.len() || is_cut(cut, chars[end]) {
            proof {
                lemma_piece_start(cut, s, from as int, start as int, end as int);
            }
            let dot = start < end && end - start == 1 && chars[start] == '.';
            let ghost before = out@;
            let verbatim = match cut {
                Cut::Backslash => true,
                _ => false,
            };
            if start < end && (!dot || start == 0 || verbatim) {
                out.push((start, end));
                assert(as_ints(out@) == as_ints(before).push((start as int, end as int)));
            }
            assert(as_ints(out@) == spans(cut, s, from as int, end as int));
            if end == chars.len() {
                return out;
            }
            start = end + 1;
        }
        end = end + 1;
    }
    out
}

/// Takes a path apart.
fn take_apart(style: PathStyle, path: &str) -> (r: Taken)
    ensures
        r.is(style, path@),
{
    let chars: Vec<char> = chars_of(path);
    let (prefix, prefix_end): (Prefix, usize) = match style {
        PathStyle::Slash => (Prefix::Absent, 0),
        PathStyle::Windows => find_windows_prefix(&chars),
    };
    let plain: Cut = find_plain_cut(style);
    let root = prefix_end < chars.len() && is_cut(plain, chars[prefix_end]);
    let start: usize = if root {
        prefix_end + 1
    } else {
        prefix_end
    };
    let cut: Cut = match prefix {
        Prefix::Verbatim => Cut::Backslash,
        _ => plain,
    };
    let spans: Vec<(usize, usize)> = find_spans(&chars, cut, start);
    proof {
        let rs = all_spans(style, path@);
        assert(as_ints(spans@) == rs);
        assert(as_ints(spans@).len() == spans@.len());
        assert forall|i: int| 0 <= i < spans@.len() implies {
            let p = #[trigger] spans@[i];
            &&& p.0 < p.1 <= path@.len()
            &&& rs[i] == (p.0 as int, p.1 as int)
            &&& components(style, path@)[i] == path@.subrange(p.0 as int, p.1 as int)
        } by {
            assert(spans[i].0 < spans[i].1 <= chars.len());
            assert(as_ints(spans@)[i] == rs[i]);
        }
    }
    Taken { chars, prefix, prefix_end, root, start, spans }
}

/// The number of dots of a component that is made of one or two dots; none for a name.
fn count_dots(text: &str) -> (r: usize)
    ensures
        text@ == seq!['.'] <==> r == 1,
        text@ == seq!['.', '.'] <==> r == 2,
        is_name(text@) <==> r == 0,
        r <= 2,
{
    let chars: Vec<char> = chars_of(text);
    if chars.len() == 1 && chars[0] == '.' {
        assert(text@ == seq!['.']);
        assert(text@.len() == 1);
        return 1;
    }
    if chars.len() == 2 && chars[0] == '.' && chars[1] == '.' {
        assert(text@ == seq!['.', '.']);
        assert(text@.len() == 2);
        return 2;
    }
    proof {
        if text@ == seq!['.'] {
            assert(text@.len() == 1 && text@[0] == '.');
        }
        if text@ == seq!['.', '.'] {
            assert(text@.len() == 2 && text@[0] == '.' && text@[1] == '.');
        }
    }
    0
}

/// The last component of a path, if it is a name.
pub fn file_name(style: PathStyle, path: &str) -> (r: Option<String>)
    ensures
        text_view(r) == file_name_of(style, path@),
{
    let taken: Taken = take_apart(style, path);
    let count: usize = taken.spans.len();
    if count == 0 {
        return None;
    }
    let (from, to): (usize, usize) = taken.spans[count - 1];
    assert(components(style, path@).last() == path@.subrange(from as int, to as int));
    let name: String = text_of(&taken.chars, from, to);
    if count_dots(name.as_str()) > 0 {
        return None;
    }
    Some(name)
}

/// A path without its last component.
pub fn parent(style: PathStyle, path: &str) -> (r: Option<String>)
    ensures
        text_view(r) == parent_of(style, path@),
{
    let taken: Taken = take_apart(style, path);
    let count: usize = taken.spans.len();
    if count == 0 {
        return None;
    }
    if count > 1 {
        let (from, to): (usize, usize) = taken.spans[count - 2];
        let text = text_of(&taken.chars, 0, to);
        assert(text@ == path@.take(to as int));
        return Some(text);
    }
    let start: usize = taken.start;
    let drive = match taken.prefix {
        Prefix::Drive => true,
        _ => false,
    };
    let len: usize = taken.chars.len();
    let dot = drive && !taken.root && start < len && taken.chars[start] == '.' && (start + 1 == len
        || is_cut(Cut::Either, taken.chars[start + 1]));
    let end: usize = if dot {
        start + 1
    } else {
        start
    };
    let text = text_of(&taken.chars, 0, end);
    assert(text@ == path@.take(end as int));
    Some(text)
}

fn find_last_dot(chars: &Vec<char>) -> (r: Option<usize>)
    ensures
        match r {
            Some(i) => split_point(chars@) == Some(i as int) && 0 < i < chars.len(),
            None => split_point(chars@) is None,
        },
{
    let mut end: usize = chars.len();
    while end > 0
        invariant
            end <= chars.len(),
            last_dot(chars@, end as int) == last_dot(chars@, chars@.len() as int),
        decreases end,
    {
        if chars[end - 1] == '.' {
            if end - 1 > 0 {
                return Some(end - 1);
            }
            return None;
        }
        end = end - 1;
    }
    None
}

/// What stands behind the last dot of a file name.
pub fn extension(style: PathStyle, path: &str) -> (r: Option<String>)
    ensures
        text_view(r) == extension_of(style, path@),
{
    match file_name(style, path) {
        Some(name) => {
            let chars: Vec<char> = chars_of(name.as_str());
            match find_last_dot(&chars) {
                Some(i) => {
                    let text = text_of(&chars, i + 1, chars.len());
                    assert(text@ == name@.skip(i + 1));
                    Some(text)
                },
                None => None,
            }
        },
        None => None,
    }
}

/// A file name without its extension.
pub fn stem(style: PathStyle, path: &str) -> (r: Option<String>)
    ensures
        text_view(r) == stem_of(style, path@),
{
    match file_name(style, path) {
        Some(name) => {
            let chars: Vec<char> = chars_of(name.as_str());
            match find_last_dot(&chars) {
                Some(i) => {
                    let text = text_of(&chars, 0, i);
                    assert(text@ == name@.take(i as int));
                    Some(text)
                },
                None => Some(name),
            }
        },
        None => None,
    }
}

/// Appends the components of a path.
fn push_components(out: &mut Vec<String>, taken: &Taken, Ghost(style): Ghost<PathStyle>)
    requires
        taken.is(style, taken.chars@),
    ensures
        texts(final(out)@) == texts(old(out)@) + components(style, taken.chars@),
{
    let ghost cs = components(style, taken.chars@);
    let ghost before = texts(out@);
    assert(before + cs.take(0) == before);
    let mut i: usize = 0;
    while i < taken.spans.len()
        invariant
            i <= taken.spans.len(),
            taken.is(style, taken.chars@),
            cs == components(style, taken.chars@),
            cs.len() == taken.spans.len(),
            texts(out@) == before + cs.take(i as int),
        decreases taken.spans.len() - i,
    {
        let (from, to): (usize, usize) = taken.spans[i];
        let piece: String = text_of(&taken.chars, from, to);
        let ghost so_far = out@;
        out.push(piece);
        assert(texts(out@) == texts(so_far).push(piece@));
        assert(cs[i as int] == piece@);
        i = i + 1;
        assert(cs.take(i as int) == cs.take(i - 1).push(cs[i - 1]));
        assert(before + cs.take(i as int) == (before + cs.take(i - 1)).push(cs[i - 1]));
    }
    assert(cs.take(i as int) == cs);
}

/// Goes on from `body`.
fn walk(body: &mut Vec<String>, steps: &Vec<String>)
    ensures
        texts(final(body)@) == walked(texts(old(body)@), texts(steps@)),
{
    let ghost all = texts(steps@);
    let ghost first = texts(body@);
    assert(all.take(0) == Seq::<Seq<char>>::empty());
    let mut i: usize = 0;
    while i < steps.len()
        invariant
            i <= steps.len(),
            all == texts(steps@),
            texts(body@) == walked(first, all.take(i as int)),
        decreases steps.len() - i,
    {
        let ghost here = body@;
        assert(all.take(i + 1).drop_last() == all.take(i as int));
        assert(all.take(i + 1).last() == steps@[i as int]@);
        let dots: usize = count_dots(steps[i].as_str());
        if dots == 2 {
            let count: usize = body.len();
            if count > 0 && count_dots(body[count - 1].as_str()) == 0 {
                assert(texts(here).last() == here.last()@);
                body.pop();
                assert(texts(body@) == texts(here).drop_last());
            } else if count > 0 {
                assert(texts(here).last() == here.last()@);
            }
        } else if dots == 0 {
            let step: String = steps[i].clone();
            body.push(step);
            assert(texts(body@) == texts(here).push(step@));
        }
        i = i + 1;
    }
    assert(all.take(i as int) == all);
}

/// Looks `child` up from a verbatim `base`.
fn join_verbatim(base: &Taken, child: &Taken) -> (r: String)
    requires
        base.is(PathStyle::Windows, base.chars@),
        child.is(PathStyle::Windows, child.chars@),
    ensures
        r@ == verbatim_joined(base.chars@, child.chars@),
{
    let mut body: Vec<String> = Vec::new();
    let mut steps: Vec<String> = Vec::new();
    assert(texts(body@) == Seq::<Seq<char>>::empty());
    assert(texts(steps@) == Seq::<Seq<char>>::empty());
    if !child.root {
        push_components(&mut body, base, Ghost(PathStyle::Windows));
        assert(texts(body@) == components(PathStyle::Windows, base.chars@));
    }
    push_components(&mut steps, child, Ghost(PathStyle::Windows));
    assert(texts(steps@) == components(PathStyle::Windows, child.chars@));
    walk(&mut body, &steps);
    assert(texts(body@).len() == body@.len());
    let mut out: String = text_of(&base.chars, 0, base.prefix_end);
    assert(out@ == base.chars@.take(base.prefix_end as int));
    if child.root || base.root || body.len() > 0 {
        out.push('\\');
        let rest: String = join(&body, "\\");
        out.append(rest.as_str());
    }
    out
}

/// Looks `child` up from `base`.
pub fn join_path(style: PathStyle, base: &str, child: &str) -> (r: String)
    ensures
        r@ == path_joined(style, base@, child@),
{
    let below: Taken = take_apart(style, child);
    let absent = match below.prefix {
        Prefix::Absent => true,
        _ => false,
    };
    let slash = match style {
        PathStyle::Slash => true,
        PathStyle::Windows => false,
    };
    if !absent || (slash && below.root) {
        return child.to_owned();
    }
    let above: Taken = take_apart(style, base);
    let verbatim = match above.prefix {
        Prefix::Verbatim => true,
        _ => false,
    };
    if verbatim && below.chars.len() > 0 {
        return join_verbatim(&above, &below);
    }
    if below.root {
        let mut out: String = text_of(&above.chars, 0, above.prefix_end);
        assert(out@ == base@.take(above.prefix_end as int));
        out.append(child);
        return out;
    }
    let len: usize = above.chars.len();
    let drive = match above.prefix {
        Prefix::Drive => above.prefix_end == len,
        _ => false,
    };
    let mut out: String = base.to_owned();
    if len > 0 && !is_cut(find_plain_cut(style), above.chars[len - 1]) && !drive {
        out.push(find_separator(style));
    }
    out.append(child);
    out
}

/// Writes a path without anything that names nothing.
pub fn normalize(style: PathStyle, path: &str) -> (r: String)
    ensures
        r@ == normalized(style, path@),
{
    let taken: Taken = take_apart(style, path);
    let mut parts: Vec<String> = Vec::new();
    let ghost none = Seq::<Seq<char>>::empty();
    assert(texts(parts@) == none);
    let (absent, share) = match taken.prefix {
        Prefix::Absent => (true, false),
        Prefix::Share => (false, true),
        _ => (false, false),
    };
    if !absent {
        let lead: String = text_of(&taken.chars, 0, taken.prefix_end);
        assert(lead@ == path@.take(taken.prefix_end as int));
        parts.push(lead);
        assert(texts(parts@) == seq![lead@]);
    }
    if taken.root || share {
        let mut root = String::new();
        root.push(find_separator(style));
        assert(root@ == seq![separator(style)]);
        let ghost before = parts@;
        parts.push(root);
        assert(texts(parts@) == texts(before).push(root@));
    }
    push_components(&mut parts, &taken, Ghost(style));
    assert(texts(parts@) == parts_of(style, path@));
    let ghost all = texts(parts@);
    let mut out = String::new();
    let mut i: usize = 0;
    assert(all.take(0) == none);
    while i < parts.len()
        invariant
            i <= parts.len(),
            all == texts(parts@),
            out@ == gathered(style, all.take(i as int)),
        decreases parts.len() - i,
    {
        out = join_path(style, out.as_str(), parts[i].as_str());
        i = i + 1;
        assert(all.take(i as int).drop_last() == all.take(i - 1));
        assert(all.take(i as int).last() == parts@[i - 1]@);
    }
    assert(all.take(i as int) == all);
    out
}

/// Whether `c` can be a component of a path that is not verbatim.
pub open spec fn is_component(style: PathStyle, c: Seq<char>) -> bool {
    &&& c.len() > 0
    &&& c != seq!['.']
    &&& forall|i: int| 0 <= i < c.len() ==> !cuts(plain_cut(style), #[trigger] c[i])
}

proof fn lemma_piece_bounds(cut: Cut, s: Seq<char>, from: int, end: int)
    requires
        0 <= from <= end <= s.len(),
    ensures
        from <= piece_start(cut, s, from, end) <= end,
        piece_start(cut, s, from, end) > from ==> cuts(
            cut,
            s[piece_start(cut, s, from, end) - 1],
        ),
        forall|i: int| piece_start(cut, s, from, end) <= i < end ==> !cuts(cut, #[trigger] s[i]),
    decreases end - from,
{
    if end > from && !cuts(cut, s[end - 1]) {
        lemma_piece_bounds(cut, s, from, end - 1);
    }
}

/// Every component is a piece between cuts that names something, and only the first one can
/// begin where the components begin.
proof fn lemma_spans(cut: Cut, s: Seq<char>, from: int, end: int)
    requires
        0 <= from <= end <= s.len(),
    ensures
        forall|i: int|
            0 <= i < spans(cut, s, from, end).len() ==> {
                let p = #[trigger] spans(cut, s, from, end)[i];
                &&& from <= p.0 < p.1 <= end
                &&& names_something(cut, s, p.0, p.1)
                &&& forall|j: int| p.0 <= j < p.1 ==> !cuts(cut, #[trigger] s[j])
                &&& p.0 == from ==> i == 0
            },
    decreases end - from,
{
    if end > from {
        lemma_piece_bounds(cut, s, from, end);
        let start = piece_start(cut, s, from, end);
        if start > from {
            lemma_spans(cut, s, from, start - 1);
        }
        let all = spans(cut, s, from, end);
        let before = if start > from {
            spans(cut, s, from, start - 1)
        } else {
            Seq::empty()
        };
        assert forall|i: int| 0 <= i < all.len() implies {
            let p = #[trigger] all[i];
            &&& from <= p.0 < p.1 <= end
            &&& names_something(cut, s, p.0, p.1)
            &&& forall|j: int| p.0 <= j < p.1 ==> !cuts(cut, #[trigger] s[j])
            &&& p.0 == from ==> i == 0
        } by {
            if i < before.len() {
                assert(all[i] == before[i]);
            } else {
                assert(all[i] == (start, end));
            }
        }
    }
}

/// What stands behind the first `end` characters has no part in their components.
proof fn lemma_spans_prefix(cut: Cut, s: Seq<char>, t: Seq<char>, from: int, end: int)
    requires
        0 <= from <= end <= s.len() <= t.len(),
        forall|i: int| 0 <= i < s.len() ==> s[i] == t[i],
    ensures
        piece_start(cut, s, from, end) == piece_start(cut, t, from, end),
        spans(cut, s, from, end) == spans(cut, t, from, end),
    decreases end - from,
{
    if end > from {
        lemma_spans_prefix(cut, s, t, from, end - 1);
        lemma_piece_bounds(cut, s, from, end);
        let start = piece_start(cut, s, from, end);
        if start > from {
            lemma_spans_prefix(cut, s, t, from, start - 1);
        }
    }
}

/// The prefix of a path on Windows ends within the path.
proof fn lemma_prefix_within(style: PathStyle, s: Seq<char>)
    ensures
        0 <= prefix_of(style, s).1 <= s.len(),
        0 <= body_start(style, s) <= s.len(),
{
    lemma_piece_end(Cut::Either, s, 2);
    lemma_piece_end(Cut::Either, s, piece_end(Cut::Either, s, 2) + 1);
    lemma_piece_end(Cut::Either, s, 4);
    lemma_piece_end(Cut::Backslash, s, 4);
    lemma_piece_end(Cut::Backslash, s, 8);
    lemma_piece_end(Cut::Backslash, s, piece_end(Cut::Backslash, s, 8) + 1);
}

proof fn lemma_piece_end(cut: Cut, s: Seq<char>, from: int)
    ensures
        0 <= piece_end(cut, s, from) <= s.len(),
    decreases s.len() - from,
{
    if 0 <= from < s.len() && !cuts(cut, s[from]) {
        lemma_piece_end(cut, s, from + 1);
    }
}

/// A component that is looked up from a directory is the last one, and those before it
/// stay, as long as the prefix does.
proof fn lemma_joined(style: PathStyle, dir: Seq<char>, name: Seq<char>)
    requires
        is_component(style, name),
        prefix_of(style, name).0 is Absent,
        !(prefix_of(style, dir).0 is Verbatim),
        prefix_of(style, path_joined(style, dir, name)) == prefix_of(style, dir),
    ensures
        components(style, path_joined(style, dir, name)) == components(style, dir).push(name),
        dir.len() > 0 ==> path_joined(style, dir, name)[0] == dir[0],
        dir.len() == 0 ==> path_joined(style, dir, name) == name,
{
    let cut = plain_cut(style);
    let t = path_joined(style, dir, name);
    let n = dir.len() as int;
    let end = t.len() as int;
    assert(!cuts(cut, name[0]));
    assert(prefix_of(style, name).1 == 0);
    assert(!has_root(style, name));
    let start = end - name.len();
    assert(t.subrange(start, end) == name);
    assert forall|i: int| start <= i < end implies !cuts(cut, #[trigger] t[i]) by {
        assert(t[i] == name[i - start]);
    }
    assert(forall|i: int| 0 <= i < n ==> dir[i] == t[i]);
    lemma_prefix_within(style, dir);
    lemma_prefix_within(style, t);
    let from = body_start(style, dir);
    let before = all_spans(style, dir);
    assert(name.len() == 1 && t[start] == '.' ==> name == seq!['.']) by {
        if name.len() == 1 && t[start] == '.' {
            assert(name[0] == t[start]);
        }
    }
    assert(names_something(cut, t, start, end));
    if wants_separator(style, dir) {
        assert(start == n + 1 && cuts(cut, t[n]));
        if prefix_of(style, dir).1 < n {
            assert(body_start(style, t) == from);
            lemma_piece_start(cut, t, from, start, end);
            lemma_spans_prefix(cut, dir, t, from, n);
        } else {
            assert(has_root(style, t) && body_start(style, t) == start);
            lemma_piece_start(cut, t, start, start, end);
        }
    } else {
        assert(start == n);
        if prefix_of(style, dir).1 < n {
            assert(body_start(style, t) == from);
            lemma_piece_start(cut, t, from, start, end);
            if from < n {
                assert(piece_start(cut, dir, from, n) == n);
                lemma_spans_prefix(cut, dir, t, from, n - 1);
            }
        } else {
            assert(!has_root(style, t) && body_start(style, t) == n);
            lemma_piece_start(cut, t, n, n, end);
        }
    }
    assert(all_spans(style, t) == before.push((start, end)));
    lemma_spans(cut, dir, from, n);
    assert forall|i: int| 0 <= i < before.len() implies components(style, t)[i] == components(
        style,
        dir,
    )[i] by {
        let p = before[i];
        assert(t.subrange(p.0, p.1) == dir.subrange(p.0, p.1));
    }
    assert(components(style, t) == components(style, dir).push(name));
}

/// Whether `c` can be a component of a verbatim path.
spec fn is_verbatim_component(c: Seq<char>) -> bool {
    c.len() > 0 && forall|i: int| 0 <= i < c.len() ==> #[trigger] c[i] != '\\'
}

/// Parts that are written behind `lead` with backslashes between them are the components
/// there.
proof fn lemma_rebuilt(lead: Seq<char>, parts: Seq<Seq<char>>)
    requires
        forall|i: int| 0 <= i < parts.len() ==> is_verbatim_component(#[trigger] parts[i]),
    ensures
        ({
            let t = lead + joined(parts, "\\"@);
            let rs = spans(Cut::Backslash, t, lead.len() as int, t.len() as int);
            rs.map_values(|r: (int, int)| t.subrange(r.0, r.1)) == parts
        }),
    decreases parts.len(),
{
    reveal_strlit("\\");
    let cut = Cut::Backslash;
    let from = lead.len() as int;
    let t = lead + joined(parts, "\\"@);
    let end = t.len() as int;
    let rs = spans(cut, t, from, end);
    if parts.len() > 0 {
        let c = parts.last();
        assert(is_verbatim_component(parts[parts.len() - 1]));
        let start = end - c.len();
        let rest = parts.drop_last();
        let u = lead + joined(rest, "\\"@);
        if parts.len() == 1 {
            assert(start == from);
            assert(rest == Seq::<Seq<char>>::empty());
        } else {
            assert(t == u.push('\\') + c);
        }
        assert(t.subrange(start, end) == c);
        assert forall|i: int| start <= i < end implies !cuts(cut, #[trigger] t[i]) by {
            assert(t[i] == c[i - start]);
        }
        lemma_piece_start(cut, t, from, start, end);
        if parts.len() == 1 {
            assert(rs == seq![(start, end)]);
            assert(rs.map_values(|r: (int, int)| t.subrange(r.0, r.1)) == parts);
        } else {
            assert forall|i: int| 0 <= i < rest.len() implies is_verbatim_component(
                #[trigger] rest[i],
            ) by {
                assert(rest[i] == parts[i]);
            }
            lemma_rebuilt(lead, rest);
            let n = u.len() as int;
            lemma_spans_prefix(cut, u, t, from, n);
            let before = spans(cut, u, from, n);
            assert(rs == before.push((start, end)));
            lemma_spans(cut, u, from, n);
            let texts_u = before.map_values(|r: (int, int)| u.subrange(r.0, r.1));
            let texts_t = rs.map_values(|r: (int, int)| t.subrange(r.0, r.1));
            assert forall|i: int| 0 <= i < rest.len() implies texts_t[i] == rest[i] by {
                assert(texts_u[i] == rest[i]);
                let p = before[i];
                assert(t.subrange(p.0, p.1) == u.subrange(p.0, p.1));
            }
            assert(texts_t == parts);
        }
    } else {
        assert(rs.map_values(|r: (int, int)| t.subrange(r.0, r.1)) == parts);
    }
}

/// A name that is looked up from a verbatim directory is the last component, and those
/// before it stay.
proof fn lemma_verbatim_joined(dir: Seq<char>, name: Seq<char>)
    requires
        is_component(PathStyle::Windows, name),
        is_name(name),
        prefix_of(PathStyle::Windows, name).0 is Absent,
        prefix_of(PathStyle::Windows, dir).0 is Verbatim,
        prefix_of(PathStyle::Windows, path_joined(PathStyle::Windows, dir, name)) == prefix_of(
            PathStyle::Windows,
            dir,
        ),
    ensures
        components(PathStyle::Windows, path_joined(PathStyle::Windows, dir, name)) == components(
            PathStyle::Windows,
            dir,
        ).push(name),
{
    let style = PathStyle::Windows;
    let cut = Cut::Backslash;
    let t = path_joined(style, dir, name);
    let above = components(style, dir);
    assert(!cuts(Cut::Either, name[0]));
    assert(!has_root(style, name));
    let end = name.len() as int;
    lemma_piece_start(Cut::Either, name, 0, 0, end);
    assert(names_something(Cut::Either, name, 0, end));
    assert(all_spans(style, name) == seq![(0int, end)]);
    assert(name.subrange(0, end) == name);
    let steps = components(style, name);
    assert(steps == seq![name]);
    assert(steps.drop_last() == Seq::<Seq<char>>::empty());
    assert(walked(above, steps.drop_last()) == above);
    let body = walked(above, steps);
    assert(body == above.push(name));
    lemma_prefix_within(style, dir);
    let prefix = dir.take(prefix_of(style, dir).1);
    let lead = prefix.push('\\');
    assert(t == lead + joined(body, "\\"@));
    let from = body_start(style, dir);
    lemma_spans(cut, dir, from, dir.len() as int);
    assert forall|i: int| 0 <= i < body.len() implies is_verbatim_component(#[trigger] body[i]) by {
        if i < above.len() {
            let p = all_spans(style, dir)[i];
            assert(body[i] == dir.subrange(p.0, p.1));
            assert forall|j: int| 0 <= j < body[i].len() implies #[trigger] body[i][j] != '\\' by {
                assert(body[i][j] == dir[p.0 + j]);
                assert(!cuts(cut, dir[p.0 + j]));
            }
        } else {
            assert forall|j: int| 0 <= j < name.len() implies #[trigger] name[j] != '\\' by {
                assert(!cuts(Cut::Either, name[j]));
            }
        }
    }
    assert(t[prefix.len() as int] == '\\');
    assert(body_start(style, t) == lead.len());
    lemma_rebuilt(lead, body);
}

/// A file that is looked up from a directory has its own name, and lies in that
/// directory: its components are those of the directory, and the name. On Windows this
/// holds of names without a drive, and of directories whose prefix stays what it is: a
/// server alone becomes a share with anything that is put behind it.
pub proof fn law_joined_name(style: PathStyle, dir: Seq<char>, name: Seq<char>)
    requires
        is_component(style, name),
        is_name(name),
        prefix_of(style, name).0 is Absent,
        prefix_of(style, path_joined(style, dir, name)) == prefix_of(style, dir),
    ensures
        components(style, path_joined(style, dir, name)) == components(style, dir).push(name),
        file_name_of(style, path_joined(style, dir, name)) == Some(name),
{
    if prefix_of(style, dir).0 is Verbatim {
        lemma_verbatim_joined(dir, name);
    } else {
        lemma_joined(style, dir, name);
    }
}

/// A path with a prefix, such as one on another drive, takes the place of the directory
/// that it is looked up from.
pub proof fn law_prefix_wins(base: Seq<char>, child: Seq<char>)
    requires
        !(prefix_of(PathStyle::Windows, child).0 is Absent),
    ensures
        path_joined(PathStyle::Windows, base, child) == child,
{
}

/// The first parts of a path with slashes, gathered.
proof fn lemma_gathered(s: Seq<char>, k: int)
    requires
        0 <= k <= components(PathStyle::Slash, s).len(),
    ensures
        ({
            let style = PathStyle::Slash;
            let all = parts_of(style, s);
            let lead = all.len() - components(style, s).len();
            let path = gathered(style, all.take(lead + k));
            &&& components(style, path) == components(style, s).take(k)
            &&& has_root(style, path) == has_root(style, s)
            &&& k == 0 && !has_root(style, s) ==> path.len() == 0
        }),
    decreases k,
{
    let style = PathStyle::Slash;
    let cut = Cut::Slash;
    let cs = components(style, s);
    let all = parts_of(style, s);
    let lead = all.len() - cs.len();
    let parts = all.take(lead + k);
    let path = gathered(style, parts);
    let from = body_start(style, s);
    lemma_spans(cut, s, from, s.len() as int);
    if k == 0 {
        if has_root(style, s) {
            let root = seq!['/'];
            assert(parts == seq![root]);
            assert(parts.drop_last() == Seq::<Seq<char>>::empty());
            assert(has_root(style, root));
            assert(path == root);
            assert(body_start(style, root) == 1);
            assert(components(style, root) == cs.take(0));
        } else {
            assert(parts == Seq::<Seq<char>>::empty());
            assert(components(style, path) == cs.take(0));
        }
    } else {
        lemma_gathered(s, k - 1);
        let c = cs[k - 1];
        let before = gathered(style, all.take(lead + k - 1));
        assert(parts.drop_last() == all.take(lead + k - 1));
        assert(parts.last() == c);
        let p = all_spans(style, s)[k - 1];
        assert(c == s.subrange(p.0, p.1));
        assert forall|i: int| 0 <= i < c.len() implies !cuts(cut, #[trigger] c[i]) by {
            assert(c[i] == s[p.0 + i]);
        }
        if c == seq!['.'] {
            assert(c[0] == s[p.0] && p.1 == p.0 + 1);
            assert(p.0 == 0 && k == 1 && !has_root(style, s));
            assert(before == Seq::<char>::empty());
            assert(path == c);
            assert(!has_root(style, c));
            lemma_piece_start(cut, c, 0, 0, 1);
            assert(all_spans(style, c) == seq![(0int, 1int)]);
            assert(c.subrange(0, 1) == c);
            assert(components(style, c) == seq![c]);
        } else {
            lemma_joined(style, before, c);
            assert(!cuts(cut, c[0]));
        }
        assert(cs.take(k) == cs.take(k - 1).push(c));
    }
}

/// Where components are separated by slashes, writing a path without anything that names
/// nothing changes neither its components nor where it begins, and doing so again changes
/// nothing.
pub proof fn law_normalized_stays(s: Seq<char>)
    ensures
        ({
            let style = PathStyle::Slash;
            let once = normalized(style, s);
            &&& components(style, once) == components(style, s)
            &&& is_absolute(style, once) == is_absolute(style, s)
            &&& normalized(style, once) == once
        }),
{
    let style = PathStyle::Slash;
    let cs = components(style, s);
    let all = parts_of(style, s);
    lemma_gathered(s, cs.len() as int);
    assert(all.take(all.len() as int) == all);
    assert(cs.take(cs.len() as int) == cs);
    assert(parts_of(style, normalized(style, s)) == all);
}

/// Each component of a path with slashes is written between slashes, and is neither empty
/// nor, but at the beginning of the path, a single dot.
pub proof fn law_components_are_pieces(s: Seq<char>, i: int)
    requires
        0 <= i < components(PathStyle::Slash, s).len(),
    ensures
        components(PathStyle::Slash, s)[i].len() > 0,
        !components(PathStyle::Slash, s)[i].contains('/'),
        components(PathStyle::Slash, s)[i] == seq!['.'] ==> i == 0 && s[0] == '.',
{
    let rs = all_spans(PathStyle::Slash, s);
    let from = body_start(PathStyle::Slash, s);
    lemma_spans(Cut::Slash, s, from, s.len() as int);
    let p = rs[i];
    let c = components(PathStyle::Slash, s)[i];
    assert(c == s.subrange(p.0, p.1));
    if c.contains('/') {
        let k = choose|k: int| 0 <= k < c.len() && c[k] == '/';
        assert(s[p.0 + k] == '/');
    }
    if c == seq!['.'] {
        assert(s[p.0] == c[0]);
        assert(p.0 == 0);
    }
}

/// What stands up to the end of a component holds the components up to it.
proof fn lemma_spans_take(cut: Cut, s: Seq<char>, from: int, end: int, i: int)
    requires
        0 <= from <= end <= s.len(),
        0 <= i < spans(cut, s, from, end).len(),
    ensures
        spans(cut, s, from, spans(cut, s, from, end)[i].1) == spans(cut, s, from, end).take(i + 1),
    decreases end - from,
{
    let all = spans(cut, s, from, end);
    lemma_piece_bounds(cut, s, from, end);
    let start = piece_start(cut, s, from, end);
    if start > from {
        let before = spans(cut, s, from, start - 1);
        if i < before.len() {
            lemma_spans_take(cut, s, from, start - 1, i);
            assert(all[i] == before[i]);
            assert(all.take(i + 1) == before.take(i + 1));
        } else {
            assert(all[i] == (start, end));
            assert(all.take(i + 1) == all);
        }
    } else {
        assert(all.take(i + 1) == all);
    }
}

/// What lies above a path with slashes has all of its components but the last one, and
/// begins where it begins. Nothing lies above a path without components.
pub proof fn law_parent_drops_last(s: Seq<char>)
    ensures
        ({
            let style = PathStyle::Slash;
            &&& parent_of(style, s) is None <==> components(style, s).len() == 0
            &&& parent_of(style, s) matches Some(above) ==> {
                &&& components(style, above) == components(style, s).drop_last()
                &&& is_absolute(style, above) == is_absolute(style, s)
            }
        }),
{
    let style = PathStyle::Slash;
    let rs = all_spans(style, s);
    let from = body_start(style, s);
    if let Some(above) = parent_of(style, s) {
        lemma_spans(Cut::Slash, s, from, s.len() as int);
        if rs.len() > 1 {
            let k = rs.len() - 2;
            let e = rs[k].1;
            lemma_spans_take(Cut::Slash, s, from, s.len() as int, k);
            assert(above == s.take(e));
            assert(above[0] == s[0]);
            assert(body_start(style, above) == from);
            lemma_spans_prefix(Cut::Slash, above, s, from, e);
            assert(all_spans(style, above) == rs.take(k + 1));
            assert(components(style, above) == components(style, s).drop_last()) by {
                assert forall|i: int| 0 <= i <= k implies components(style, above)[i] == components(
                    style,
                    s,
                )[i] by {
                    assert(rs[i] == all_spans(style, above)[i]);
                    lemma_spans(Cut::Slash, above, from, e);
                    assert(above.subrange(rs[i].0, rs[i].1) == s.subrange(rs[i].0, rs[i].1));
                }
            }
        } else {
            assert(above == s.take(from));
            assert(all_spans(style, above).len() == 0);
            assert(components(style, above) == components(style, s).drop_last());
        }
    }
}

/// Pieces behind a cut are where they would be without what is before it.
proof fn lemma_behind_cut(t: Seq<char>, b: Seq<char>, n: int, from: int, k: int)
    requires
        0 <= from <= n,
        t.len() == n + 1 + b.len(),
        t[n] == '/',
        forall|i: int| 0 <= i < b.len() ==> t[n + 1 + i] == #[trigger] b[i],
        0 <= k <= b.len(),
    ensures
        piece_start(Cut::Slash, t, from, n + 1 + k) == n + 1 + piece_start(Cut::Slash, b, 0, k),
    decreases k,
{
    if k > 0 {
        assert(t[n + 1 + (k - 1)] == b[k - 1]);
        if b[k - 1] != '/' {
            lemma_behind_cut(t, b, n, from, k - 1);
        }
    } else {
        assert(cuts(Cut::Slash, t[n]));
    }
}

/// Where the components of a path stand when `by` characters are put before it.
spec fn moved(rs: Seq<(int, int)>, by: int) -> Seq<(int, int)> {
    rs.map_values(|r: (int, int)| (r.0 + by, r.1 + by))
}

proof fn lemma_spans_behind(t: Seq<char>, b: Seq<char>, n: int, from: int, k: int)
    requires
        0 <= from <= n,
        n > 0,
        t.len() == n + 1 + b.len(),
        t[n] == '/',
        forall|i: int| 0 <= i < b.len() ==> t[n + 1 + i] == #[trigger] b[i],
        0 <= k <= b.len(),
        k == b.len() || b[k] == '/',
        b.len() > 0 && b[0] == '.' ==> b.len() > 1 && b[1] != '/',
    ensures
        spans(Cut::Slash, t, from, n + 1 + k) == spans(Cut::Slash, t, from, n) + moved(
            spans(Cut::Slash, b, 0, k),
            n + 1,
        ),
    decreases k,
{
    let cut = Cut::Slash;
    lemma_behind_cut(t, b, n, from, k);
    lemma_piece_bounds(cut, b, 0, k);
    lemma_piece_bounds(cut, t, from, n + 1 + k);
    let p = piece_start(cut, b, 0, k);
    let all = spans(cut, t, from, n + 1 + k);
    let head = spans(cut, t, from, n);
    if k == 0 {
        assert(spans(cut, b, 0, 0) == Seq::<(int, int)>::empty());
        assert(moved(spans(cut, b, 0, 0), n + 1) == Seq::<(int, int)>::empty());
        assert(all == head);
        assert(head + moved(spans(cut, b, 0, 0), n + 1) == head);
    } else {
        let now = (n + 1 + p, n + 1 + k);
        if p < k {
            assert(t[n + 1 + p] == b[p]);
        }
        assert(names_something(cut, t, n + 1 + p, n + 1 + k) == names_something(cut, b, p, k));
        let own = spans(cut, b, 0, k);
        if p > 0 {
            assert(b[p - 1] == '/');
            lemma_spans_behind(t, b, n, from, p - 1);
            let before = spans(cut, b, 0, p - 1);
            if names_something(cut, b, p, k) {
                assert(moved(before.push((p, k)), n + 1) == moved(before, n + 1).push(now));
                assert(all == (head + moved(before, n + 1)).push(now));
                assert(all == head + moved(own, n + 1));
            }
        } else {
            if names_something(cut, b, p, k) {
                assert(own == seq![(p, k)]);
                assert(moved(own, n + 1) == seq![now]);
                assert(all == head.push(now));
                assert(all == head + moved(own, n + 1));
            } else {
                assert(own == Seq::<(int, int)>::empty());
                assert(moved(own, n + 1) == Seq::<(int, int)>::empty());
                assert(head + moved(own, n + 1) == head);
            }
        }
    }
}

/// The components of two paths with a slash between them are those of the first one and
/// those of the second one. The second one is not absolute, and does not begin with a
/// component that is a single dot.
pub proof fn law_components_add_up(a: Seq<char>, b: Seq<char>)
    requires
        a.len() > 0,
        b.len() > 0 ==> b[0] != '/',
        b.len() > 0 && b[0] == '.' ==> b.len() > 1 && b[1] != '/',
    ensures
        components(PathStyle::Slash, a + seq!['/'] + b) == components(PathStyle::Slash, a)
            + components(PathStyle::Slash, b),
{
    let style = PathStyle::Slash;
    let t = a + seq!['/'] + b;
    let n = a.len() as int;
    assert(t[n] == '/');
    assert forall|i: int| 0 <= i < b.len() implies t[n + 1 + i] == #[trigger] b[i] by {}
    assert(t[0] == a[0]);
    let from = body_start(style, a);
    assert(body_start(style, t) == from);
    lemma_spans_behind(t, b, n, from, b.len() as int);
    lemma_spans_prefix(Cut::Slash, a, t, from, n);
    let ra = all_spans(style, a);
    let rb = all_spans(style, b);
    let rt = all_spans(style, t);
    assert(rt == ra + moved(rb, n + 1));
    lemma_spans(Cut::Slash, a, from, n);
    lemma_spans(Cut::Slash, b, 0, b.len() as int);
    assert forall|i: int| 0 <= i < rt.len() implies components(style, t)[i] == (components(style, a)
        + components(style, b))[i] by {
        if i < ra.len() {
            assert(rt[i] == ra[i]);
            assert(t.subrange(ra[i].0, ra[i].1) == a.subrange(ra[i].0, ra[i].1));
        } else {
            let r = rb[i - ra.len()];
            assert(rt[i] == (r.0 + n + 1, r.1 + n + 1));
            assert(t.subrange(r.0 + n + 1, r.1 + n + 1) == b.subrange(r.0, r.1));
        }
    }
    assert(components(style, t) == components(style, a) + components(style, b));
}

/// A text without slashes is a single component, unless it is empty.
pub proof fn law_single_component(name: Seq<char>)
    requires
        !name.contains('/'),
        name.len() > 0,
    ensures
        components(PathStyle::Slash, name) == seq![name],
{
    let style = PathStyle::Slash;
    assert forall|i: int| 0 <= i < name.len() implies !cuts(Cut::Slash, #[trigger] name[i]) by {
        assert(name.contains(name[i]));
    }
    let end = name.len() as int;
    lemma_piece_bounds(Cut::Slash, name, 0, end);
    assert(piece_start(Cut::Slash, name, 0, end) == 0);
    assert(all_spans(style, name) == seq![(0int, end)]);
    assert(name.subrange(0, end) == name);
    assert(components(style, name) == seq![name]);
}

/// Looking a path up from another one, with slashes: one that begins at the root stays as it
/// is; any other is put behind, with one slash between unless there is one already or there
/// is nothing to look up from.
pub proof fn law_looked_up(base: Seq<char>, child: Seq<char>)
    ensures
        ({
            let r = path_joined(PathStyle::Slash, base, child);
            &&& child.len() > 0 && child[0] == '/' ==> r == child
            &&& !(child.len() > 0 && child[0] == '/') ==> {
                &&& base.len() == 0 ==> r == child
                &&& base.len() > 0 && base.last() == '/' ==> r == base + child
                &&& base.len() > 0 && base.last() != '/' ==> r == base + seq!['/'] + child
            }
        }),
{
    let r = path_joined(PathStyle::Slash, base, child);
    assert(base.push('/') + child == base + seq!['/'] + child);
    assert(base.len() == 0 ==> base + child == child);
}

/// A path with slashes is cleaned up by writing its components with one slash between each
/// two of them, behind a slash if it begins at the root.
pub proof fn law_cleaned_up(s: Seq<char>)
    ensures
        normalized(PathStyle::Slash, s) == (if s.len() > 0 && s[0] == '/' {
            "/"@
        } else {
            Seq::empty()
        }) + joined(components(PathStyle::Slash, s), "/"@),
{
    let cs = components(PathStyle::Slash, s);
    let all = parts_of(PathStyle::Slash, s);
    lemma_cleaned_up(s, cs.len() as int);
    assert(all.take(all.len() as int) == all);
    assert(cs.take(cs.len() as int) == cs);
}

proof fn lemma_cleaned_up(s: Seq<char>, k: int)
    requires
        0 <= k <= components(PathStyle::Slash, s).len(),
    ensures
        ({
            let style = PathStyle::Slash;
            let cs = components(style, s);
            let all = parts_of(style, s);
            let lead = all.len() - cs.len();
            gathered(style, all.take(lead + k)) == (if s.len() > 0 && s[0] == '/' {
                "/"@
            } else {
                Seq::empty()
            }) + joined(cs.take(k), "/"@)
        }),
    decreases k,
{
    reveal_strlit("/");
    let style = PathStyle::Slash;
    let cs = components(style, s);
    let all = parts_of(style, s);
    let lead = all.len() - cs.len();
    let root = if s.len() > 0 && s[0] == '/' {
        "/"@
    } else {
        Seq::<char>::empty()
    };
    assert("/"@ == seq!['/']);
    if k == 0 {
        assert(joined(cs.take(0), "/"@) == Seq::<char>::empty());
        assert(root + Seq::<char>::empty() == root);
        if has_root(style, s) {
            assert(lead == 1);
            assert(all.take(1).drop_last() == Seq::<Seq<char>>::empty());
            assert(all.take(1).last() == seq!['/']);
            assert(gathered(style, Seq::empty()) == Seq::<char>::empty());
            assert(gathered(style, all.take(1)) == path_joined(style, Seq::empty(), seq!['/']));
        } else {
            assert(lead == 0);
            assert(all.take(0) == Seq::<Seq<char>>::empty());
        }
    } else {
        lemma_cleaned_up(s, k - 1);
        let c = cs[k - 1];
        law_components_are_pieces(s, k - 1);
        assert(c.contains(c[0]));
        let head = all.take(lead + k);
        assert(head.drop_last() == all.take(lead + k - 1));
        assert(head.last() == c);
        let base = gathered(style, all.take(lead + k - 1));
        law_looked_up(base, c);
        assert(cs.take(k).drop_last() == cs.take(k - 1));
        assert(cs.take(k).last() == c);
        if k == 1 {
            assert(cs.take(0) == Seq::<Seq<char>>::empty());
            assert(joined(cs.take(0), "/"@) == Seq::<char>::empty());
            assert(base == root);
            assert(joined(cs.take(1), "/"@) == c);
        } else {
            let d = cs[k - 2];
            law_components_are_pieces(s, k - 2);
            lemma_joined_ends(cs.take(k - 1), "/"@);
            assert(cs.take(k - 1).last() == d);
            assert(d.contains(d.last()));
            assert(base.last() == d.last());
            assert(joined(cs.take(k), "/"@) == joined(cs.take(k - 1), "/"@) + "/"@ + c);
            assert(root + (joined(cs.take(k - 1), "/"@) + "/"@ + c) == root + joined(
                cs.take(k - 1),
                "/"@,
            ) + seq!['/'] + c);
        }
    }
}

proof fn lemma_joined_ends(parts: Seq<Seq<char>>, sep: Seq<char>)
    requires
        parts.len() > 0,
        parts.last().len() > 0,
    ensures
        joined(parts, sep).len() > 0,
        joined(parts, sep).last() == parts.last().last(),
{
}

/// Without a prefix, a path on Windows has the components that it would have with a slash
/// for each backslash.
pub proof fn law_backslashes_are_slashes(s: Seq<char>)
    requires
        prefix_of(PathStyle::Windows, s).0 is Absent,
    ensures
        components(PathStyle::Windows, s) == components(
            PathStyle::Slash,
            s.map_values(
                |c: char|
                    if c == '\\' {
                        '/'
                    } else {
                        c
                    },
            ),
        ),
{
    let turn = |c: char|
        if c == '\\' {
            '/'
        } else {
            c
        };
    let t = s.map_values(turn);
    let a = PathStyle::Windows;
    let b = PathStyle::Slash;
    assert forall|i: int| 0 <= i < s.len() implies cuts(Cut::Either, s[i]) == cuts(
        Cut::Slash,
        #[trigger] t[i],
    ) && (s[i] == '.' <==> t[i] == '.') by {}
    let from = body_start(a, s);
    assert(from == body_start(b, t));
    lemma_same_spans(s, t, from, s.len() as int);
    lemma_spans(Cut::Either, s, from, s.len() as int);
    let rs = all_spans(a, s);
    assert forall|i: int| 0 <= i < rs.len() implies components(a, s)[i] == components(b, t)[i] by {
        let p = rs[i];
        assert(s.subrange(p.0, p.1) == t.subrange(p.0, p.1)) by {
            assert forall|j: int| p.0 <= j < p.1 implies s[j] == t[j] by {
                assert(!cuts(Cut::Either, s[j]));
            }
        }
    }
    assert(components(a, s) == components(b, t));
}

proof fn lemma_same_spans(s: Seq<char>, t: Seq<char>, from: int, end: int)
    requires
        0 <= from <= end <= s.len() == t.len(),
        forall|i: int|
            0 <= i < s.len() ==> cuts(Cut::Either, s[i]) == cuts(Cut::Slash, #[trigger] t[i]) && (
            s[i] == '.' <==> t[i] == '.'),
    ensures
        piece_start(Cut::Either, s, from, end) == piece_start(Cut::Slash, t, from, end),
        spans(Cut::Either, s, from, end) == spans(Cut::Slash, t, from, end),
    decreases end - from,
{
    if end > from {
        assert(cuts(Cut::Either, s[end - 1]) == cuts(Cut::Slash, t[end - 1]));
        lemma_same_spans(s, t, from, end - 1);
        lemma_piece_bounds(Cut::Either, s, from, end);
        let start = piece_start(Cut::Either, s, from, end);
        if start > from {
            lemma_same_spans(s, t, from, start - 1);
        }
        if start < end {
            assert((s[start] == '.') == (t[start] == '.'));
        }
    }
}

/// On Windows a letter and a colon name a drive. Such a path leads to the same place from
/// everywhere exactly if a separator follows, and takes the place of whatever it is looked
/// up from. What begins with one separator is looked up from the drive alone.
pub proof fn law_drives(path: Seq<char>, base: Seq<char>, child: Seq<char>)
    requires
        path.len() >= 2,
        'a' <= path[0] <= 'z' || 'A' <= path[0] <= 'Z',
        path[1] == ':',
    ensures
        prefix_of(PathStyle::Windows, path).0 is Drive,
        prefix_of(PathStyle::Windows, path).1 == 2,
        is_absolute(PathStyle::Windows, path) <==> path.len() > 2 && (path[2] == '/' || path[2]
            == '\\'),
        path_joined(PathStyle::Windows, base, path) == path,
        child.len() > 0 && (child[0] == '/' || child[0] == '\\') && (child.len() > 1 ==> child[1]
            != '/' && child[1] != '\\') ==> path_joined(PathStyle::Windows, path, child)
            == path.take(2) + child,
{
}

/// Following steps one after the other is following all of them. A dot stays where it is,
/// two dots go back over a name, and anything else goes on by one.
pub proof fn law_walked(body: Seq<Seq<char>>, a: Seq<Seq<char>>, b: Seq<Seq<char>>, name: Seq<char>)
    ensures
        walked(body, Seq::empty()) == body,
        walked(body, a + b) == walked(walked(body, a), b),
        walked(body, seq![seq!['.']]) == body,
        is_name(name) ==> walked(body, seq![name]) == body.push(name),
        is_name(name) ==> walked(body, seq![name, seq!['.', '.']]) == body,
        walked(Seq::empty(), seq![seq!['.', '.']]) == Seq::<Seq<char>>::empty(),
    decreases b.len(),
{
    reveal_with_fuel(walked, 3);
    let one = seq![seq!['.']];
    assert(one.drop_last() == Seq::<Seq<char>>::empty());
    let single = seq![name];
    assert(single.drop_last() == Seq::<Seq<char>>::empty());
    let both = seq![name, seq!['.', '.']];
    assert(both.drop_last() == single);
    let up = seq![seq!['.', '.']];
    assert(up.drop_last() == Seq::<Seq<char>>::empty());
    if is_name(name) {
        assert(body.push(name).drop_last() == body);
    }
    assert(seq!['.', '.'].len() == 2 && seq!['.'].len() == 1);
    if b.len() > 0 {
        law_walked(body, a, b.drop_last(), name);
        assert((a + b).drop_last() == a + b.drop_last());
    } else {
        assert(a + b == a);
    }
}

/// A piece ends at the next cut.
proof fn lemma_piece_ends_at(cut: Cut, s: Seq<char>, from: int, end: int)
    requires
        0 <= from <= end <= s.len(),
        forall|i: int| from <= i < end ==> !cuts(cut, #[trigger] s[i]),
        end < s.len() ==> cuts(cut, s[end]),
    ensures
        piece_end(cut, s, from) == end,
    decreases end - from,
{
    if from < end {
        assert(!cuts(cut, s[from]));
        lemma_piece_ends_at(cut, s, from + 1, end);
    }
}

/// On Windows two separators, a server, a separator and a share are a prefix: such a path
/// leads to the same place from everywhere, and takes the place of what it is looked up
/// from.
pub proof fn law_shares(path: Seq<char>, server_end: int, share_end: int, base: Seq<char>)
    requires
        path.len() >= 2,
        path[0] == '\\' || path[0] == '/',
        path[1] == '\\' || path[1] == '/',
        2 < server_end < path.len(),
        server_end + 1 < share_end <= path.len(),
        forall|i: int|
            2 <= i < server_end ==> #[trigger] path[i] != '\\' && path[i] != '/',
        forall|i: int|
            server_end < i < share_end ==> #[trigger] path[i] != '\\' && path[i] != '/',
        path[server_end] == '\\' || path[server_end] == '/',
        share_end < path.len() ==> path[share_end] == '\\' || path[share_end] == '/',
        server_end > 3 || (path[2] != '?' && path[2] != '.'),
    ensures
        prefix_of(PathStyle::Windows, path).0 is Share,
        prefix_of(PathStyle::Windows, path).1 == share_end,
        is_absolute(PathStyle::Windows, path),
        path_joined(PathStyle::Windows, base, path) == path,
{
    assert forall|i: int| 2 <= i < server_end implies !cuts(Cut::Either, #[trigger] path[i]) by {}
    assert forall|i: int| server_end + 1 <= i < share_end implies !cuts(
        Cut::Either,
        #[trigger] path[i],
    ) by {}
    lemma_piece_ends_at(Cut::Either, path, 2, server_end);
    lemma_piece_ends_at(Cut::Either, path, server_end + 1, share_end);
    if server_end > 3 {
        assert(path[3] != '\\' && path[3] != '/');
    }
}

/// On Windows a path that begins with two backslashes, a question mark and a backslash is
/// taken as it is: only backslashes stand between its components.
pub proof fn law_verbatim(path: Seq<char>, base: Seq<char>, i: int)
    requires
        path.len() >= 4,
        path[0] == '\\',
        path[1] == '\\',
        path[2] == '?',
        path[3] == '\\',
    ensures
        prefix_of(PathStyle::Windows, path).0 is Verbatim,
        is_absolute(PathStyle::Windows, path),
        path_joined(PathStyle::Windows, base, path) == path,
        0 <= i < components(PathStyle::Windows, path).len() ==> !components(
            PathStyle::Windows,
            path,
        )[i].contains('\\') && components(PathStyle::Windows, path)[i].len() > 0,
{
    let style = PathStyle::Windows;
    let rs = all_spans(style, path);
    lemma_prefix_within(style, path);
    let from = body_start(style, path);
    lemma_spans(Cut::Backslash, path, from, path.len() as int);
    if 0 <= i < rs.len() {
        let p = rs[i];
        let c = components(style, path)[i];
        assert(c == path.subrange(p.0, p.1));
        if c.contains('\\') {
            let k = choose|k: int| 0 <= k < c.len() && c[k] == '\\';
            assert(path[p.0 + k] == '\\');
        }
    }
}

/// On Windows too, what lies above a path has all of its components but the last one, as
/// long as it has the same prefix.
pub proof fn law_parent_on_windows(s: Seq<char>, above: Seq<char>)
    requires
        parent_of(PathStyle::Windows, s) == Some(above),
        prefix_of(PathStyle::Windows, above) == prefix_of(PathStyle::Windows, s),
    ensures
        components(PathStyle::Windows, above) == components(PathStyle::Windows, s).drop_last(),
        is_absolute(PathStyle::Windows, above) == is_absolute(PathStyle::Windows, s),
{
    let style = PathStyle::Windows;
    let rs = all_spans(style, s);
    let from = body_start(style, s);
    let cut = cut_of(style, prefix_of(style, s).0);
    lemma_prefix_within(style, s);
    lemma_prefix_within(style, above);
    lemma_spans(cut, s, from, s.len() as int);
    if rs.len() > 1 {
        let k = rs.len() - 2;
        let e = rs[k].1;
        lemma_spans_take(cut, s, from, s.len() as int, k);
        assert(above == s.take(e));
        assert(rs[k].0 >= from && e > from);
        assert(above[prefix_of(style, s).1] == s[prefix_of(style, s).1]);
        assert(body_start(style, above) == from);
        lemma_spans_prefix(cut, above, s, from, e);
        assert(all_spans(style, above) == rs.take(k + 1));
        lemma_spans(cut, above, from, e);
        assert forall|i: int| 0 <= i <= k implies components(style, above)[i] == components(
            style,
            s,
        )[i] by {
            assert(rs[i] == all_spans(style, above)[i]);
            assert(above.subrange(rs[i].0, rs[i].1) == s.subrange(rs[i].0, rs[i].1));
        }
        assert(components(style, above) == components(style, s).drop_last());
    } else {
        let lead = lead_end(style, s);
        assert(above == s.take(lead));
        if has_root(style, s) {
            assert(above[prefix_of(style, s).1] == s[prefix_of(style, s).1]);
            assert(body_start(style, above) == lead);
        } else {
            assert(body_start(style, above) == from);
            if lead == from + 1 {
                assert(above[from] == '.');
                lemma_piece_bounds(cut, above, from, lead);
                assert(piece_start(cut, above, from, from) == from);
                assert(piece_start(cut, above, from, lead) == from);
            }
        }
        assert(all_spans(style, above).len() == 0);
        assert(components(style, above) == components(style, s).drop_last());
    }
}

/// Looking a path up from another one on Windows, where neither the one that is looked up
/// has a prefix or a root nor the other one is taken as it is: it is put behind, with one
/// backslash between unless there is a separator already, there is nothing to look up from,
/// or there is only a drive.
pub proof fn law_looked_up_on_windows(base: Seq<char>, child: Seq<char>)
    requires
        prefix_of(PathStyle::Windows, child).0 is Absent,
        child.len() > 0 ==> child[0] != '/' && child[0] != '\\',
        !(prefix_of(PathStyle::Windows, base).0 is Verbatim),
    ensures
        ({
            let r = path_joined(PathStyle::Windows, base, child);
            let drive = base.len() == 2 && ('a' <= base[0] <= 'z' || 'A' <= base[0] <= 'Z')
                && base[1] == ':';
            &&& base.len() == 0 ==> r == child
            &&& base.len() > 0 && (drive || base.last() == '/' || base.last() == '\\') ==> r == base
                + child
            &&& base.len() > 0 && !drive && base.last() != '/' && base.last() != '\\' ==> r == base
                + seq!['\\'] + child
        }),
{
    assert(base.push('\\') + child == base + seq!['\\'] + child);
    assert(base.len() == 0 ==> base + child == child);
}

/// Where the prefix of a path ends that is taken as it is: behind a drive that a separator
/// or nothing follows; behind server and share, where both are named; and otherwise behind
/// the first piece.
pub proof fn law_verbatim_ends(path: Seq<char>, a: int, b: int)
    requires
        path.len() >= 4,
        path[0] == '\\',
        path[1] == '\\',
        path[2] == '?',
        path[3] == '\\',
        4 <= a <= b <= path.len(),
    ensures
        ({
            let end = prefix_of(PathStyle::Windows, path).1;
            let drive = path.len() >= 6 && ('a' <= path[4] <= 'z' || 'A' <= path[4] <= 'Z')
                && path[5] == ':' && (path.len() > 6 ==> path[6] == '\\' || path[6] == '/');
            let shared = path.len() >= 8 && path[4] == 'U' && path[5] == 'N' && path[6] == 'C' && (
            path[7] == '\\' || path[7] == '/');
            &&& drive ==> end == 6
            &&& shared && 8 <= a && a + 1 < b && path[a] == '\\' && (forall|i: int|
                8 <= i < a ==> #[trigger] path[i] != '\\') && (forall|i: int|
                a < i < b ==> #[trigger] path[i] != '\\') && (b < path.len() ==> path[b] == '\\')
                ==> end == b
            &&& !drive && !shared && (forall|i: int| 4 <= i < a ==> #[trigger] path[i] != '\\') && (a
                < path.len() ==> path[a] == '\\') ==> end == a
        }),
{
    let cut = Cut::Backslash;
    if forall|i: int| 4 <= i < a ==> #[trigger] path[i] != '\\' {
        if a < path.len() ==> path[a] == '\\' {
            lemma_piece_ends_at(cut, path, 4, a);
        }
    }
    if 8 <= a && a + 1 < b && path[a] == '\\' && (forall|i: int|
        8 <= i < a ==> #[trigger] path[i] != '\\') && (forall|i: int|
        a < i < b ==> #[trigger] path[i] != '\\') && (b < path.len() ==> path[b] == '\\') {
        lemma_piece_ends_at(cut, path, 8, a);
        lemma_piece_ends_at(cut, path, a + 1, b);
    }
}

} // verus!
