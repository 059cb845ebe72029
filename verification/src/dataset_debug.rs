//! Copies of training views and their neighbors, for people to look at.

use crate::text::{decimal, push_decimal, push_zero_padded, texts, zero_padded};
use vstd::prelude::*;
use vstd::string::*;

verus! {

/// A file that is copied.
#[derive(Debug)]
pub struct Copied {
    pub from: String,
    pub to: String,
}

/// Copies as pairs of texts.
pub open spec fn copy_views(copies: Seq<Copied>) -> Seq<(Seq<char>, Seq<char>)> {
    copies.map_values(|c: Copied| (c.from@, c.to@))
}

/// A file in a directory.
pub open spec fn in_dir(dir: Seq<char>, file: Seq<char>) -> Seq<char> {
    dir + "/"@ + file
}

/// The copy of a view.
pub open spec fn view_target(dir: Seq<char>, view: int) -> Seq<char> {
    dir + "/"@ + zero_padded(view as nat, 5) + ".png"@
}

/// The copy of a neighbor of a view.
pub open spec fn neighbor_target(dir: Seq<char>, view: int, neighbor: int) -> Seq<char> {
    dir + "/"@ + zero_padded(view as nat, 5) + "_neighbor_"@ + decimal(neighbor as nat) + ".png"@
}

/// The copies of the first `n` neighbors of a view.
pub open spec fn neighbor_copies(
    scene: Seq<char>,
    dir: Seq<char>,
    paths: Seq<Seq<char>>,
    view: int,
    neighbors: Seq<u32>,
    n: int,
) -> Seq<(Seq<char>, Seq<char>)>
    decreases n,
{
    if n <= 0 {
        Seq::empty()
    } else {
        neighbor_copies(scene, dir, paths, view, neighbors, n - 1).push(
            (in_dir(scene, paths[neighbors[n - 1] as int]), neighbor_target(dir, view, n - 1)),
        )
    }
}

/// The neighbors of views, as lists.
pub open spec fn neighbor_lists(neighbors: Seq<Vec<u32>>) -> Seq<Seq<u32>> {
    neighbors.map_values(|v: Vec<u32>| v@)
}

/// The copies of the first `n` views, each followed by its neighbors.
pub open spec fn all_copies(
    scene: Seq<char>,
    dir: Seq<char>,
    paths: Seq<Seq<char>>,
    neighbors: Seq<Seq<u32>>,
    n: int,
) -> Seq<(Seq<char>, Seq<char>)>
    decreases n,
{
    if n <= 0 {
        Seq::empty()
    } else {
        let list = neighbors[n - 1];
        all_copies(scene, dir, paths, neighbors, n - 1).push(
            (in_dir(scene, paths[n - 1]), view_target(dir, n - 1)),
        ) + neighbor_copies(scene, dir, paths, n - 1, list, list.len() as int)
    }
}

fn source_path(scene: &str, path: &str) -> (r: String)
    ensures
        r@ == in_dir(scene@, path@),
{
    let mut out: String = scene.to_owned();
    out.append("/");
    out.append(path);
    out
}

/// Lists the files that are copied; `paths` are those of the views, and `neighbors` the
/// views that are near to each of them.
pub fn debug_copies(scene: &str, dir: &str, paths: &Vec<String>, neighbors: &Vec<Vec<u32>>) -> (r:
    Vec<Copied>)
    requires
        paths@.len() <= neighbors@.len(),
        forall|i: int, j: int|
            0 <= i < paths@.len() && 0 <= j < neighbors@[i]@.len() ==> #[trigger] neighbors@[i]@[j]
                < paths@.len(),
    ensures
        copy_views(r@) == all_copies(
            scene@,
            dir@,
            texts(paths@),
            neighbor_lists(neighbors@),
            paths@.len() as int,
        ),
{
    let mut out: Vec<Copied> = Vec::new();
    let ghost names = texts(paths@);
    let ghost lists = neighbor_lists(neighbors@);
    assert(copy_views(out@) =~= Seq::empty());
    for i in 0..paths.len()
        invariant
            names == texts(paths@),
            lists == neighbor_lists(neighbors@),
            paths@.len() <= neighbors@.len(),
            forall|i: int, j: int|
                0 <= i < paths@.len() && 0 <= j < neighbors@[i]@.len()
                    ==> #[trigger] neighbors@[i]@[j] < paths@.len(),
            copy_views(out@) == all_copies(scene@, dir@, names, lists, i as int),
    {
        let mut to: String = dir.to_owned();
        to.append("/");
        push_zero_padded(&mut to, i as u64, 5);
        to.append(".png");
        let from: String = source_path(scene, paths[i].as_str());
        let ghost before = out@;
        out.push(Copied { from, to });
        let ghost start = copy_views(before).push(
            (in_dir(scene@, names[i as int]), view_target(dir@, i as int)),
        );
        assert(copy_views(out@) =~= start);
        let near: &Vec<u32> = &neighbors[i];
        assert(start + neighbor_copies(scene@, dir@, names, i as int, near@, 0) =~= start);
        for j in 0..near.len()
            invariant
                i < paths@.len(),
                paths@.len() <= neighbors@.len(),
                near == neighbors@[i as int],
                names == texts(paths@),
                forall|i: int, j: int|
                    0 <= i < paths@.len() && 0 <= j < neighbors@[i]@.len()
                        ==> #[trigger] neighbors@[i]@[j] < paths@.len(),
                copy_views(out@) == start + neighbor_copies(
                    scene@,
                    dir@,
                    names,
                    i as int,
                    near@,
                    j as int,
                ),
        {
            assert(neighbors@[i as int]@[j as int] < paths@.len());
            let index: usize = near[j] as usize;
            let mut to: String = dir.to_owned();
            to.append("/");
            push_zero_padded(&mut to, i as u64, 5);
            to.append("_neighbor_");
            push_decimal(&mut to, j as u64);
            to.append(".png");
            let from: String = source_path(scene, paths[index].as_str());
            let ghost before = out@;
            let ghost copied = (from@, to@);
            out.push(Copied { from, to });
            assert(copy_views(out@) =~= copy_views(before).push(copied));
            assert(copy_views(out@) =~= start + neighbor_copies(
                scene@,
                dir@,
                names,
                i as int,
                near@,
                j + 1,
            ));
        }
        assert(lists[i as int] == near@);
    }
    out
}

/// How many copies are made of the first `n` views.
pub open spec fn copies_before(neighbors: Seq<Seq<u32>>, n: int) -> int
    decreases n,
{
    if n <= 0 {
        0
    } else {
        copies_before(neighbors, n - 1) + 1 + neighbors[n - 1].len()
    }
}

/// Every view is copied under its number, written with at least five digits, and is
/// followed by its neighbors, each of them copied from the view that it is under the number
/// of the view that it is next to.
pub proof fn law_every_copy(
    scene: Seq<char>,
    dir: Seq<char>,
    paths: Seq<Seq<char>>,
    neighbors: Seq<Seq<u32>>,
    n: int,
    view: int,
    j: int,
)
    requires
        0 <= view < n,
    ensures
        ({
            let all = all_copies(scene, dir, paths, neighbors, n);
            let at = copies_before(neighbors, view);
            &&& all.len() == copies_before(neighbors, n)
            &&& 0 <= at < all.len()
            &&& all[at].0 == scene + "/"@ + paths[view]
            &&& all[at].1 == dir + "/"@ + zero_padded(view as nat, 5) + ".png"@
            &&& 0 <= j < neighbors[view].len() ==> {
                &&& at + 1 + j < all.len()
                &&& all[at + 1 + j].0 == scene + "/"@ + paths[neighbors[view][j] as int]
                &&& all[at + 1 + j].1 == dir + "/"@ + zero_padded(view as nat, 5) + "_neighbor_"@
                    + decimal(j as nat) + ".png"@
            }
        }),
    decreases n,
{
    let before = all_copies(scene, dir, paths, neighbors, n - 1);
    let list = neighbors[n - 1];
    let more = neighbor_copies(scene, dir, paths, n - 1, list, list.len() as int);
    let all = all_copies(scene, dir, paths, neighbors, n);
    let own = (in_dir(scene, paths[n - 1]), view_target(dir, n - 1));
    assert(all == before.push(own) + more);
    lemma_copies_len(scene, dir, paths, neighbors, n - 1);
    lemma_neighbor_copies(scene, dir, paths, n - 1, list, list.len() as int, j);
    let at = copies_before(neighbors, view);
    if view < n - 1 {
        law_every_copy(scene, dir, paths, neighbors, n - 1, view, j);
        assert(all[at] == before[at]);
        if 0 <= j < neighbors[view].len() {
            assert(all[at + 1 + j] == before[at + 1 + j]);
        }
    } else {
        assert(all[at] == own);
        if 0 <= j < list.len() {
            assert(all[at + 1 + j] == more[j]);
        }
    }
}

proof fn lemma_copies_len(
    scene: Seq<char>,
    dir: Seq<char>,
    paths: Seq<Seq<char>>,
    neighbors: Seq<Seq<u32>>,
    n: int,
)
    ensures
        all_copies(scene, dir, paths, neighbors, n).len() == copies_before(neighbors, n),
        copies_before(neighbors, n) >= 0,
    decreases n,
{
    if n > 0 {
        let list = neighbors[n - 1];
        lemma_copies_len(scene, dir, paths, neighbors, n - 1);
        lemma_neighbor_copies(scene, dir, paths, n - 1, list, list.len() as int, -1);
    }
}

proof fn lemma_neighbor_copies(
    scene: Seq<char>,
    dir: Seq<char>,
    paths: Seq<Seq<char>>,
    view: int,
    list: Seq<u32>,
    n: int,
    j: int,
)
    requires
        0 <= n,
    ensures
        ({
            let copies = neighbor_copies(scene, dir, paths, view, list, n);
            &&& copies.len() == n
            &&& 0 <= j < n ==> copies[j] == (
                in_dir(scene, paths[list[j] as int]),
                neighbor_target(dir, view, j),
            )
        }),
    decreases n,
{
    if n > 0 {
        lemma_neighbor_copies(scene, dir, paths, view, list, n - 1, j);
    }
}

} // verus!
