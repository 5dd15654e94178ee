//! A scan taken as a whole: what it finds in a tree of directories, and
//! that neither the steps in which it is run nor the order in which a
//! directory lists its entries change what it selects.

use crate::locate::scan::{
    accepted, asked, entered, lemma_newest, most_recent, newest, skipped_dir, wanted_file,
    CandidateView, DirEntryView, ScanView, Target,
};
use vstd::prelude::*;

verus! {

/// What is on disk below the roots of the scans: the entries of each
/// directory that can be read, in the order in which they are listed, and
/// of each file that can be read its content and the time it was last
/// modified.
pub struct Tree {
    pub listings: Map<Seq<char>, Seq<DirEntryView>>,
    pub files: Map<Seq<char>, (Seq<u8>, u64)>,
}

impl Tree {
    /// The entries of a directory; none where it cannot be read.
    pub open spec fn entries(self, dir: Seq<char>) -> Seq<DirEntryView> {
        if self.listings.dom().contains(dir) {
            self.listings[dir]
        } else {
            Seq::empty()
        }
    }
}

/// The candidate that a file becomes when its content is offered: none
/// where the file cannot be read or its content is not accepted.
pub open spec fn offered(tree: Tree, target: Target, path: Seq<char>) -> Option<CandidateView> {
    if tree.files.dom().contains(path) && accepted(target, tree.files[path].0) {
        Some(CandidateView { path, modified: tree.files[path].1 })
    } else {
        None
    }
}

/// The candidates found in a directory itself: of the files that the scan
/// asks for, those that become candidates, in the order they are listed.
pub open spec fn found_in(tree: Tree, target: Target, dir: Seq<char>) -> Seq<CandidateView> {
    tree.entries(dir).filter_map(|e: DirEntryView| asked(e, target)).filter_map(
        |p: Seq<char>| offered(tree, target, p),
    )
}

/// The directories that a scan enters from a directory that it reads at
/// `depth`.
pub open spec fn entered_from(tree: Tree, max_depth: usize, dir: Seq<char>, depth: usize) -> Seq<
    (Seq<char>, usize),
> {
    tree.entries(dir).filter_map(|e: DirEntryView| entered(e, depth, max_depth))
}

/// The candidates found in a directory read at `depth` and below it, in the
/// order in which the scan finds them: those of the directory itself, then
/// those below the directories it enters, the one listed last first.
pub open spec fn found_under(
    tree: Tree,
    target: Target,
    max_depth: usize,
    dir: Seq<char>,
    depth: usize,
) -> Seq<CandidateView>
    decreases max_depth - depth, 0nat,
{
    if depth < max_depth {
        found_in(tree, target, dir) + found_among(
            tree,
            target,
            max_depth,
            entered_from(tree, max_depth, dir, depth),
            (depth + 1) as usize,
        )
    } else {
        found_in(tree, target, dir)
    }
}

/// The candidates found under directories that are all read at `depth`,
/// the last of them first.
pub open spec fn found_among(
    tree: Tree,
    target: Target,
    max_depth: usize,
    dirs: Seq<(Seq<char>, usize)>,
    depth: usize,
) -> Seq<CandidateView>
    decreases max_depth - depth, dirs.len(),
{
    if dirs.len() == 0 {
        Seq::empty()
    } else {
        found_under(tree, target, max_depth, dirs.last().0, depth) + found_among(
            tree,
            target,
            max_depth,
            dirs.drop_last(),
            depth,
        )
    }
}

/// The candidates that are still to be found under the directories that
/// wait to be read, the last of them first.
pub open spec fn to_be_found(
    tree: Tree,
    target: Target,
    max_depth: usize,
    pending: Seq<(Seq<char>, usize)>,
) -> Seq<CandidateView>
    decreases pending.len(),
{
    if pending.len() == 0 {
        Seq::empty()
    } else {
        found_under(tree, target, max_depth, pending.last().0, pending.last().1) + to_be_found(
            tree,
            target,
            max_depth,
            pending.drop_last(),
        )
    }
}

/// A scan after one more directory: the directory that was found last is
/// read, the files that the scan asks for are offered with what the tree
/// holds of them, and the directories to enter are put in line. A scan
/// that is over stays as it is.
pub open spec fn stepped(scan: ScanView, tree: Tree) -> ScanView {
    if scan.pending.len() == 0 {
        scan
    } else {
        let (dir, depth) = scan.pending.last();
        ScanView {
            target: scan.target,
            max_depth: scan.max_depth,
            pending: scan.pending.drop_last() + entered_from(tree, scan.max_depth, dir, depth),
            candidates: scan.candidates + found_in(tree, scan.target, dir),
        }
    }
}

/// The candidates that a scan has found, followed by those that it is
/// still to find.
pub open spec fn in_all(scan: ScanView, tree: Tree) -> Seq<CandidateView> {
    scan.candidates + to_be_found(tree, scan.target, scan.max_depth, scan.pending)
}

/// What a scan below `root` selects in a tree.
pub open spec fn scan_result(tree: Tree, target: Target, root: Seq<char>, max_depth: usize) -> Option<
    Seq<char>,
> {
    most_recent(found_under(tree, target, max_depth, root, 0))
}

/// What is to be found under two runs of directories is what is to be found
/// under the second, followed by what is to be found under the first.
pub proof fn lemma_to_be_found_in_turn(
    tree: Tree,
    target: Target,
    max_depth: usize,
    first: Seq<(Seq<char>, usize)>,
    second: Seq<(Seq<char>, usize)>,
)
    ensures
        to_be_found(tree, target, max_depth, first + second) == to_be_found(
            tree,
            target,
            max_depth,
            second,
        ) + to_be_found(tree, target, max_depth, first),
    decreases second.len(),
{
    if second.len() == 0 {
        assert(first + second =~= first);
        assert(to_be_found(tree, target, max_depth, second) + to_be_found(
            tree,
            target,
            max_depth,
            first,
        ) =~= to_be_found(tree, target, max_depth, first));
    } else {
        lemma_to_be_found_in_turn(tree, target, max_depth, first, second.drop_last());
        assert((first + second).drop_last() =~= first + second.drop_last());
        assert((first + second).last() == second.last());
        let under = found_under(tree, target, max_depth, second.last().0, second.last().1);
        let before = to_be_found(tree, target, max_depth, second.drop_last());
        let rest = to_be_found(tree, target, max_depth, first);
        assert(under + (before + rest) =~= (under + before) + rest);
    }
}

/// Under directories that are all read at one depth, what is to be found
/// is what is found among them.
pub proof fn lemma_to_be_found_at_depth(
    tree: Tree,
    target: Target,
    max_depth: usize,
    dirs: Seq<(Seq<char>, usize)>,
    depth: usize,
)
    requires
        forall|i: int| 0 <= i < dirs.len() ==> (#[trigger] dirs[i]).1 == depth,
    ensures
        to_be_found(tree, target, max_depth, dirs) == found_among(
            tree,
            target,
            max_depth,
            dirs,
            depth,
        ),
    decreases dirs.len(),
{
    if dirs.len() > 0 {
        let front = dirs.drop_last();
        assert forall|i: int| 0 <= i < front.len() implies (#[trigger] front[i]).1 == depth by {
            assert(front[i] == dirs[i]);
        }
        lemma_to_be_found_at_depth(tree, target, max_depth, front, depth);
        assert(dirs[dirs.len() - 1].1 == depth);
    }
}

/// What a choice among the items of a list holds: exactly what the choice
/// makes of some item of the list.
pub proof fn lemma_filter_map_member<A, B>(list: Seq<A>, pick: spec_fn(A) -> Option<B>, item: B)
    ensures
        list.filter_map(pick).contains(item) <==> exists|i: int|
            0 <= i < list.len() && pick(#[trigger] list[i]) == Some(item),
    decreases list.len(),
{
    if list.len() > 0 {
        let front = list.drop_last();
        let last = list.last();
        lemma_filter_map_member(front, pick, item);
        let chosen = list.filter_map(pick);
        let earlier = front.filter_map(pick);
        if chosen.contains(item) {
            let k = choose|k: int| 0 <= k < chosen.len() && chosen[k] == item;
            if k < earlier.len() {
                assert(earlier[k] == item);
                assert(earlier.contains(item));
                let i = choose|i: int| 0 <= i < front.len() && pick(#[trigger] front[i]) == Some(item);
                assert(list[i] == front[i]);
            } else {
                assert(pick(list[list.len() - 1]) == Some(item));
            }
        }
        if exists|i: int| 0 <= i < list.len() && pick(#[trigger] list[i]) == Some(item) {
            let i = choose|i: int| 0 <= i < list.len() && pick(#[trigger] list[i]) == Some(item);
            if i < front.len() {
                assert(front[i] == list[i]);
                assert(earlier.contains(item));
                let k = choose|k: int| 0 <= k < earlier.len() && earlier[k] == item;
                assert(chosen[k] == item);
            } else {
                assert(chosen[chosen.len() - 1] == item);
            }
        }
    }
}

/// The directories that a scan enters from a directory read at `depth`
/// are read one level deeper, and there is none where the scan descends no
/// further.
pub proof fn lemma_entered_from(tree: Tree, max_depth: usize, dir: Seq<char>, depth: usize)
    ensures
        forall|i: int|
            0 <= i < entered_from(tree, max_depth, dir, depth).len() ==> (#[trigger] entered_from(
                tree,
                max_depth,
                dir,
                depth,
            )[i]).1 == depth + 1,
        depth >= max_depth ==> entered_from(tree, max_depth, dir, depth).len() == 0,
{
    let list = entered_from(tree, max_depth, dir, depth);
    let pick = |e: DirEntryView| entered(e, depth, max_depth);
    assert forall|i: int| 0 <= i < list.len() implies (#[trigger] list[i]).1 == depth + 1 && depth
        < max_depth by {
        assert(list.contains(list[i]));
        lemma_filter_map_member(tree.entries(dir), pick, list[i]);
    }
    if depth >= max_depth && list.len() > 0 {
        assert(list.contains(list[0]));
        lemma_filter_map_member(tree.entries(dir), pick, list[0]);
    }
}

/// A step leaves what the scan finds in all: what it has found and what it
/// is still to find, in this order, stay the same.
pub proof fn lemma_step_keeps_all(scan: ScanView, tree: Tree)
    ensures
        in_all(stepped(scan, tree), tree) == in_all(scan, tree),
        scan.bounded() ==> stepped(scan, tree).bounded(),
{
    if scan.pending.len() > 0 {
        let (dir, depth) = scan.pending.last();
        let rest = scan.pending.drop_last();
        let pushed = entered_from(tree, scan.max_depth, dir, depth);
        let own = found_in(tree, scan.target, dir);
        let left = to_be_found(tree, scan.target, scan.max_depth, rest);
        lemma_entered_from(tree, scan.max_depth, dir, depth);
        lemma_to_be_found_in_turn(tree, scan.target, scan.max_depth, rest, pushed);
        if depth < scan.max_depth {
            lemma_to_be_found_at_depth(
                tree,
                scan.target,
                scan.max_depth,
                pushed,
                (depth + 1) as usize,
            );
        } else {
            assert(pushed =~= Seq::<(Seq<char>, usize)>::empty());
        }
        let below = to_be_found(tree, scan.target, scan.max_depth, pushed);
        assert(found_under(tree, scan.target, scan.max_depth, dir, depth) =~= own + below);
        assert((scan.candidates + own) + (below + left) =~= scan.candidates + ((own + below)
            + left));
        if scan.bounded() {
            let after = stepped(scan, tree).pending;
            assert forall|i: int| 0 <= i < after.len() implies (#[trigger] after[i]).1
                <= scan.max_depth by {
                if i < rest.len() {
                    assert(after[i] == scan.pending[i]);
                } else {
                    assert(after[i] == pushed[i - rest.len()]);
                }
            }
        }
    }
}

/// A scan that has its root still to read finds in all what is found under
/// the root, and a scan that is over has found all.
pub proof fn lemma_all_at_the_ends(scan: ScanView, tree: Tree, root: Seq<char>)
    ensures
        scan.pending == seq![(root, 0usize)] && scan.candidates.len() == 0 ==> in_all(scan, tree)
            == found_under(tree, scan.target, scan.max_depth, root, 0),
        scan.pending.len() == 0 ==> in_all(scan, tree) == scan.candidates,
{
    if scan.pending == seq![(root, 0usize)] && scan.candidates.len() == 0 {
        let under = found_under(tree, scan.target, scan.max_depth, root, 0);
        assert(scan.pending.drop_last() =~= Seq::<(Seq<char>, usize)>::empty());
        assert(scan.pending.last() == (root, 0usize));
        assert(to_be_found(tree, scan.target, scan.max_depth, scan.pending.drop_last()).len() == 0);
        assert(to_be_found(tree, scan.target, scan.max_depth, scan.pending) =~= under);
        assert(scan.candidates + under =~= under);
    }
    if scan.pending.len() == 0 {
        assert(in_all(scan, tree) =~= scan.candidates);
    }
}

/// Two lists one after the other hold what either holds.
pub proof fn lemma_joined_member<A>(first: Seq<A>, second: Seq<A>, item: A)
    ensures
        (first + second).contains(item) <==> first.contains(item) || second.contains(item),
{
    let both = first + second;
    if both.contains(item) {
        let k = choose|k: int| 0 <= k < both.len() && both[k] == item;
        if k < first.len() {
            assert(first[k] == item);
        } else {
            assert(second[k - first.len()] == item);
        }
    }
    if first.contains(item) {
        let k = choose|k: int| 0 <= k < first.len() && first[k] == item;
        assert(both[k] == item);
    }
    if second.contains(item) {
        let k = choose|k: int| 0 <= k < second.len() && second[k] == item;
        assert(both[k + first.len()] == item);
    }
}

/// A candidate is found in a directory itself exactly when the directory
/// lists a file that the scan asks for and that becomes this candidate.
pub proof fn lemma_found_in_member(tree: Tree, target: Target, dir: Seq<char>, c: CandidateView)
    ensures
        found_in(tree, target, dir).contains(c) <==> exists|i: int|
            0 <= i < tree.entries(dir).len() && !(#[trigger] tree.entries(dir)[i]).is_dir
                && wanted_file(target, tree.entries(dir)[i].path) && offered(
                tree,
                target,
                tree.entries(dir)[i].path,
            ) == Some(c),
{
    let entries = tree.entries(dir);
    let ask = |e: DirEntryView| asked(e, target);
    let offer = |p: Seq<char>| offered(tree, target, p);
    let files = entries.filter_map(ask);
    lemma_filter_map_member(files, offer, c);
    if found_in(tree, target, dir).contains(c) {
        let k = choose|k: int| 0 <= k < files.len() && offer(#[trigger] files[k]) == Some(c);
        assert(files.contains(files[k]));
        lemma_filter_map_member(entries, ask, files[k]);
        let i = choose|i: int| 0 <= i < entries.len() && ask(#[trigger] entries[i]) == Some(files[k]);
        assert(!entries[i].is_dir && wanted_file(target, entries[i].path) && offered(
            tree,
            target,
            entries[i].path,
        ) == Some(c));
    }
    if exists|i: int|
        0 <= i < entries.len() && !(#[trigger] entries[i]).is_dir && wanted_file(
            target,
            entries[i].path,
        ) && offered(tree, target, entries[i].path) == Some(c) {
        let i = choose|i: int|
            0 <= i < entries.len() && !(#[trigger] entries[i]).is_dir && wanted_file(
                target,
                entries[i].path,
            ) && offered(tree, target, entries[i].path) == Some(c);
        assert(ask(entries[i]) == Some(entries[i].path));
        lemma_filter_map_member(entries, ask, entries[i].path);
        let k = choose|k: int| 0 <= k < files.len() && files[k] == entries[i].path;
        assert(offer(files[k]) == Some(c));
    }
}

/// A candidate is found among directories exactly when it is found under
/// one of them.
pub proof fn lemma_found_among_member(
    tree: Tree,
    target: Target,
    max_depth: usize,
    dirs: Seq<(Seq<char>, usize)>,
    depth: usize,
    c: CandidateView,
)
    ensures
        found_among(tree, target, max_depth, dirs, depth).contains(c) <==> exists|k: int|
            0 <= k < dirs.len() && found_under(
                tree,
                target,
                max_depth,
                (#[trigger] dirs[k]).0,
                depth,
            ).contains(c),
    decreases dirs.len(),
{
    if dirs.len() > 0 {
        let front = dirs.drop_last();
        let under = found_under(tree, target, max_depth, dirs.last().0, depth);
        let before = found_among(tree, target, max_depth, front, depth);
        lemma_found_among_member(tree, target, max_depth, front, depth, c);
        lemma_joined_member(under, before, c);
        if before.contains(c) {
            let k = choose|k: int|
                0 <= k < front.len() && found_under(
                    tree,
                    target,
                    max_depth,
                    (#[trigger] front[k]).0,
                    depth,
                ).contains(c);
            assert(dirs[k] == front[k]);
        }
        if under.contains(c) {
            assert(dirs[dirs.len() - 1] == dirs.last());
        }
        if exists|k: int|
            0 <= k < dirs.len() && found_under(
                tree,
                target,
                max_depth,
                (#[trigger] dirs[k]).0,
                depth,
            ).contains(c) {
            let k = choose|k: int|
                0 <= k < dirs.len() && found_under(
                    tree,
                    target,
                    max_depth,
                    (#[trigger] dirs[k]).0,
                    depth,
                ).contains(c);
            if k < front.len() {
                assert(front[k] == dirs[k]);
            }
        }
    }
}

/// True when a scan that reads `dir` at `depth` enters one of its entries
/// and finds the candidate under it.
pub open spec fn found_below(
    tree: Tree,
    target: Target,
    max_depth: usize,
    dir: Seq<char>,
    depth: usize,
    c: CandidateView,
) -> bool {
    depth < max_depth && exists|i: int|
        0 <= i < tree.entries(dir).len() && (#[trigger] tree.entries(dir)[i]).is_dir && !skipped_dir(
            tree.entries(dir)[i].path,
        ) && found_under(
            tree,
            target,
            max_depth,
            tree.entries(dir)[i].path,
            (depth + 1) as usize,
        ).contains(c)
}

/// A candidate is found under a directory exactly when it is found in the
/// directory itself or, where the scan descends further, under an entry
/// that is a directory and is not skipped. So no file is found that lies
/// deeper than the scan descends or under a directory that is skipped.
pub proof fn lemma_found_member(
    tree: Tree,
    target: Target,
    max_depth: usize,
    dir: Seq<char>,
    depth: usize,
    c: CandidateView,
)
    ensures
        found_under(tree, target, max_depth, dir, depth).contains(c) <==> found_in(
            tree,
            target,
            dir,
        ).contains(c) || found_below(tree, target, max_depth, dir, depth, c),
{
    if depth < max_depth {
        let entries = tree.entries(dir);
        let enter = |e: DirEntryView| entered(e, depth, max_depth);
        let dirs = entered_from(tree, max_depth, dir, depth);
        let next = (depth + 1) as usize;
        let below = found_among(tree, target, max_depth, dirs, next);
        lemma_joined_member(found_in(tree, target, dir), below, c);
        lemma_found_among_member(tree, target, max_depth, dirs, next, c);
        if below.contains(c) {
            let k = choose|k: int|
                0 <= k < dirs.len() && found_under(
                    tree,
                    target,
                    max_depth,
                    (#[trigger] dirs[k]).0,
                    next,
                ).contains(c);
            assert(dirs.contains(dirs[k]));
            lemma_filter_map_member(entries, enter, dirs[k]);
            let i = choose|i: int|
                0 <= i < entries.len() && enter(#[trigger] entries[i]) == Some(dirs[k]);
            assert(entries[i].is_dir && !skipped_dir(entries[i].path) && entries[i].path
                == dirs[k].0);
        }
        if found_below(tree, target, max_depth, dir, depth, c) {
            let i = choose|i: int|
                0 <= i < entries.len() && (#[trigger] entries[i]).is_dir && !skipped_dir(
                    entries[i].path,
                ) && found_under(tree, target, max_depth, entries[i].path, next).contains(c);
            assert(enter(entries[i]) == Some((entries[i].path, next)));
            lemma_filter_map_member(entries, enter, (entries[i].path, next));
            let k = choose|k: int| 0 <= k < dirs.len() && dirs[k] == (entries[i].path, next);
            assert(found_under(tree, target, max_depth, dirs[k].0, next).contains(c));
        }
    }
}

/// Every candidate that a scan finds is a file that it asks for, that can
/// be read and whose content is accepted, with the time that the tree
/// holds for it.
pub proof fn lemma_found_is_wanted(
    tree: Tree,
    target: Target,
    max_depth: usize,
    dir: Seq<char>,
    depth: usize,
    c: CandidateView,
)
    requires
        found_under(tree, target, max_depth, dir, depth).contains(c),
    ensures
        wanted_file(target, c.path),
        offered(tree, target, c.path) == Some(c),
    decreases max_depth - depth,
{
    lemma_found_member(tree, target, max_depth, dir, depth, c);
    lemma_found_in_member(tree, target, dir, c);
    if !found_in(tree, target, dir).contains(c) {
        let entries = tree.entries(dir);
        let i = choose|i: int|
            0 <= i < entries.len() && (#[trigger] entries[i]).is_dir && !skipped_dir(
                entries[i].path,
            ) && found_under(
                tree,
                target,
                max_depth,
                entries[i].path,
                (depth + 1) as usize,
            ).contains(c);
        lemma_found_is_wanted(tree, target, max_depth, entries[i].path, (depth + 1) as usize, c);
    }
}

/// True when every entry that a directory lists in one tree it lists in
/// the other, and the files of both are the same.
pub open spec fn lists_within(a: Tree, b: Tree) -> bool {
    a.files == b.files && forall|dir: Seq<char>, i: int|
        0 <= i < a.entries(dir).len() ==> b.entries(dir).contains(#[trigger] a.entries(dir)[i])
}

/// What is found in a tree is found in every tree that lists the same
/// entries and more.
pub proof fn lemma_found_carries_over(
    a: Tree,
    b: Tree,
    target: Target,
    max_depth: usize,
    dir: Seq<char>,
    depth: usize,
    c: CandidateView,
)
    requires
        lists_within(a, b),
        found_under(a, target, max_depth, dir, depth).contains(c),
    ensures
        found_under(b, target, max_depth, dir, depth).contains(c),
    decreases max_depth - depth,
{
    lemma_found_member(a, target, max_depth, dir, depth, c);
    lemma_found_member(b, target, max_depth, dir, depth, c);
    lemma_found_in_member(a, target, dir, c);
    lemma_found_in_member(b, target, dir, c);
    let ea = a.entries(dir);
    let eb = b.entries(dir);
    if found_in(a, target, dir).contains(c) {
        let i = choose|i: int|
            0 <= i < ea.len() && !(#[trigger] ea[i]).is_dir && wanted_file(target, ea[i].path)
                && offered(a, target, ea[i].path) == Some(c);
        assert(eb.contains(ea[i]));
        let j = choose|j: int| 0 <= j < eb.len() && eb[j] == ea[i];
        assert(!eb[j].is_dir && wanted_file(target, eb[j].path) && offered(b, target, eb[j].path)
            == Some(c));
    } else {
        let next = (depth + 1) as usize;
        let i = choose|i: int|
            0 <= i < ea.len() && (#[trigger] ea[i]).is_dir && !skipped_dir(ea[i].path)
                && found_under(a, target, max_depth, ea[i].path, next).contains(c);
        lemma_found_carries_over(a, b, target, max_depth, ea[i].path, next, c);
        assert(eb.contains(ea[i]));
        let j = choose|j: int| 0 <= j < eb.len() && eb[j] == ea[i];
        assert(eb[j].is_dir && !skipped_dir(eb[j].path) && found_under(
            b,
            target,
            max_depth,
            eb[j].path,
            next,
        ).contains(c));
    }
}

/// Lists that hold the same candidates, no two of them for different paths
/// with the same time, have the same candidate chosen, whatever their
/// order.
pub proof fn lemma_choice_by_time(a: Seq<CandidateView>, b: Seq<CandidateView>)
    requires
        forall|c: CandidateView| a.contains(c) <==> b.contains(c),
        forall|i: int, j: int|
            0 <= i < a.len() && 0 <= j < a.len() && (#[trigger] a[i]).modified == (
            #[trigger] a[j]).modified ==> a[i].path == a[j].path,
    ensures
        most_recent(a) == most_recent(b),
{
    if a.len() == 0 {
        if b.len() > 0 {
            assert(b.contains(b[0]));
        }
    } else {
        assert(a.contains(a[0]));
        lemma_newest(a);
        lemma_newest(b);
        let i = newest(a);
        let j = newest(b);
        assert(a.contains(a[i]));
        let k = choose|k: int| 0 <= k < b.len() && b[k] == a[i];
        assert(b.contains(b[j]));
        let l = choose|l: int| 0 <= l < a.len() && a[l] == b[j];
        assert(b[k].modified <= b[j].modified);
        assert(a[l].modified <= a[i].modified);
    }
}

/// What a scan selects is a candidate that it finds, modified no earlier
/// than any other; it selects nothing only where it finds nothing.
pub proof fn lemma_scan_selects_latest(
    tree: Tree,
    target: Target,
    root: Seq<char>,
    max_depth: usize,
)
    ensures
        match scan_result(tree, target, root, max_depth) {
            Some(path) => exists|c: CandidateView|
                (#[trigger] found_under(tree, target, max_depth, root, 0).contains(c)) && c.path
                    == path && forall|d: CandidateView|
                    (#[trigger] found_under(tree, target, max_depth, root, 0).contains(d))
                        ==> d.modified <= c.modified,
            None => found_under(tree, target, max_depth, root, 0).len() == 0,
        },
{
    let found = found_under(tree, target, max_depth, root, 0);
    if found.len() > 0 {
        lemma_newest(found);
        let c = found[newest(found)];
        assert(found.contains(c));
        assert forall|d: CandidateView| (#[trigger] found.contains(d)) implies d.modified
            <= c.modified by {
            let k = choose|k: int| 0 <= k < found.len() && found[k] == d;
        }
    }
}

/// Of two candidate files in the scanned directories the one that was
/// modified later is selected, wherever the two lie and in whatever order
/// they are found.
pub proof fn lemma_later_file_is_selected(
    tree: Tree,
    target: Target,
    root: Seq<char>,
    max_depth: usize,
    earlier: CandidateView,
    later: CandidateView,
)
    requires
        found_under(tree, target, max_depth, root, 0).contains(earlier),
        found_under(tree, target, max_depth, root, 0).contains(later),
        forall|c: CandidateView|
            (#[trigger] found_under(tree, target, max_depth, root, 0).contains(c)) ==> c == earlier
                || c == later,
        earlier.modified < later.modified,
    ensures
        scan_result(tree, target, root, max_depth) == Some(later.path),
{
    lemma_scan_selects_latest(tree, target, root, max_depth);
}

/// The order in which directories list their entries changes nothing:
/// two trees with the same files whose directories list the same entries
/// have the same file selected, where no two files were modified at the
/// same time.
pub proof fn lemma_listing_order_changes_nothing(
    a: Tree,
    b: Tree,
    target: Target,
    root: Seq<char>,
    max_depth: usize,
)
    requires
        lists_within(a, b),
        lists_within(b, a),
        forall|p: Seq<char>, q: Seq<char>|
            a.files.dom().contains(p) && a.files.dom().contains(q) && (#[trigger] a.files[p]).1 == (
            #[trigger] a.files[q]).1 ==> p == q,
    ensures
        scan_result(a, target, root, max_depth) == scan_result(b, target, root, max_depth),
{
    let fa = found_under(a, target, max_depth, root, 0);
    let fb = found_under(b, target, max_depth, root, 0);
    assert forall|c: CandidateView| fa.contains(c) <==> fb.contains(c) by {
        if fa.contains(c) {
            lemma_found_carries_over(a, b, target, max_depth, root, 0, c);
        }
        if fb.contains(c) {
            lemma_found_carries_over(b, a, target, max_depth, root, 0, c);
        }
    }
    assert forall|i: int, j: int|
        0 <= i < fa.len() && 0 <= j < fa.len() && (#[trigger] fa[i]).modified == (
        #[trigger] fa[j]).modified implies fa[i].path == fa[j].path by {
        assert(fa.contains(fa[i]));
        assert(fa.contains(fa[j]));
        lemma_found_is_wanted(a, target, max_depth, root, 0, fa[i]);
        lemma_found_is_wanted(a, target, max_depth, root, 0, fa[j]);
        assert(a.files[fa[i].path].1 == fa[i].modified);
        assert(a.files[fa[j].path].1 == fa[j].modified);
    }
    lemma_choice_by_time(fa, fb);
}

} // verus!
