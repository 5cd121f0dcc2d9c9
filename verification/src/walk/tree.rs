//! What a deep walk finds when the directories it asks for are read from a
//! tree that does not change: every proto source that it should, once each.

use vstd::prelude::*;
use vstd::multiset::Multiset;
use vstd::seq_lib::{group_to_multiset_ensures, lemma_multiset_commutative};
use crate::text::texts;
use crate::walk::deep::{step, Progress, WalkerState};
use crate::walk::directory::{is_proto_name, DirEntry, DirEvent, Directory, FileKind};
use crate::walk::{page_at, paging_step, PageOutcome, PagingState};

verus! {

/// An entry together with what lies below it: for a directory its entries in
/// the order in which they are read, for anything else nothing that counts.
pub struct Tree {
    /// The entry itself.
    pub entry: DirEntry,
    /// The entries of the directory.
    pub children: Seq<Tree>,
}

/// What comes back when the directory `tree` is asked for an entry after
/// `cursor` of them have been read.
pub open spec fn event_at(tree: Tree, cursor: nat) -> DirEvent {
    if cursor < tree.children.len() {
        DirEvent::Entry(tree.children[cursor as int].entry)
    } else {
        DirEvent::End
    }
}

/// Whether a walk goes into `node`: it is a directory and not excluded.
pub open spec fn enters(node: Tree, exclude: Set<Seq<char>>) -> bool {
    node.entry.kind == FileKind::Dir && !exclude.contains(node.entry.path@)
}

/// Whether a walk yields `node`: it is a regular file named `*.proto` and not
/// excluded.
pub open spec fn emits(node: Tree, exclude: Set<Seq<char>>) -> bool {
    node.entry.kind == FileKind::File && is_proto_name(node.entry.file_name)
        && !exclude.contains(node.entry.path@)
}

/// The proto sources that a walk is to find among `children` from position
/// `from` on, and below the directories among them that it goes into.
pub open spec fn found_from(children: Seq<Tree>, from: nat, exclude: Set<Seq<char>>) -> Multiset<
    Seq<char>,
>
    decreases children, children.len() - from,
{
    if from >= children.len() {
        Multiset::empty()
    } else {
        let node = children[from as int];
        let own = if emits(node, exclude) {
            Multiset::singleton(node.entry.path@)
        } else if enters(node, exclude) {
            found_from(node.children, 0, exclude)
        } else {
            Multiset::empty()
        };
        own.add(found_from(children, from + 1, exclude))
    }
}

/// The proto sources that a walk below the directory `tree` is to find.
pub open spec fn found(tree: Tree, exclude: Set<Seq<char>>) -> Multiset<Seq<char>> {
    found_from(tree.children, 0, exclude)
}

/// The state of a walk that has the directories `trees` still to exhaust and
/// has read `cursor` entries of the first.
pub open spec fn state_of(trees: Seq<Tree>, cursor: nat, exclude: Set<Seq<char>>) -> WalkerState {
    WalkerState {
        pending: Seq::new(
            trees.len(),
            |i: int| Directory { path: trees[i].entry.path, opened: i == 0 && cursor > 0 },
        ),
        exclude,
    }
}

/// The directories still to exhaust after one more step.
pub open spec fn trees_after(trees: Seq<Tree>, cursor: nat, exclude: Set<Seq<char>>) -> Seq<Tree> {
    if cursor >= trees[0].children.len() {
        trees.update(0, trees.last()).drop_last()
    } else if enters(trees[0].children[cursor as int], exclude) {
        trees.push(trees[0].children[cursor as int])
    } else {
        trees
    }
}

/// The number of entries read of the first directory after one more step.
pub open spec fn cursor_after(trees: Seq<Tree>, cursor: nat) -> nat {
    if cursor >= trees[0].children.len() {
        0
    } else {
        cursor + 1
    }
}

/// What one more step hands on.
pub open spec fn handed(trees: Seq<Tree>, cursor: nat, exclude: Set<Seq<char>>) -> Progress {
    if cursor < trees[0].children.len() && emits(trees[0].children[cursor as int], exclude) {
        Progress::Yielded(trees[0].children[cursor as int].entry.path)
    } else {
        Progress::Pending
    }
}

/// A walk that is fed from a tree moves through it as `trees_after`,
/// `cursor_after` and `handed` say.
pub proof fn lemma_step_follows_tree(trees: Seq<Tree>, cursor: nat, exclude: Set<Seq<char>>)
    requires
        trees.len() > 0,
    ensures
        step(state_of(trees, cursor, exclude), event_at(trees[0], cursor)) == (
            state_of(trees_after(trees, cursor, exclude), cursor_after(trees, cursor), exclude),
            handed(trees, cursor, exclude),
        ),
{
    let before = state_of(trees, cursor, exclude);
    let event = event_at(trees[0], cursor);
    let got = step(before, event);
    let want = state_of(trees_after(trees, cursor, exclude), cursor_after(trees, cursor), exclude);
    assert(got.0.pending =~= want.pending);
}


/// The steps that a walk spends on `children` from position `from` on and on
/// everything below them, counting one for the end of the listing.
pub open spec fn weight_from(children: Seq<Tree>, from: nat) -> nat
    decreases children, children.len() - from,
{
    if from >= children.len() {
        1
    } else {
        1 + weight_from(children[from as int].children, 0) + weight_from(children, from + 1)
    }
}

/// The steps that the directories `trees` take together, each from its
/// first entry.
pub open spec fn weight_of(trees: Seq<Tree>) -> nat
    decreases trees.len(),
{
    if trees.len() == 0 {
        0
    } else {
        weight_of(trees.drop_last()) + weight_from(trees.last().children, 0)
    }
}

/// The steps that are left to a walk with the directories `trees` to exhaust,
/// `cursor` entries of the first being read.
pub open spec fn work(trees: Seq<Tree>, cursor: nat) -> int {
    if trees.len() == 0 {
        0
    } else {
        weight_of(trees) - weight_from(trees[0].children, 0) + weight_from(
            trees[0].children,
            cursor,
        )
    }
}

proof fn lemma_weight_positive(children: Seq<Tree>, from: nat)
    ensures
        weight_from(children, from) >= 1,
    decreases children, children.len() - from,
{
    if from < children.len() {
        lemma_weight_positive(children, from + 1);
    }
}

proof fn lemma_weight_replace_first(trees: Seq<Tree>, node: Tree)
    requires
        trees.len() > 0,
    ensures
        weight_of(trees.update(0, node)) + weight_from(trees[0].children, 0) == weight_of(trees)
            + weight_from(node.children, 0),
    decreases trees.len(),
{
    let changed = trees.update(0, node);
    if trees.len() == 1 {
        assert(changed.drop_last() =~= Seq::<Tree>::empty());
        assert(trees.drop_last() =~= Seq::<Tree>::empty());
    } else {
        assert(changed.drop_last() =~= trees.drop_last().update(0, node));
        lemma_weight_replace_first(trees.drop_last(), node);
    }
}

proof fn lemma_weight_at_least_first(trees: Seq<Tree>)
    requires
        trees.len() > 0,
    ensures
        weight_of(trees) >= weight_from(trees[0].children, 0),
    decreases trees.len(),
{
    if trees.len() > 1 {
        lemma_weight_at_least_first(trees.drop_last());
    } else {
        assert(trees.drop_last() =~= Seq::<Tree>::empty());
    }
}

/// Every step of a walk that is fed from a tree leaves less work behind.
pub proof fn lemma_work_decreases(trees: Seq<Tree>, cursor: nat, exclude: Set<Seq<char>>)
    requires
        trees.len() > 0,
    ensures
        0 <= work(trees_after(trees, cursor, exclude), cursor_after(trees, cursor)) < work(
            trees,
            cursor,
        ),
{
    let next = trees_after(trees, cursor, exclude);
    lemma_weight_at_least_first(trees);
    lemma_weight_positive(trees[0].children, cursor);
    if cursor >= trees[0].children.len() {
        lemma_weight_replace_first(trees, trees.last());
        let swapped = trees.update(0, trees.last());
        assert(next == swapped.drop_last());
        if trees.len() > 1 {
            assert(swapped.last() == trees.last());
            lemma_weight_at_least_first(next);
        } else {
            assert(next =~= Seq::<Tree>::empty());
        }
    } else {
        let node = trees[0].children[cursor as int];
        lemma_weight_positive(trees[0].children, cursor + 1);
        lemma_weight_positive(node.children, 0);
        if enters(node, exclude) {
            assert(next.drop_last() =~= trees);
        }
        lemma_weight_at_least_first(next);
    }
}

/// The paths that a walk yields, in the order in which it yields them, when it
/// has the directories `trees` to exhaust, has read `cursor` entries of the
/// first, and is fed from them until it is over.
pub open spec fn yields(trees: Seq<Tree>, cursor: nat, exclude: Set<Seq<char>>) -> Seq<String>
    decreases work(trees, cursor),
    via yields_decreases
{
    if trees.len() == 0 {
        Seq::empty()
    } else {
        let rest = yields(
            trees_after(trees, cursor, exclude),
            cursor_after(trees, cursor),
            exclude,
        );
        match handed(trees, cursor, exclude) {
            Progress::Yielded(path) => seq![path] + rest,
            _ => rest,
        }
    }
}

#[via_fn]
proof fn yields_decreases(trees: Seq<Tree>, cursor: nat, exclude: Set<Seq<char>>) {
    if trees.len() > 0 {
        lemma_work_decreases(trees, cursor, exclude);
    }
}


/// The proto sources that a walk is to find below the directories of `trees`
/// from position `from` on.
pub open spec fn found_below(trees: Seq<Tree>, from: nat, exclude: Set<Seq<char>>) -> Multiset<
    Seq<char>,
>
    decreases trees.len() - from,
{
    if from >= trees.len() {
        Multiset::empty()
    } else {
        found(trees[from as int], exclude).add(found_below(trees, from + 1, exclude))
    }
}

/// The proto sources that a walk has yet to find when it has the directories
/// `trees` to exhaust and has read `cursor` entries of the first.
pub open spec fn owed(trees: Seq<Tree>, cursor: nat, exclude: Set<Seq<char>>) -> Multiset<
    Seq<char>,
> {
    if trees.len() == 0 {
        Multiset::empty()
    } else {
        found_from(trees[0].children, cursor, exclude).add(found_below(trees, 1, exclude))
    }
}

proof fn lemma_found_below_push(trees: Seq<Tree>, node: Tree, from: nat, exclude: Set<Seq<char>>)
    requires
        from <= trees.len(),
    ensures
        found_below(trees.push(node), from, exclude) =~= found_below(trees, from, exclude).add(
            found(node, exclude),
        ),
    decreases trees.len() - from,
{
    let longer = trees.push(node);
    if from < trees.len() {
        lemma_found_below_push(trees, node, from + 1, exclude);
        assert(longer[from as int] == trees[from as int]);
    } else {
        assert(found_below(longer, from + 1, exclude) =~= Multiset::empty());
    }
}

proof fn lemma_found_below_same_tail(a: Seq<Tree>, b: Seq<Tree>, from: nat, exclude: Set<Seq<char>>)
    requires
        a.len() == b.len(),
        forall|i: int| from <= i < a.len() ==> a[i] == b[i],
    ensures
        found_below(a, from, exclude) == found_below(b, from, exclude),
    decreases a.len() - from,
{
    if from < a.len() {
        lemma_found_below_same_tail(a, b, from + 1, exclude);
    }
}

/// A walk that is fed from a tree yields what it owes: each proto source that
/// is neither excluded nor below an excluded directory, as often as the tree
/// holds it.
pub proof fn lemma_yields_owed(trees: Seq<Tree>, cursor: nat, exclude: Set<Seq<char>>)
    ensures
        texts(yields(trees, cursor, exclude)).to_multiset() =~= owed(trees, cursor, exclude),
    decreases work(trees, cursor),
{
    broadcast use group_to_multiset_ensures;

    if trees.len() == 0 {
        assert(texts(yields(trees, cursor, exclude)) =~= Seq::<Seq<char>>::empty());
    } else {
        let next = trees_after(trees, cursor, exclude);
        let rest = yields(next, cursor_after(trees, cursor), exclude);
        lemma_work_decreases(trees, cursor, exclude);
        lemma_yields_owed(next, cursor_after(trees, cursor), exclude);
        if cursor >= trees[0].children.len() {
            if trees.len() > 1 {
                let front = trees.drop_last();
                lemma_found_below_same_tail(next, front, 1, exclude);
                lemma_found_below_push(front, trees.last(), 1, exclude);
                assert(front.push(trees.last()) =~= trees);
                assert(next[0] == trees.last());
            } else {
                assert(next =~= Seq::<Tree>::empty());
            }
        } else {
            let node = trees[0].children[cursor as int];
            if emits(node, exclude) {
                let path = node.entry.path@;
                assert(texts(seq![node.entry.path] + rest) =~= seq![path] + texts(rest));
                lemma_multiset_commutative(seq![path], texts(rest));
                assert(seq![path] =~= Seq::<Seq<char>>::empty().push(path));
                assert(seq![path].to_multiset() =~= Multiset::singleton(path));
            } else if enters(node, exclude) {
                lemma_found_below_push(trees, node, 1, exclude);
            }
        }
    }
}

/// A complete walk below the directory `root` yields every proto source
/// below it that is neither excluded nor below an excluded directory, each
/// exactly as often as the tree holds it, and nothing else.
pub proof fn lemma_walk_finds_all(root: Tree, exclude: Set<Seq<char>>)
    ensures
        texts(yields(seq![root], 0, exclude)).to_multiset() == found(root, exclude),
{
    lemma_yields_owed(seq![root], 0, exclude);
    assert(found_below(seq![root], 1, exclude) =~= Multiset::empty());
}

/// Nothing that a walk is to find is excluded.
pub proof fn lemma_found_not_excluded(
    children: Seq<Tree>,
    from: nat,
    exclude: Set<Seq<char>>,
    path: Seq<char>,
)
    requires
        found_from(children, from, exclude).count(path) > 0,
    ensures
        !exclude.contains(path),
    decreases children, children.len() - from,
{
    if from < children.len() {
        let node = children[from as int];
        if found_from(children, from + 1, exclude).count(path) > 0 {
            lemma_found_not_excluded(children, from + 1, exclude, path);
        } else if emits(node, exclude) {
        } else if enters(node, exclude) {
            lemma_found_not_excluded(node.children, 0, exclude, path);
        }
    }
}


/// A complete walk yields no path that is excluded.
pub proof fn lemma_walk_yields_nothing_excluded(
    root: Tree,
    exclude: Set<Seq<char>>,
    path: Seq<char>,
)
    requires
        texts(yields(seq![root], 0, exclude)).contains(path),
    ensures
        !exclude.contains(path),
{
    broadcast use group_to_multiset_ensures;

    lemma_walk_finds_all(root, exclude);
    lemma_found_not_excluded(root.children, 0, exclude, path);
}

/// The paths of the entries among `children` from position `from` on and of
/// everything below them.
pub open spec fn paths_from(children: Seq<Tree>, from: nat) -> Multiset<Seq<char>>
    decreases children, children.len() - from,
{
    if from >= children.len() {
        Multiset::empty()
    } else {
        Multiset::singleton(children[from as int].entry.path@).add(
            paths_from(children[from as int].children, 0),
        ).add(paths_from(children, from + 1))
    }
}

/// A walk is to find a path no more often than the tree holds it.
pub proof fn lemma_found_within(
    children: Seq<Tree>,
    from: nat,
    exclude: Set<Seq<char>>,
    path: Seq<char>,
)
    ensures
        found_from(children, from, exclude).count(path) <= paths_from(children, from).count(path),
    decreases children, children.len() - from,
{
    if from < children.len() {
        lemma_found_within(children, from + 1, exclude, path);
        lemma_found_within(children[from as int].children, 0, exclude, path);
    }
}

/// Over a tree in which no two entries have the same path, a complete walk
/// yields no path twice: every proto source that it is to find, exactly once.
pub proof fn lemma_walk_yields_once(root: Tree, exclude: Set<Seq<char>>)
    requires
        forall|path: Seq<char>| paths_from(root.children, 0).count(path) <= 1,
    ensures
        texts(yields(seq![root], 0, exclude)).no_duplicates(),
        forall|path: Seq<char>|
            texts(yields(seq![root], 0, exclude)).contains(path) <==> found(root, exclude).count(
                path,
            ) > 0,
{
    broadcast use group_to_multiset_ensures;

    let out = texts(yields(seq![root], 0, exclude));
    lemma_walk_finds_all(root, exclude);
    assert forall|path: Seq<char>| out.to_multiset().contains(path) implies out.to_multiset().count(
        path,
    ) == 1 by {
        lemma_found_within(root.children, 0, exclude, path);
    }
    out.lemma_multiset_has_no_duplicates_conv();
}

/// The pages that a paging walk hands out, in order, when it is fed from the
/// directory `root` after `cursor` of its entries have been read.
pub open spec fn pages(state: PagingState, root: Tree, cursor: nat) -> Seq<WalkerState>
    decreases root.children.len() - cursor,
{
    if cursor >= root.children.len() {
        Seq::empty()
    } else {
        let stepped = paging_step(state, event_at(root, cursor));
        let rest = pages(stepped.0, root, cursor + 1);
        match stepped.1 {
            PageOutcome::Page(page) => seq![page] + rest,
            _ => rest,
        }
    }
}

/// The directories among `children` from position `from` on, in order.
pub open spec fn subdirectories(children: Seq<Tree>, from: nat) -> Seq<Tree>
    decreases children.len() - from,
{
    if from >= children.len() {
        Seq::empty()
    } else if children[from as int].entry.kind == FileKind::Dir {
        seq![children[from as int]] + subdirectories(children, from + 1)
    } else {
        subdirectories(children, from + 1)
    }
}

/// The pages of a paging walk are exactly the directories directly below its
/// root, in the order in which they are read: one deep walk for each, which
/// begins at that directory with the paging walk's exclude set.
pub proof fn lemma_pages_are_subdirectories(state: PagingState, root: Tree, cursor: nat)
    ensures
        pages(state, root, cursor) == subdirectories(root.children, cursor).map_values(
            |page: Tree| page_at(page.entry.path, state.exclude),
        ),
    decreases root.children.len() - cursor,
{
    let open_page = |page: Tree| page_at(page.entry.path, state.exclude);
    if cursor < root.children.len() {
        let stepped = paging_step(state, event_at(root, cursor));
        lemma_pages_are_subdirectories(stepped.0, root, cursor + 1);
        assert(stepped.0.exclude == state.exclude);
        let rest = subdirectories(root.children, cursor + 1);
        let node = root.children[cursor as int];
        if node.entry.kind == FileKind::Dir {
            assert((seq![node] + rest).map_values(open_page) =~= seq![open_page(node)]
                + rest.map_values(open_page));
        }
    } else {
        assert(subdirectories(root.children, cursor).map_values(open_page) =~= Seq::<
            WalkerState,
        >::empty());
    }
}

/// What `subdirectories` holds: the entries that are directories, and no
/// other.
pub proof fn lemma_subdirectories_exact(children: Seq<Tree>, from: nat, node: Tree)
    ensures
        subdirectories(children, from).contains(node) <==> exists|i: int|
            from <= i < children.len() && #[trigger] children[i] == node && node.entry.kind
                == FileKind::Dir,
    decreases children.len() - from,
{
    if from < children.len() {
        lemma_subdirectories_exact(children, from + 1, node);
        let rest = subdirectories(children, from + 1);
        let head = children[from as int];
        if head.entry.kind == FileKind::Dir {
            let all = seq![head] + rest;
            if all.contains(node) {
                let k = choose|k: int| 0 <= k < all.len() && all[k] == node;
                if k > 0 {
                    assert(rest[k - 1] == node);
                }
            }
            if head == node {
                assert(all[0] == node);
            }
            if rest.contains(node) {
                let k = choose|k: int| 0 <= k < rest.len() && rest[k] == node;
                assert(all[k + 1] == node);
            }
        }
    }
}

/// Two paging walks with the same exclude set hand out the same pages when
/// they are fed from the same root, whether either is a fresh walk or one
/// that was begun anew.
pub proof fn lemma_traversals_agree(a: PagingState, b: PagingState, root: Tree)
    requires
        a.exclude == b.exclude,
    ensures
        pages(a, root, 0) == pages(b, root, 0),
{
    lemma_pages_are_subdirectories(a, root, 0);
    lemma_pages_are_subdirectories(b, root, 0);
}

/// A deep walk begins in the state of a walk that has the directory it was
/// made for to exhaust and has read nothing of it.
pub proof fn lemma_walk_begins(root: Tree, exclude: Set<Seq<char>>)
    ensures
        page_at(root.entry.path, exclude) == state_of(seq![root], 0, exclude),
{
    assert(page_at(root.entry.path, exclude).pending =~= state_of(
        seq![root],
        0,
        exclude,
    ).pending);
}

/// Two deep walks that begin at the same directory with the same exclude
/// set, fed from the same tree, are in the same state and yield the same
/// paths in the same order, and the paths that the tree holds for them.
pub proof fn lemma_walks_agree(a: WalkerState, b: WalkerState, root: Tree)
    requires
        a == page_at(root.entry.path, a.exclude),
        b == page_at(root.entry.path, b.exclude),
        a.exclude == b.exclude,
    ensures
        a == b,
        a == state_of(seq![root], 0, a.exclude),
        yields(seq![root], 0, a.exclude) == yields(seq![root], 0, b.exclude),
        texts(yields(seq![root], 0, a.exclude)).to_multiset() == found(root, b.exclude),
{
    lemma_walk_begins(root, a.exclude);
    lemma_walk_finds_all(root, a.exclude);
}

} // verus!
