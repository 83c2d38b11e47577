//! Listing the files of a directory, with or without its subdirectories. The
//! library decides what is a result and which directory is read next; the
//! caller reads the directories.

use vstd::prelude::*;
use crate::text::texts;

verus! {

/// One entry of a directory, as the system listed it.
#[derive(Debug, PartialEq, Eq)]
pub struct DirEntry {
    /// The entry's full path.
    pub path: String,
    /// Whether the entry is a directory.
    pub is_dir: bool,
}

/// The model of a `DirEntry`.
pub struct EntryModel {
    pub path: Seq<char>,
    pub is_dir: bool,
}

impl View for DirEntry {
    type V = EntryModel;

    open spec fn view(&self) -> EntryModel {
        EntryModel { path: self.path@, is_dir: self.is_dir }
    }
}

/// The models of a sequence of entries.
pub open spec fn entry_models(entries: Seq<DirEntry>) -> Seq<EntryModel> {
    entries.map_values(|e: DirEntry| e@)
}

/// What the caller does next.
#[derive(Debug, PartialEq, Eq)]
pub enum WalkStep {
    /// Read this directory and hand its entries to `enter`.
    ReadDir(String),
    /// Nothing is left to read: the files are complete.
    Done,
}

/// The paths of the entries that are files, in order.
pub open spec fn file_paths(entries: Seq<EntryModel>) -> Seq<Seq<char>>
    decreases entries.len(),
{
    if entries.len() == 0 {
        Seq::empty()
    } else if entries.last().is_dir {
        file_paths(entries.drop_last())
    } else {
        file_paths(entries.drop_last()).push(entries.last().path)
    }
}

/// The place of the first entry that is read as a directory: the first
/// directory of a recursive walk. Where there is none, and in a walk that is
/// not recursive, it is the number of entries.
pub open spec fn descent(recursive: bool, entries: Seq<EntryModel>) -> int
    decreases entries.len(),
{
    if entries.len() == 0 {
        0
    } else if recursive && entries[0].is_dir {
        0
    } else {
        1 + descent(recursive, entries.drop_first())
    }
}

/// The place `k` is the descent of `entries` when no entry before it is read
/// as a directory and the entry at `k`, if there is one, is.
pub proof fn lemma_descent_at(recursive: bool, entries: Seq<EntryModel>, k: int)
    requires
        0 <= k <= entries.len(),
        forall|i: int| 0 <= i < k ==> !(recursive && (#[trigger] entries[i]).is_dir),
        k < entries.len() ==> recursive && entries[k].is_dir,
    ensures
        descent(recursive, entries) == k,
    decreases entries.len(),
{
    if k > 0 {
        let rest = entries.drop_first();
        assert forall|i: int| 0 <= i < k - 1 implies !(recursive && (#[trigger] rest[i]).is_dir) by {
            assert(rest[i] == entries[i + 1]);
        }
        lemma_descent_at(recursive, rest, k - 1);
    }
}

/// A walk over a directory and, if it is recursive, over everything below
/// it, depth first. It holds the entries that are still to be looked at, in
/// the order in which they will be, and the files found so far.
pub struct FileWalk {
    recursive: bool,
    agenda: Vec<DirEntry>,
    files: Vec<String>,
}

impl FileWalk {
    /// Whether subdirectories are read too.
    pub closed spec fn recursive(&self) -> bool {
        self.recursive
    }

    /// The entries that are still to be looked at, the next one first.
    pub closed spec fn pending(&self) -> Seq<EntryModel> {
        Seq::new(
            self.agenda@.len(),
            |i: int| self.agenda@[self.agenda@.len() - 1 - i]@,
        )
    }

    /// The files found so far.
    pub closed spec fn found(&self) -> Seq<Seq<char>> {
        texts(self.files@)
    }

    /// A walk that has looked at nothing yet. The caller reads the directory
    /// that is to be listed and hands its entries to `enter`.
    pub fn new(recursive: bool) -> (walk: FileWalk)
        ensures
            walk.recursive() == recursive,
            walk.pending() == Seq::<EntryModel>::empty(),
            walk.found() == Seq::<Seq<char>>::empty(),
    {
        let walk = FileWalk { recursive, agenda: Vec::new(), files: Vec::new() };
        assert(walk.pending() =~= Seq::<EntryModel>::empty());
        assert(walk.found() =~= Seq::<Seq<char>>::empty());
        walk
    }

    /// Takes the entries of the directory that was read last and goes on.
    /// The entries are looked at before everything that was pending. Every
    /// file up to the next directory to read is a result; a directory is
    /// read only in a recursive walk, and otherwise passed over.
    pub fn enter(&mut self, listing: Vec<DirEntry>) -> (step: WalkStep)
        ensures
            final(self).recursive() == old(self).recursive(),
            ({
                let all = entry_models(listing@) + old(self).pending();
                let k = descent(old(self).recursive(), all);
                &&& 0 <= k <= all.len()
                &&& final(self).found() == old(self).found() + file_paths(all.take(k))
                &&& if k < all.len() {
                    &&& step matches WalkStep::ReadDir(path)
                    &&& path@ == all[k].path
                    &&& final(self).pending() == all.skip(k + 1)
                } else {
                    &&& step is Done
                    &&& final(self).pending() == Seq::<EntryModel>::empty()
                }
            }),
    {
        let ghost all = entry_models(listing@) + old(self).pending();
        let ghost found0 = old(self).found();
        let recursive = self.recursive;
        let mut rest = listing;
        while rest.len() > 0
            invariant
                self.recursive == recursive,
                self.found() == found0,
                entry_models(rest@) + self.pending() == all,
            decreases rest.len(),
        {
            let ghost before = entry_models(rest@);
            let ghost pending = self.pending();
            let entry = rest.pop().unwrap();
            self.agenda.push(entry);
            assert(entry_models(rest@) + self.pending() =~= before + pending);
        }
        assert(self.pending() =~= all);
        let total = self.agenda.len();
        assert(all.len() == total);
        let mut taken: usize = 0;
        while self.agenda.len() > 0
            invariant
                self.recursive == recursive,
                0 <= taken <= all.len() <= usize::MAX,
                recursive == old(self).recursive(),
                all == entry_models(listing@) + old(self).pending(),
                found0 == old(self).found(),
                self.pending() == all.skip(taken as int),
                self.found() == found0 + file_paths(all.take(taken as int)),
                forall|i: int| 0 <= i < taken ==> !(recursive && (#[trigger] all[i]).is_dir),
            decreases self.agenda.len(),
        {
            let ghost pending = self.pending();
            let ghost found = self.found();
            assert(pending.len() == self.agenda@.len());
            assert(taken < all.len());
            let entry = self.agenda.pop().unwrap();
            assert(entry@ == pending[0]);
            assert(entry@ == all[taken as int]);
            assert(self.pending() =~= pending.skip(1));
            assert(all.skip(taken as int).skip(1) =~= all.skip(taken + 1));
            if entry.is_dir && recursive {
                proof {
                    lemma_descent_at(recursive, all, taken as int);
                }
                return WalkStep::ReadDir(entry.path);
            }
            assert(all.take(taken + 1).drop_last() =~= all.take(taken as int));
            if !entry.is_dir {
                self.files.push(entry.path);
                assert(self.found() =~= found.push(entry@.path));
                assert(self.found() =~= found0 + file_paths(all.take(taken + 1)));
            }
            taken = taken + 1;
        }
        proof {
            assert(self.pending().len() == 0);
            lemma_descent_at(recursive, all, all.len() as int);
            assert(all.take(all.len() as int) =~= all);
            assert(self.pending() =~= Seq::<EntryModel>::empty());
        }
        WalkStep::Done
    }

    /// The files found, in the order in which they were found.
    pub fn into_files(self) -> (files: Vec<String>)
        ensures
            texts(files@) == self.found(),
    {
        self.files
    }
}

/// A directory tree: the model of what lies on disk below a directory.
pub enum Node {
    /// A file, with its path.
    File(Seq<char>),
    /// A directory, with its path and its entries in the order in which the
    /// system lists them.
    Dir(Seq<char>, Seq<Node>),
}

/// The entry under which a node is listed in its directory.
pub open spec fn entry_of(node: Node) -> EntryModel {
    match node {
        Node::File(path) => EntryModel { path, is_dir: false },
        Node::Dir(path, _) => EntryModel { path, is_dir: true },
    }
}

/// The listing of a directory that holds `nodes`.
pub open spec fn entries_of(nodes: Seq<Node>) -> Seq<EntryModel> {
    nodes.map_values(|n: Node| entry_of(n))
}

/// The files of a directory that holds `nodes`: each file's path at the place
/// of its entry and, in a recursive listing, the files of each subdirectory
/// at the place of the subdirectory's entry.
pub open spec fn tree_files(nodes: Seq<Node>, recursive: bool) -> Seq<Seq<char>>
    decreases nodes, 0nat,
{
    if nodes.len() == 0 {
        Seq::empty()
    } else {
        tree_files(nodes.drop_last(), recursive) + node_files(nodes.last(), recursive)
    }
}

/// The files that one node adds to a listing.
pub open spec fn node_files(node: Node, recursive: bool) -> Seq<Seq<char>>
    decreases node, 1nat,
{
    match node {
        Node::File(path) => seq![path],
        Node::Dir(_, children) => if recursive {
            tree_files(children, recursive)
        } else {
            Seq::empty()
        },
    }
}

/// The descent of a listing stands at or before its end; no entry before it
/// is read as a directory, and the entry at it, if there is one, is.
pub proof fn lemma_descent_found(recursive: bool, entries: Seq<EntryModel>)
    ensures
        0 <= descent(recursive, entries) <= entries.len(),
        forall|i: int|
            0 <= i < descent(recursive, entries) ==> !(recursive && (#[trigger] entries[i]).is_dir),
        descent(recursive, entries) < entries.len() ==> recursive && entries[descent(
            recursive,
            entries,
        )].is_dir,
    decreases entries.len(),
{
    if entries.len() > 0 && !(recursive && entries[0].is_dir) {
        let rest = entries.drop_first();
        lemma_descent_found(recursive, rest);
        assert forall|i: int| 0 <= i < descent(recursive, entries) implies !(recursive && (
        #[trigger] entries[i]).is_dir) by {
            if i > 0 {
                assert(entries[i] == rest[i - 1]);
            }
        }
    }
}

/// The files of two listings in a row are the files of the first and then
/// those of the second.
pub proof fn lemma_tree_files_concat(first: Seq<Node>, second: Seq<Node>, recursive: bool)
    ensures
        tree_files(first + second, recursive) == tree_files(first, recursive) + tree_files(
            second,
            recursive,
        ),
    decreases second.len(),
{
    if second.len() == 0 {
        assert(first + second =~= first);
        assert(tree_files(first, recursive) + tree_files(second, recursive) =~= tree_files(
            first,
            recursive,
        ));
    } else {
        lemma_tree_files_concat(first, second.drop_last(), recursive);
        assert((first + second).drop_last() =~= first + second.drop_last());
        assert((first + second).last() == second.last());
        assert(tree_files(first + second, recursive) =~= tree_files(first, recursive) + tree_files(
            second,
            recursive,
        ));
    }
}

/// Up to the first directory that is read, what a listing's entries give as
/// files is what the tree holds there.
proof fn lemma_files_before_descent(nodes: Seq<Node>, recursive: bool, k: int)
    requires
        0 <= k <= nodes.len(),
        forall|i: int| 0 <= i < k ==> !(recursive && (#[trigger] entries_of(nodes)[i]).is_dir),
    ensures
        file_paths(entries_of(nodes).take(k)) == tree_files(nodes.take(k), recursive),
    decreases k,
{
    let entries = entries_of(nodes);
    if k == 0 {
        assert(entries.take(0) =~= Seq::<EntryModel>::empty());
        assert(nodes.take(0) =~= Seq::<Node>::empty());
    } else {
        lemma_files_before_descent(nodes, recursive, k - 1);
        assert(entries.take(k).drop_last() =~= entries.take(k - 1));
        assert(nodes.take(k).drop_last() =~= nodes.take(k - 1));
        assert(entries.take(k).last() == entries[k - 1]);
        assert(nodes.take(k).last() == nodes[k - 1]);
        assert(entries[k - 1] == entry_of(nodes[k - 1]));
        assert(!(recursive && entries[k - 1].is_dir));
        assert(node_files(nodes[k - 1], recursive) =~= if entries[k - 1].is_dir {
            Seq::<Seq<char>>::empty()
        } else {
            seq![entries[k - 1].path]
        });
        assert(tree_files(nodes.take(k), recursive) == tree_files(nodes.take(k - 1), recursive)
            + node_files(nodes[k - 1], recursive));
        assert(file_paths(entries.take(k)) =~= tree_files(nodes.take(k), recursive));
    }
}

/// Each step of a walk keeps what the walk will have found in the end. Let
/// the walk stand with the nodes `pending` still to be looked at and `found`
/// found so far, so that in the end it owes `found` and then the files of
/// `pending`. One step looks at the entries up to the descent. If there is
/// no descent, the walk is done and has found exactly what it owed. If there
/// is one, it is a directory of a recursive walk; once its entries have been
/// put before the rest, the walk owes the same as before.
pub proof fn lemma_walk_keeps_result(pending: Seq<Node>, found: Seq<Seq<char>>, recursive: bool)
    ensures
        ({
            let entries = entries_of(pending);
            let k = descent(recursive, entries);
            let found_next = found + file_paths(entries.take(k));
            &&& 0 <= k <= pending.len()
            &&& k == pending.len() ==> found_next == found + tree_files(pending, recursive)
            &&& k < pending.len() ==> {
                &&& recursive
                &&& pending[k] matches Node::Dir(path, children)
                &&& path == entries[k].path
                &&& found_next + tree_files(children + pending.skip(k + 1), recursive) == found
                    + tree_files(pending, recursive)
            }
        }),
{
    let entries = entries_of(pending);
    let k = descent(recursive, entries);
    let found_next = found + file_paths(entries.take(k));
    lemma_descent_found(recursive, entries);
    lemma_files_before_descent(pending, recursive, k);
    if k == pending.len() {
        assert(pending.take(k) =~= pending);
    } else {
        assert(entries[k] == entry_of(pending[k]));
        match pending[k] {
            Node::Dir(path, children) => {
                let head = pending.take(k);
                let tail = pending.skip(k + 1);
                assert(pending =~= head.push(pending[k]) + tail);
                lemma_tree_files_concat(head.push(pending[k]), tail, recursive);
                assert(head.push(pending[k]).drop_last() =~= head);
                assert(head.push(pending[k]).last() == pending[k]);
                assert(tree_files(head.push(pending[k]), recursive) == tree_files(head, recursive)
                    + node_files(pending[k], recursive));
                assert(node_files(pending[k], recursive) == tree_files(children, recursive));
                lemma_tree_files_concat(children, tail, recursive);
                assert(found_next + tree_files(children + tail, recursive) =~= found + tree_files(
                    pending,
                    recursive,
                ));
            },
            Node::File(_) => {},
        }
    }
}

/// The files that lie inside the subdirectories of a directory that holds
/// `nodes`, at any depth, in the order in which a recursive listing names
/// them.
pub open spec fn nested_files(nodes: Seq<Node>) -> Seq<Seq<char>>
    decreases nodes.len(),
{
    if nodes.len() == 0 {
        Seq::empty()
    } else {
        nested_files(nodes.drop_last()) + match nodes.last() {
            Node::File(_) => Seq::empty(),
            Node::Dir(_, children) => tree_files(children, true),
        }
    }
}

/// A listing that is not recursive names exactly the directory's own files.
pub proof fn lemma_flat_listing(nodes: Seq<Node>)
    ensures
        tree_files(nodes, false) == file_paths(entries_of(nodes)),
{
    lemma_files_before_descent(nodes, false, nodes.len() as int);
    assert(nodes.take(nodes.len() as int) =~= nodes);
    assert(entries_of(nodes).take(nodes.len() as int) =~= entries_of(nodes));
}

/// The two listings of one tree. The recursive listing names what the flat
/// listing names and, besides, the files that lie inside subdirectories, each
/// as often as it lies there: the flat listing is contained in the recursive
/// one, and what the recursive one has more is exactly the nested files. The
/// two name the same files as often exactly when no subdirectory holds a file
/// at any depth.
pub proof fn lemma_recursive_adds_nested(nodes: Seq<Node>)
    ensures
        tree_files(nodes, true).to_multiset() == tree_files(nodes, false).to_multiset().add(
            nested_files(nodes).to_multiset(),
        ),
        tree_files(nodes, false).to_multiset().subset_of(tree_files(nodes, true).to_multiset()),
        tree_files(nodes, true).to_multiset().sub(tree_files(nodes, false).to_multiset())
            == nested_files(nodes).to_multiset(),
        tree_files(nodes, true).len() == tree_files(nodes, false).len() + nested_files(
            nodes,
        ).len(),
        tree_files(nodes, true).to_multiset() == tree_files(nodes, false).to_multiset()
            <==> nested_files(nodes).len() == 0,
    decreases nodes.len(),
{
    broadcast use vstd::multiset::group_multiset_axioms;
    broadcast use vstd::seq_lib::group_to_multiset_ensures;

    let deep = tree_files(nodes, true);
    let flat = tree_files(nodes, false);
    let nested = nested_files(nodes);
    if nodes.len() == 0 {
        assert(deep.to_multiset() =~= flat.to_multiset().add(nested.to_multiset()));
    } else {
        let init = nodes.drop_last();
        let last = nodes.last();
        lemma_recursive_adds_nested(init);
        let extra: Seq<Seq<char>> = match last {
            Node::File(_) => Seq::empty(),
            Node::Dir(_, children) => tree_files(children, true),
        };
        assert(node_files(last, true) =~= node_files(last, false) + extra);
        vstd::seq_lib::lemma_multiset_commutative(tree_files(init, true), node_files(last, true));
        vstd::seq_lib::lemma_multiset_commutative(tree_files(init, false), node_files(last, false));
        vstd::seq_lib::lemma_multiset_commutative(nested_files(init), extra);
        vstd::seq_lib::lemma_multiset_commutative(node_files(last, false), extra);
        assert(deep.to_multiset() =~= flat.to_multiset().add(nested.to_multiset()));
    }
    assert(deep.to_multiset().sub(flat.to_multiset()) =~= nested.to_multiset());
    assert(deep.len() == deep.to_multiset().len());
    assert(flat.len() == flat.to_multiset().len());
    assert(nested.len() == nested.to_multiset().len());
    if nested.len() == 0 {
        assert(nested =~= Seq::<Seq<char>>::empty());
        assert(deep.to_multiset() =~= flat.to_multiset());
    }
}

/// The two listings of one tree, as sets. In a tree no two files share a
/// path, so no nested file has the path of one of the directory's own files.
/// Then the flat and the recursive listing name the same set of files if and
/// only if no subdirectory holds a file at any depth.
pub proof fn lemma_listings_equal_as_sets(nodes: Seq<Node>)
    requires
        forall|path: Seq<char>|
            nested_files(nodes).contains(path) ==> !tree_files(nodes, false).contains(path),
    ensures
        tree_files(nodes, true).to_set() == tree_files(nodes, false).to_set() <==> nested_files(
            nodes,
        ).len() == 0,
        tree_files(nodes, false).to_set().subset_of(tree_files(nodes, true).to_set()),
{
    broadcast use vstd::multiset::group_multiset_axioms;
    broadcast use vstd::seq_lib::group_to_multiset_ensures;

    let deep = tree_files(nodes, true);
    let flat = tree_files(nodes, false);
    let nested = nested_files(nodes);
    lemma_recursive_adds_nested(nodes);
    assert forall|path: Seq<char>| flat.contains(path) implies deep.contains(path) by {
        assert(flat.to_multiset().count(path) > 0);
        assert(deep.to_multiset().count(path) > 0);
    }
    if nested.len() == 0 {
        assert forall|path: Seq<char>| deep.contains(path) implies flat.contains(path) by {
            assert(deep.to_multiset().count(path) > 0);
        }
        assert(deep.to_set() =~= flat.to_set());
    } else {
        let path = nested[0];
        assert(nested.contains(path));
        assert(nested.to_multiset().count(path) > 0);
        assert(deep.to_multiset().count(path) > 0);
        assert(deep.contains(path));
        assert(deep.to_set().contains(path));
        assert(!flat.to_set().contains(path));
    }
}

/// The number of nodes below a directory that holds `nodes`, at all depths.
pub open spec fn node_count(nodes: Seq<Node>) -> nat
    decreases nodes, 0nat,
{
    if nodes.len() == 0 {
        0
    } else {
        node_count(nodes.drop_last()) + node_weight(nodes.last())
    }
}

/// The number of nodes that one node stands for: itself and, for a
/// directory, all that lies below it.
pub open spec fn node_weight(node: Node) -> nat
    decreases node, 1nat,
{
    match node {
        Node::File(_) => 1,
        Node::Dir(_, children) => 1 + node_count(children),
    }
}

/// Two listings in a row hold the nodes of both.
pub proof fn lemma_node_count_concat(first: Seq<Node>, second: Seq<Node>)
    ensures
        node_count(first + second) == node_count(first) + node_count(second),
    decreases second.len(),
{
    if second.len() == 0 {
        assert(first + second =~= first);
    } else {
        lemma_node_count_concat(first, second.drop_last());
        assert((first + second).drop_last() =~= first + second.drop_last());
        assert((first + second).last() == second.last());
    }
}

/// Reading the directory at `k` leaves fewer nodes to look at: its entries
/// and what stood after it are fewer than all that was pending.
pub proof fn lemma_descent_shrinks(pending: Seq<Node>, k: int)
    requires
        0 <= k < pending.len(),
    ensures
        pending[k] matches Node::Dir(_, children) ==> node_count(children + pending.skip(k + 1))
            < node_count(pending),
{
    match pending[k] {
        Node::Dir(_, children) => {
            let head = pending.take(k);
            let tail = pending.skip(k + 1);
            assert(pending =~= head.push(pending[k]) + tail);
            lemma_node_count_concat(head.push(pending[k]), tail);
            assert(head.push(pending[k]).drop_last() =~= head);
            assert(head.push(pending[k]).last() == pending[k]);
            assert(node_count(head.push(pending[k])) == node_count(head) + node_weight(pending[k]));
            lemma_node_count_concat(children, tail);
        },
        Node::File(_) => {},
    }
}

/// What a walk has found when it is done. The walk stands with the nodes
/// `pending` still to be looked at and with `found`; it goes on step by step
/// as `FileWalk::enter` does, and each directory that it asks for is
/// answered with that directory's entries in the tree.
pub open spec fn walk_result(pending: Seq<Node>, found: Seq<Seq<char>>, recursive: bool) -> Seq<
    Seq<char>,
>
    decreases node_count(pending),
    via walk_result_decreases
{
    let entries = entries_of(pending);
    let k = descent(recursive, entries);
    let found_next = found + file_paths(entries.take(k));
    if 0 <= k < pending.len() {
        match pending[k] {
            Node::Dir(_, children) => walk_result(
                children + pending.skip(k + 1),
                found_next,
                recursive,
            ),
            Node::File(_) => found_next,
        }
    } else {
        found_next
    }
}

#[via_fn]
proof fn walk_result_decreases(pending: Seq<Node>, found: Seq<Seq<char>>, recursive: bool) {
    let k = descent(recursive, entries_of(pending));
    if 0 <= k < pending.len() {
        lemma_descent_shrinks(pending, k);
    }
}

/// From any state, a whole walk ends with what it had found and then the
/// files of what was pending.
pub proof fn lemma_walk_finds_tree_files(
    pending: Seq<Node>,
    found: Seq<Seq<char>>,
    recursive: bool,
)
    ensures
        walk_result(pending, found, recursive) == found + tree_files(pending, recursive),
    decreases node_count(pending),
{
    let entries = entries_of(pending);
    let k = descent(recursive, entries);
    let found_next = found + file_paths(entries.take(k));
    lemma_walk_keeps_result(pending, found, recursive);
    if 0 <= k < pending.len() {
        match pending[k] {
            Node::Dir(_, children) => {
                lemma_descent_shrinks(pending, k);
                lemma_walk_finds_tree_files(children + pending.skip(k + 1), found_next, recursive);
            },
            Node::File(_) => {},
        }
    }
}

/// A whole walk lists the directory. Begun on a directory's entries with
/// nothing found, the walk ends with exactly the listing of that directory,
/// flat or recursive as the walk is.
pub proof fn lemma_walk_lists_directory(nodes: Seq<Node>, recursive: bool)
    ensures
        walk_result(nodes, Seq::empty(), recursive) == tree_files(nodes, recursive),
{
    lemma_walk_finds_tree_files(nodes, Seq::empty(), recursive);
    assert(Seq::<Seq<char>>::empty() + tree_files(nodes, recursive) =~= tree_files(
        nodes,
        recursive,
    ));
}

} // verus!
