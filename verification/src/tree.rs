//! What a walk of a whole directory tree reports.
//!
//! A [`Dir`] is a directory tree as a walk would meet it: for every directory
//! what reading it gives, and for every entry what it was seen to be.
//! [`enumerate`] says what a walk of such a tree reports. The rest of the
//! module proves facts about it, the first being that a
//! [`Walker`](crate::walker::Walker) which is handed what a reader of the tree
//! meets, as it asks for it, ends with exactly that.

use crate::error::{failure_error, Error, IoFailure};
use crate::walker::{Entry, EntryKind, Event, Walk};
use vstd::prelude::*;

verus! {

/// An entry of a directory together with what reading it as a directory
/// gives. `below` matters only where the entry is a directory.
pub struct Node<P> {
    pub entry: Entry<P>,
    pub below: Dir<P>,
}

/// What reading a directory gives.
pub enum Dir<P> {
    /// The directory cannot be opened.
    Unreadable(IoFailure),
    /// The directory can be opened and yields these entries, in this order.
    /// After the last of them it ends, or, where `broken` holds a failure,
    /// reading the next entry fails in this way.
    Holds { nodes: Seq<Node<P>>, broken: Option<IoFailure> },
}

/// The entries of these nodes.
pub open spec fn entries<P>(nodes: Seq<Node<P>>) -> Seq<Entry<P>> {
    nodes.map_values(|node: Node<P>| node.entry)
}

/// What a walk of the directory reports: the paths in the order in which they
/// are reported, or the first failure that the walk meets.
pub open spec fn enumerate<P>(dir: Dir<P>, recursive: bool) -> Result<Seq<P>, Error>
    decreases dir,
{
    match dir {
        Dir::Unreadable(failure) => Err(failure_error(failure)),
        Dir::Holds { nodes, broken } => match gather(nodes, recursive) {
            Err(error) => Err(error),
            Ok(found) => match broken {
                Some(failure) => Err(failure_error(failure)),
                None => Ok(found),
            },
        },
    }
}

/// What the walk reports for these entries of one directory, taken in order.
pub open spec fn gather<P>(nodes: Seq<Node<P>>, recursive: bool) -> Result<Seq<P>, Error>
    decreases nodes,
{
    if nodes.len() == 0 {
        Ok(Seq::empty())
    } else {
        match visit(nodes[0], recursive) {
            Err(error) => Err(error),
            Ok(head) => match gather(nodes.drop_first(), recursive) {
                Err(error) => Err(error),
                Ok(tail) => Ok(head + tail),
            },
        }
    }
}

/// What the walk reports for one entry. An entry of which the type could not
/// be told fails the walk with the failure of that request. A file is
/// reported. A directory is passed over by a flat walk; a recursive walk
/// reports what is found inside it and then the directory itself.
pub open spec fn visit<P>(node: Node<P>, recursive: bool) -> Result<Seq<P>, Error>
    decreases node,
{
    match node.entry.kind {
        Err(failure) => Err(Error::TypeQueryFailure(failure)),
        Ok(EntryKind::File) => Ok(seq![node.entry.path]),
        Ok(EntryKind::Directory) => if recursive {
            match enumerate(node.below, recursive) {
                Err(error) => Err(error),
                Ok(inside) => Ok(inside.push(node.entry.path)),
            }
        } else {
            Ok(Seq::empty())
        },
    }
}

/// Something that a reader met, and the directory in which it met it.
pub struct Met<P> {
    pub dir: P,
    pub event: Event<P>,
}

/// What the reader meets after the last entry of a directory.
pub open spec fn ending<P>(broken: Option<IoFailure>) -> Event<P> {
    match broken {
        Some(failure) => Event::ReadFailed(failure),
        None => Event::End,
    }
}

/// What a depth-first reader of the tree `dir`, which stands at the path
/// `at`, meets, in order: the directory is opened, its entries are read one
/// by one, each directory among them is read in the same way before the next
/// entry where the read is recursive, and the directory comes to its end.
pub open spec fn met<P>(at: P, dir: Dir<P>, recursive: bool) -> Seq<Met<P>>
    decreases dir,
{
    match dir {
        Dir::Unreadable(failure) => seq![Met { dir: at, event: Event::OpenFailed(failure) }],
        Dir::Holds { nodes, broken } => seq![Met { dir: at, event: Event::Opened }] + met_among(
            at,
            nodes,
            recursive,
        ) + seq![Met { dir: at, event: ending(broken) }],
    }
}

/// What the reader meets while it takes these entries of the directory at
/// `at`.
pub open spec fn met_among<P>(at: P, nodes: Seq<Node<P>>, recursive: bool) -> Seq<Met<P>>
    decreases nodes,
{
    if nodes.len() == 0 {
        Seq::empty()
    } else {
        let node = nodes[0];
        let inside = if recursive && node.entry.kind == Ok::<EntryKind, IoFailure>(
            EntryKind::Directory,
        ) {
            met(node.entry.path, node.below, recursive)
        } else {
            Seq::empty()
        };
        seq![Met { dir: at, event: Event::Entry(node.entry) }] + inside + met_among(
            at,
            nodes.drop_first(),
            recursive,
        )
    }
}

/// The walk after the reader met this: the event is taken if it was met in
/// the directory that the walk wants opened or read, and left aside if not.
pub open spec fn hear<P>(walk: Walk<P>, met: Met<P>) -> Walk<P> {
    if walk.opening() == Some(met.dir) || walk.reading() == Some(met.dir) {
        walk.feed(met.event)
    } else {
        walk
    }
}

/// The walk after all of this was met, one thing after the other.
pub open spec fn replay<P>(walk: Walk<P>, met: Seq<Met<P>>) -> Walk<P>
    decreases met.len(),
{
    if met.len() == 0 {
        walk
    } else {
        replay(hear(walk, met[0]), met.drop_first())
    }
}

/// Where a walk stands that was inside `dir` when what it found there was
/// gathered.
spec fn gathered<P>(
    result: Result<Seq<P>, Error>,
    recursive: bool,
    found: Seq<P>,
    above: Seq<P>,
    dir: P,
) -> Walk<P> {
    match result {
        Err(error) => Walk::Failed { error },
        Ok(paths) => Walk::Reading { recursive, found: found + paths, above, dir },
    }
}

/// Where a walk stands that wanted `dir` opened when the walk of `dir` is
/// over.
spec fn enumerated<P>(
    result: Result<Seq<P>, Error>,
    recursive: bool,
    found: Seq<P>,
    above: Seq<P>,
    dir: P,
) -> Walk<P> {
    match result {
        Err(error) => Walk::Failed { error },
        Ok(paths) => (Walk::Reading { recursive, found: found + paths, above, dir }).feed(
            Event::End,
        ),
    }
}

proof fn lemma_replay_one<P>(walk: Walk<P>, one: Met<P>)
    ensures
        replay(walk, seq![one]) == hear(walk, one),
{
    let all = seq![one];
    assert(all.drop_first() =~= Seq::empty());
    assert(replay(hear(walk, all[0]), all.drop_first()) == hear(walk, all[0]));
}

proof fn lemma_replay_after_failure<P>(error: Error, met: Seq<Met<P>>)
    ensures
        replay(Walk::<P>::Failed { error }, met) == (Walk::<P>::Failed { error }),
    decreases met.len(),
{
    if met.len() > 0 {
        lemma_replay_after_failure(error, met.drop_first());
    }
}

proof fn lemma_replay_in_two<P>(walk: Walk<P>, first: Seq<Met<P>>, second: Seq<Met<P>>)
    ensures
        replay(walk, first + second) == replay(replay(walk, first), second),
    decreases first.len(),
{
    if first.len() == 0 {
        assert(first + second =~= second);
    } else {
        assert((first + second)[0] == first[0]);
        assert((first + second).drop_first() =~= first.drop_first() + second);
        lemma_replay_in_two(hear(walk, first[0]), first.drop_first(), second);
    }
}

proof fn lemma_replay_dir<P>(recursive: bool, found: Seq<P>, above: Seq<P>, at: P, dir: Dir<P>)
    ensures
        replay(Walk::Opening { recursive, found, above, dir: at }, met(at, dir, recursive))
            == enumerated(enumerate(dir, recursive), recursive, found, above, at),
    decreases dir,
{
    let walk = Walk::Opening { recursive, found, above, dir: at };
    match dir {
        Dir::Unreadable(failure) => {
            lemma_replay_one(walk, Met { dir: at, event: Event::OpenFailed(failure) });
        },
        Dir::Holds { nodes, broken } => {
            let open = seq![Met { dir: at, event: Event::Opened }];
            let among = met_among(at, nodes, recursive);
            let close = seq![Met { dir: at, event: ending::<P>(broken) }];
            let inside = Walk::Reading { recursive, found, above, dir: at };
            lemma_replay_one(walk, open[0]);
            lemma_replay_in_two(walk, open + among, close);
            lemma_replay_in_two(walk, open, among);
            lemma_replay_nodes(recursive, found, above, at, nodes);
            assert(replay(walk, open + among) == gathered(
                gather(nodes, recursive),
                recursive,
                found,
                above,
                at,
            ));
            match gather(nodes, recursive) {
                Err(error) => {
                    lemma_replay_after_failure::<P>(error, close);
                },
                Ok(paths) => {
                    lemma_replay_one(
                        Walk::Reading { recursive, found: found + paths, above, dir: at },
                        close[0],
                    );
                },
            }
        },
    }
}

proof fn lemma_replay_nodes<P>(
    recursive: bool,
    found: Seq<P>,
    above: Seq<P>,
    at: P,
    nodes: Seq<Node<P>>,
)
    ensures
        replay(Walk::Reading { recursive, found, above, dir: at }, met_among(at, nodes, recursive))
            == gathered(gather(nodes, recursive), recursive, found, above, at),
    decreases nodes,
{
    let walk = Walk::Reading { recursive, found, above, dir: at };
    if nodes.len() == 0 {
        assert(found + Seq::<P>::empty() =~= found);
    } else {
        let node = nodes[0];
        let rest = nodes.drop_first();
        let path = node.entry.path;
        let first = seq![Met { dir: at, event: Event::Entry(node.entry) }];
        let inside = if recursive && node.entry.kind == Ok::<EntryKind, IoFailure>(
            EntryKind::Directory,
        ) {
            met(path, node.below, recursive)
        } else {
            Seq::empty()
        };
        let after = met_among(at, rest, recursive);
        assert(met_among(at, nodes, recursive) == first + inside + after);
        lemma_replay_in_two(walk, first + inside, after);
        lemma_replay_in_two(walk, first, inside);
        lemma_replay_one(walk, first[0]);
        let taken = walk.feed(Event::Entry(node.entry));
        assert(replay(walk, first) == taken);
        match node.entry.kind {
            Err(failure) => {
                assert(visit(node, recursive) == Err::<Seq<P>, Error>(
                    Error::TypeQueryFailure(failure),
                ));
                lemma_replay_after_failure::<P>(Error::TypeQueryFailure(failure), inside);
                lemma_replay_after_failure::<P>(Error::TypeQueryFailure(failure), after);
            },
            Ok(EntryKind::File) => {
                assert(visit(node, recursive) == Ok::<Seq<P>, Error>(seq![path]));
                lemma_replay_nodes(recursive, found.push(path), above, at, rest);
                if let Ok(tail) = gather(rest, recursive) {
                    assert(found.push(path) + tail =~= found + (seq![path] + tail));
                }
            },
            Ok(EntryKind::Directory) => {
                if recursive {
                    lemma_replay_dir(recursive, found, above.push(at), path, node.below);
                    match enumerate(node.below, recursive) {
                        Err(error) => {
                            assert(visit(node, recursive) == Err::<Seq<P>, Error>(error));
                            lemma_replay_after_failure::<P>(error, after);
                        },
                        Ok(paths) => {
                            assert(visit(node, recursive) == Ok::<Seq<P>, Error>(
                                paths.push(path),
                            ));
                            assert(above.push(at).drop_last() =~= above);
                            assert(replay(taken, inside) == (Walk::Reading {
                                recursive,
                                found: (found + paths).push(path),
                                above,
                                dir: at,
                            }));
                            lemma_replay_nodes(
                                recursive,
                                (found + paths).push(path),
                                above,
                                at,
                                rest,
                            );
                            if let Ok(tail) = gather(rest, recursive) {
                                assert((found + paths).push(path) + tail =~= found + (paths.push(
                                    path,
                                ) + tail));
                            }
                        },
                    }
                } else {
                    assert(visit(node, recursive) == Ok::<Seq<P>, Error>(Seq::empty()));
                    lemma_replay_nodes(recursive, found, above, at, rest);
                    if let Ok(tail) = gather(rest, recursive) {
                        assert(Seq::<P>::empty() + tail =~= tail);
                    }
                }
            },
        }
    }
}

/// A walker that starts at `root` and is handed what a depth-first reader of
/// the tree meets, in order, each event taken only if it was met in the
/// directory that the walker wants opened or read at that moment, ends with
/// what [`enumerate`] says of the tree: the same paths in the same order, or
/// the same failure.
pub proof fn lemma_walk_reports_enumeration<P>(root: P, tree: Dir<P>, recursive: bool)
    ensures
        replay(Walk::start(root, recursive), met(root, tree, recursive)).outcome() == Some(
            enumerate(tree, recursive),
        ),
{
    lemma_replay_dir(recursive, Seq::empty(), Seq::empty(), root, tree);
    if let Ok(paths) = enumerate(tree, recursive) {
        assert(Seq::<P>::empty() + paths =~= paths);
    }
}

/// The paths of those entries that are files, in order.
pub open spec fn files<P>(listing: Seq<Entry<P>>) -> Seq<P>
    decreases listing.len(),
{
    if listing.len() == 0 {
        Seq::empty()
    } else {
        let head = if listing[0].kind == Ok::<EntryKind, IoFailure>(EntryKind::File) {
            seq![listing[0].path]
        } else {
            Seq::empty()
        };
        head + files(listing.drop_first())
    }
}

/// Whether it could be told of every entry what it is.
pub open spec fn all_told<P>(listing: Seq<Entry<P>>) -> bool {
    forall|i: int| 0 <= i < listing.len() ==> (#[trigger] listing[i]).kind is Ok
}

/// Whether an entry of this kind and with this path stands in the tree, in
/// the directory itself or at any depth below it.
pub open spec fn holds<P>(dir: Dir<P>, path: P, kind: EntryKind) -> bool
    decreases dir,
{
    match dir {
        Dir::Unreadable(_) => false,
        Dir::Holds { nodes, .. } => holds_among(nodes, path, kind),
    }
}

/// Whether such an entry is one of these nodes or stands below one of them.
pub open spec fn holds_among<P>(nodes: Seq<Node<P>>, path: P, kind: EntryKind) -> bool
    decreases nodes,
{
    nodes.len() > 0 && (holds_at(nodes[0], path, kind) || holds_among(
        nodes.drop_first(),
        path,
        kind,
    ))
}

/// Whether such an entry is this node or stands below it.
pub open spec fn holds_at<P>(node: Node<P>, path: P, kind: EntryKind) -> bool
    decreases node,
{
    ||| node.entry.path == path && node.entry.kind == Ok::<EntryKind, IoFailure>(kind)
    ||| node.entry.kind == Ok::<EntryKind, IoFailure>(EntryKind::Directory) && holds(
        node.below,
        path,
        kind,
    )
}

proof fn lemma_flat_gather<P>(nodes: Seq<Node<P>>)
    requires
        all_told(entries(nodes)),
    ensures
        gather(nodes, false) == Ok::<Seq<P>, Error>(files(entries(nodes))),
    decreases nodes.len(),
{
    let listing = entries(nodes);
    if nodes.len() == 0 {
        assert(listing =~= Seq::empty());
    } else {
        let rest = nodes.drop_first();
        assert(listing.drop_first() =~= entries(rest));
        assert(listing[0].kind is Ok);
        assert forall|i: int| 0 <= i < entries(rest).len() implies (#[trigger] entries(
            rest,
        )[i]).kind is Ok by {
            assert(entries(rest)[i] == listing[i + 1]);
        }
        lemma_flat_gather(rest);
        assert(visit(nodes[0], false) == Ok::<Seq<P>, Error>(
            if listing[0].kind == Ok::<EntryKind, IoFailure>(EntryKind::File) {
                seq![listing[0].path]
            } else {
                Seq::empty()
            },
        ));
    }
}

/// A flat walk of a directory that reads to its end, and in which it can be
/// told of every entry what it is, reports exactly the files that the
/// directory itself holds, in order, whatever stands in the directories
/// below it.
pub proof fn lemma_flat_enumeration_reports_files<P>(nodes: Seq<Node<P>>)
    requires
        all_told(entries(nodes)),
    ensures
        enumerate(Dir::Holds { nodes, broken: None }, false) == Ok::<Seq<P>, Error>(
            files(entries(nodes)),
        ),
{
    lemma_flat_gather(nodes);
}

proof fn lemma_contains_in_two<A>(first: Seq<A>, second: Seq<A>, item: A)
    ensures
        (first + second).contains(item) <==> first.contains(item) || second.contains(item),
{
    let both = first + second;
    if first.contains(item) {
        let i = choose|i: int| 0 <= i < first.len() && first[i] == item;
        assert(both[i] == item);
    }
    if second.contains(item) {
        let i = choose|i: int| 0 <= i < second.len() && second[i] == item;
        assert(both[first.len() + i] == item);
    }
    if both.contains(item) {
        let i = choose|i: int| 0 <= i < both.len() && both[i] == item;
        if i < first.len() {
            assert(first[i] == item);
        } else {
            assert(second[i - first.len()] == item);
        }
    }
}

proof fn lemma_gathered_paths<P>(nodes: Seq<Node<P>>, path: P)
    ensures
        gather(nodes, true) matches Ok(found) ==> (found.contains(path) <==> holds_among(
            nodes,
            path,
            EntryKind::File,
        ) || holds_among(nodes, path, EntryKind::Directory)),
    decreases nodes,
{
    if nodes.len() > 0 {
        let node = nodes[0];
        let rest = nodes.drop_first();
        if let Ok(found) = gather(nodes, true) {
            let head = visit(node, true)->Ok_0;
            let tail = gather(rest, true)->Ok_0;
            assert(found == head + tail);
            lemma_contains_in_two(head, tail, path);
            lemma_gathered_paths(rest, path);
            let own = node.entry.path;
            match node.entry.kind {
                Err(_) => {},
                Ok(EntryKind::File) => {
                    assert(head[0] == own);
                    assert(!holds_at(node, path, EntryKind::Directory));
                    assert(holds_at(node, path, EntryKind::File) <==> own == path);
                },
                Ok(EntryKind::Directory) => {
                    let inside = enumerate(node.below, true)->Ok_0;
                    assert(head =~= inside + seq![own]);
                    lemma_contains_in_two(inside, seq![own], path);
                    assert(seq![own][0] == own);
                    lemma_enumerated_paths(node.below, path);
                    assert(holds_at(node, path, EntryKind::File) <==> holds(
                        node.below,
                        path,
                        EntryKind::File,
                    ));
                    assert(holds_at(node, path, EntryKind::Directory) <==> own == path || holds(
                        node.below,
                        path,
                        EntryKind::Directory,
                    ));
                },
            }
        }
    }
}

/// Where a recursive walk of a tree succeeds, it reports every file that
/// stands anywhere in the tree, every directory below the root too, and no
/// path that is not that of such a file or directory.
pub proof fn lemma_enumerated_paths<P>(dir: Dir<P>, path: P)
    ensures
        enumerate(dir, true) matches Ok(found) ==> (found.contains(path) <==> holds(
            dir,
            path,
            EntryKind::File,
        ) || holds(dir, path, EntryKind::Directory)),
    decreases dir,
{
    match dir {
        Dir::Unreadable(_) => {},
        Dir::Holds { nodes, broken } => {
            lemma_gathered_paths(nodes, path);
        },
    }
}

/// A directory without entries is walked without failure and nothing is
/// reported, whether the walk is recursive or not.
pub proof fn lemma_empty_directory_reports_nothing<P>(root: P, recursive: bool)
    ensures
        enumerate(Dir::<P>::Holds { nodes: Seq::empty(), broken: None }, recursive) == Ok::<
            Seq<P>,
            Error,
        >(Seq::empty()),
        Walk::start(root, recursive).feed(Event::Opened).feed(Event::End).outcome() == Some(
            Ok::<Seq<P>, Error>(Seq::empty()),
        ),
{
}

/// A root that cannot be opened ends the walk with the error of that
/// failure, and nothing is reported.
pub proof fn lemma_unreadable_root_fails<P>(root: P, failure: IoFailure, recursive: bool)
    ensures
        enumerate(Dir::<P>::Unreadable(failure), recursive) == Err::<Seq<P>, Error>(
            failure_error(failure),
        ),
        Walk::start(root, recursive).feed(Event::OpenFailed(failure)).outcome() == Some(
            Err::<Seq<P>, Error>(failure_error(failure)),
        ),
{
}

/// A walk that fails at one of the entries of a directory fails as a whole,
/// whatever it found before and however the directory ends: there is no
/// partial result. Where the walk gets to that entry without failure, it
/// fails with the very error that it meets there.
pub proof fn lemma_first_failure_is_reported<P>(
    nodes: Seq<Node<P>>,
    broken: Option<IoFailure>,
    at: int,
    recursive: bool,
)
    requires
        0 <= at < nodes.len(),
        visit(nodes[at], recursive) is Err,
    ensures
        enumerate(Dir::Holds { nodes, broken }, recursive) is Err,
        gather(nodes.take(at), recursive) is Ok ==> enumerate(
            Dir::Holds { nodes, broken },
            recursive,
        ) == visit(nodes[at], recursive),
    decreases at,
{
    if at > 0 {
        let rest = nodes.drop_first();
        let before = nodes.take(at);
        assert(rest[at - 1] == nodes[at]);
        assert(before[0] == nodes[0]);
        assert(before.drop_first() =~= rest.take(at - 1));
        lemma_first_failure_is_reported(rest, broken, at - 1, recursive);
    }
}

/// A recursive walk of a directory that holds a directory which cannot be
/// opened fails. The error is that of the failure to open it, unless the
/// walk met another failure before it got there.
pub proof fn lemma_unreadable_directory_fails_walk<P>(
    nodes: Seq<Node<P>>,
    broken: Option<IoFailure>,
    at: int,
    failure: IoFailure,
)
    requires
        0 <= at < nodes.len(),
        nodes[at].entry.kind == Ok::<EntryKind, IoFailure>(EntryKind::Directory),
        nodes[at].below == Dir::<P>::Unreadable(failure),
    ensures
        enumerate(Dir::Holds { nodes, broken }, true) is Err,
        gather(nodes.take(at), true) is Ok ==> enumerate(Dir::Holds { nodes, broken }, true)
            == Err::<Seq<P>, Error>(failure_error(failure)),
{
    assert(visit(nodes[at], true) == Err::<Seq<P>, Error>(failure_error(failure)));
    lemma_first_failure_is_reported(nodes, broken, at, true);
}

/// A walk of a directory that holds an entry of which the type cannot be
/// told fails, recursive or not. The error keeps the failure of that request,
/// unless the walk met another failure before it got there.
pub proof fn lemma_untold_entry_fails_walk<P>(
    nodes: Seq<Node<P>>,
    broken: Option<IoFailure>,
    at: int,
    failure: IoFailure,
    recursive: bool,
)
    requires
        0 <= at < nodes.len(),
        nodes[at].entry.kind == Err::<EntryKind, IoFailure>(failure),
    ensures
        enumerate(Dir::Holds { nodes, broken }, recursive) is Err,
        gather(nodes.take(at), recursive) is Ok ==> enumerate(
            Dir::Holds { nodes, broken },
            recursive,
        ) == Err::<Seq<P>, Error>(Error::TypeQueryFailure(failure)),
{
    assert(visit(nodes[at], recursive) == Err::<Seq<P>, Error>(Error::TypeQueryFailure(failure)));
    lemma_first_failure_is_reported(nodes, broken, at, recursive);
}

} // verus!
