//! Depth-first traversal of a directory tree, yielding the paths of the
//! regular files whose name ends in the recognized source suffix.
//!
//! The tree is taken as a value: each entry is a regular file, a directory
//! with its own entries, or anything else, which traversal skips. Reading
//! the entries off the disk happens outside the library; the walk itself,
//! and what it yields, is verified here. A path is the sequence of entry
//! names from the root down to a file.

use vstd::prelude::*;

verus! {

/// One entry of a directory tree, as the filesystem reports it.
#[derive(Debug)]
pub enum FsEntry {
    /// A regular file.
    File { name: String },
    /// A directory and its entries.
    Dir { name: String, entries: Vec<FsEntry> },
    /// Any other entry kind (symlink, socket, ...): never followed.
    Other { name: String },
}

/// The recognized source suffix: the name's last three characters are
/// `.ts`.
pub open spec fn has_ts_suffix(name: Seq<char>) -> bool {
    &&& name.len() >= 3
    &&& name[name.len() - 3] == '.'
    &&& name[name.len() - 2] == 't'
    &&& name[name.len() - 1] == 's'
}

/// Decides whether a file name ends in the recognized source suffix.
pub fn ends_with_ts(name: &String) -> (r: bool)
    ensures
        r == has_ts_suffix(name@),
{
    let n = name.as_str().unicode_len();
    if n < 3 {
        return false;
    }
    name.as_str().get_char(n - 3) == '.' && name.as_str().get_char(n - 2) == 't'
        && name.as_str().get_char(n - 1) == 's'
}

/// The paths that traversal owes below one entry, seen from a prefix: a
/// matching file contributes the prefix extended by its name, a directory
/// contributes whatever lies below it, and every other entry contributes
/// nothing.
pub open spec fn ts_paths(e: FsEntry, prefix: Seq<Seq<char>>) -> Set<Seq<Seq<char>>>
    decreases e,
{
    match e {
        FsEntry::File { name } => if has_ts_suffix(name@) {
            Set::empty().insert(prefix.push(name@))
        } else {
            Set::empty()
        },
        FsEntry::Dir { name, entries } => ts_paths_seq(entries@, prefix.push(name@)),
        FsEntry::Other { .. } => Set::empty(),
    }
}

/// The paths owed below a sequence of sibling entries.
pub open spec fn ts_paths_seq(es: Seq<FsEntry>, prefix: Seq<Seq<char>>) -> Set<Seq<Seq<char>>>
    decreases es,
{
    if es.len() == 0 {
        Set::empty()
    } else {
        ts_paths_seq(es.drop_last(), prefix).union(ts_paths(es.last(), prefix))
    }
}

/// Copies a path so that a child of the traversal can extend its own.
fn clone_path(p: &Vec<String>) -> (r: Vec<String>)
    ensures
        r@ == p@,
{
    let r = p.clone();
    proof {
        assert forall|i: int| 0 <= i < p@.len() implies r@[i] == p@[i] by {
            assert(cloned::<String>(p@[i], r@[i]));
        }
        assert(r@ =~= p@);
    }
    r
}

/// The set of elements of a concatenation is the union of the two sets of
/// elements.
proof fn lemma_concat_to_set<A>(a: Seq<A>, b: Seq<A>)
    ensures
        (a + b).to_set() == a.to_set().union(b.to_set()),
{
    assert forall|x: A| (a + b).to_set().contains(x) implies a.to_set().contains(x)
        || b.to_set().contains(x) by {
        let i = choose|i: int| 0 <= i < (a + b).len() && (a + b)[i] == x;
        if i < a.len() {
            assert(a[i] == x);
        } else {
            assert(b[i - a.len()] == x);
        }
    }
    assert forall|x: A| a.to_set().contains(x) || b.to_set().contains(x) implies (a
        + b).to_set().contains(x) by {
        if a.to_set().contains(x) {
            let i = choose|i: int| 0 <= i < a.len() && a[i] == x;
            assert((a + b)[i] == x);
        } else {
            let i = choose|i: int| 0 <= i < b.len() && b[i] == x;
            assert((a + b)[a.len() + i] == x);
        }
    }
    assert((a + b).to_set() =~= a.to_set().union(b.to_set()));
}

/// Walks the subtree below `e`, depth first, the prefix being the path of
/// names leading to `e`'s parent. Yields exactly the owed paths; which
/// order traversal visits siblings in cannot change that set.
#[verifier::loop_isolation(false)]
fn walk_entry(e: &FsEntry, prefix: &Vec<String>) -> (paths: Vec<Vec<String>>)
    ensures
        paths.deep_view().to_set() == ts_paths(*e, prefix.deep_view()),
    decreases *e,
{
    match e {
        FsEntry::File { name } => {
            let mut out: Vec<Vec<String>> = Vec::new();
            if ends_with_ts(name) {
                let mut p = clone_path(prefix);
                p.push(name.clone());
                proof {
                    assert(p.deep_view() =~= prefix.deep_view().push(name@));
                }
                out.push(p);
                proof {
                    let pv = prefix.deep_view().push(name@);
                    assert(out.deep_view() =~= seq![pv]);
                    assert(out.deep_view()[0] == pv);
                    assert(out.deep_view().to_set().contains(pv));
                    assert forall|y: Seq<Seq<char>>|
                        out.deep_view().to_set().contains(y) implies y == pv by {
                        let i = choose|i: int|
                            0 <= i < out.deep_view().len() && out.deep_view()[i] == y;
                    }
                    assert(out.deep_view().to_set() =~= Set::empty().insert(pv));
                }
            } else {
                proof {
                    assert(out.deep_view() =~= Seq::<Seq<Seq<char>>>::empty());
                    assert(out.deep_view().to_set() =~= Set::<Seq<Seq<char>>>::empty());
                }
            }
            out
        },
        FsEntry::Dir { name, entries } => {
            let mut child_prefix = clone_path(prefix);
            child_prefix.push(name.clone());
            let ghost cp = prefix.deep_view().push(name@);
            proof {
                assert(child_prefix.deep_view() =~= cp);
            }
            let mut out: Vec<Vec<String>> = Vec::new();
            let mut i: usize = 0;
            proof {
                assert(out.deep_view() =~= Seq::<Seq<Seq<char>>>::empty());
                assert(out.deep_view().to_set() =~= ts_paths_seq(
                    entries@.subrange(0, 0),
                    cp,
                ));
            }
            while i < entries.len()
                invariant
                    i <= entries.len(),
                    child_prefix.deep_view() == cp,
                    out.deep_view().to_set() == ts_paths_seq(entries@.subrange(0, i as int), cp),
                decreases entries.len() - i,
        {
                let ghost out_pre = out.deep_view();
                proof {
                    assert(decreases_to!(*e => e->Dir_entries));
                    assert(decreases_to!(e->Dir_entries => e->Dir_entries@));
                    assert(decreases_to!(e->Dir_entries@ => e->Dir_entries@[i as int]));
                    assert(decreases_to!(*e => entries@[i as int]));
                }
                let mut sub = walk_entry(&entries[i], &child_prefix);
                let ghost sub_view = sub.deep_view();
                out.append(&mut sub);
                proof {
                    assert(out.deep_view() =~= out_pre + sub_view);
                    lemma_concat_to_set(out_pre, sub_view);
                    assert(entries@.subrange(0, i as int + 1).drop_last() =~= entries@.subrange(
                        0,
                        i as int,
                    ));
                    assert(entries@.subrange(0, i as int + 1).last() == entries@[i as int]);
                    assert(out.deep_view().to_set() =~= ts_paths_seq(
                        entries@.subrange(0, i as int + 1),
                        cp,
                    ));
                }
                i = i + 1;
            }
            proof {
                assert(entries@.subrange(0, entries@.len() as int) =~= entries@);
            }
            out
        },
        FsEntry::Other { .. } => {
            let out: Vec<Vec<String>> = Vec::new();
            proof {
                assert(out.deep_view() =~= Seq::<Seq<Seq<char>>>::empty());
                assert(out.deep_view().to_set() =~= Set::<Seq<Seq<char>>>::empty());
            }
            out
        },
    }
}

/// A path `p` leads from `e` through directory entries alone to a regular
/// file whose name ends in the recognized suffix: it begins with `e`'s own
/// name, descends only into directories, and ends at a matching file. No
/// other entry kind lets a path through.
pub open spec fn reaches_ts_file(e: FsEntry, p: Seq<Seq<char>>) -> bool
    decreases e,
{
    match e {
        FsEntry::File { name } => p == seq![name@] && has_ts_suffix(name@),
        FsEntry::Dir { name, entries } => {
            &&& p.len() > 1
            &&& p[0] == name@
            &&& exists|i: int|
                0 <= i < entries@.len() && reaches_ts_file(
                    #[trigger] entries@[i],
                    p.drop_first(),
                )
        },
        FsEntry::Other { .. } => false,
    }
}

/// A path that leads somewhere is never empty.
proof fn lemma_reaches_nonempty(e: FsEntry, p: Seq<Seq<char>>)
    requires
        reaches_ts_file(e, p),
    ensures
        p.len() >= 1,
{
}

/// Traversal-completeness law, for one sequence of sibling entries: a path
/// is owed below the siblings exactly when one of them lets it through.
proof fn lemma_traversal_completeness_seq(
    es: Seq<FsEntry>,
    prefix: Seq<Seq<char>>,
    q: Seq<Seq<char>>,
)
    ensures
        ts_paths_seq(es, prefix).contains(q) <==> (exists|i: int, p: Seq<Seq<char>>|
            0 <= i < es.len() && #[trigger] reaches_ts_file(es[i], p) && q == prefix + p),
    decreases es,
{
    if es.len() == 0 {
    } else {
        lemma_traversal_completeness_seq(es.drop_last(), prefix, q);
        lemma_traversal_completeness(es.last(), prefix, q);
        if ts_paths_seq(es, prefix).contains(q) {
            if ts_paths_seq(es.drop_last(), prefix).contains(q) {
                let (i, p) = choose|i: int, p: Seq<Seq<char>>|
                    0 <= i < es.drop_last().len() && #[trigger] reaches_ts_file(
                        es.drop_last()[i],
                        p,
                    ) && q == prefix + p;
                assert(es.drop_last()[i] == es[i]);
                assert(reaches_ts_file(es[i], p) && q == prefix + p);
            } else {
                let p = choose|p: Seq<Seq<char>>|
                    #[trigger] reaches_ts_file(es.last(), p) && q == prefix + p;
                assert(es[es.len() - 1] == es.last());
                assert(reaches_ts_file(es[es.len() - 1], p) && q == prefix + p);
            }
        }
        if exists|i: int, p: Seq<Seq<char>>|
            0 <= i < es.len() && #[trigger] reaches_ts_file(es[i], p) && q == prefix + p {
            let (i, p) = choose|i: int, p: Seq<Seq<char>>|
                0 <= i < es.len() && #[trigger] reaches_ts_file(es[i], p) && q == prefix + p;
            if i == es.len() - 1 {
                assert(reaches_ts_file(es.last(), p) && q == prefix + p);
                assert(ts_paths(es.last(), prefix).contains(q));
            } else {
                assert(es.drop_last()[i] == es[i]);
                assert(reaches_ts_file(es.drop_last()[i], p) && q == prefix + p);
                assert(ts_paths_seq(es.drop_last(), prefix).contains(q));
            }
        }
    }
}

/// Traversal-completeness law: a path is owed below `e`, seen from a
/// prefix, exactly when what follows the prefix leads from `e` through
/// directory entries alone to a regular file whose name ends in the
/// recognized suffix — non-matching files and non-directory, non-file
/// entries are excluded, and the order siblings are visited in plays no
/// part.
pub proof fn lemma_traversal_completeness(
    e: FsEntry,
    prefix: Seq<Seq<char>>,
    q: Seq<Seq<char>>,
)
    ensures
        ts_paths(e, prefix).contains(q) <==> (exists|p: Seq<Seq<char>>|
            #[trigger] reaches_ts_file(e, p) && q == prefix + p),
    decreases e,
{
    match e {
        FsEntry::File { name } => {
            if has_ts_suffix(name@) {
                if ts_paths(e, prefix).contains(q) {
                    let p = seq![name@];
                    assert(prefix + p =~= prefix.push(name@));
                    assert(reaches_ts_file(e, p) && q == prefix + p);
                }
                if exists|p: Seq<Seq<char>>| #[trigger] reaches_ts_file(e, p) && q == prefix
                    + p {
                    let p = choose|p: Seq<Seq<char>>|
                        #[trigger] reaches_ts_file(e, p) && q == prefix + p;
                    assert(prefix + p =~= prefix.push(name@));
                    assert(ts_paths(e, prefix).contains(q));
                }
            } else {
                if exists|p: Seq<Seq<char>>| #[trigger] reaches_ts_file(e, p) && q == prefix
                    + p {
                    let p = choose|p: Seq<Seq<char>>|
                        #[trigger] reaches_ts_file(e, p) && q == prefix + p;
                    assert(false);
                }
            }
        },
        FsEntry::Dir { name, entries } => {
            let cp = prefix.push(name@);
            lemma_traversal_completeness_seq(entries@, cp, q);
            if ts_paths(e, prefix).contains(q) {
                let (i, tail) = choose|i: int, tail: Seq<Seq<char>>|
                    0 <= i < entries@.len() && #[trigger] reaches_ts_file(entries@[i], tail)
                        && q == cp + tail;
                lemma_reaches_nonempty(entries@[i], tail);
                let p = seq![name@] + tail;
                assert(p.drop_first() =~= tail);
                assert(reaches_ts_file(entries@[i], p.drop_first()));
                assert(reaches_ts_file(e, p));
                assert(prefix + p =~= cp + tail);
                assert(reaches_ts_file(e, p) && q == prefix + p);
            }
            if exists|p: Seq<Seq<char>>| #[trigger] reaches_ts_file(e, p) && q == prefix + p {
                let p = choose|p: Seq<Seq<char>>|
                    #[trigger] reaches_ts_file(e, p) && q == prefix + p;
                let i = choose|i: int|
                    0 <= i < entries@.len() && reaches_ts_file(
                        #[trigger] entries@[i],
                        p.drop_first(),
                    );
                assert(prefix + p =~= cp + p.drop_first());
                assert(reaches_ts_file(entries@[i], p.drop_first()) && q == cp + p.drop_first());
                assert(ts_paths_seq(entries@, cp).contains(q));
            }
        },
        FsEntry::Other { .. } => {
            if exists|p: Seq<Seq<char>>| #[trigger] reaches_ts_file(e, p) && q == prefix + p {
                let p = choose|p: Seq<Seq<char>>|
                    #[trigger] reaches_ts_file(e, p) && q == prefix + p;
                assert(false);
            }
        },
    }
}

/// A path's display form: its component names joined by a separator.
pub open spec fn spec_join_path(p: Seq<Seq<char>>) -> Seq<char>
    decreases p.len(),
{
    if p.len() == 0 {
        Seq::empty()
    } else if p.len() == 1 {
        p[0]
    } else {
        spec_join_path(p.drop_last()) + seq!['/'] + p.last()
    }
}

/// Joins a path's component names with a separator, for reporting.
pub fn join_path(p: &Vec<String>) -> (r: String)
    ensures
        r@ == spec_join_path(p.deep_view()),
{
    let ghost dv = p.deep_view();
    let mut r = String::new();
    let mut i: usize = 0;
    proof {
        assert(dv.subrange(0, 0) =~= Seq::<Seq<char>>::empty());
    }
    while i < p.len()
        invariant
            i <= p.len(),
            dv == p.deep_view(),
            r@ == spec_join_path(dv.subrange(0, i as int)),
        decreases p.len() - i,
    {
        if i > 0 {
            r.append("/");
            proof {
                reveal_strlit("/");
                assert("/"@ =~= seq!['/']);
            }
        }
        r.append(p[i].as_str());
        proof {
            assert(dv.subrange(0, i as int + 1).drop_last() =~= dv.subrange(0, i as int));
            assert(dv.subrange(0, i as int + 1).last() == dv[i as int]);
            if i == 0 {
                assert(r@ =~= spec_join_path(dv.subrange(0, 1)));
            } else {
                assert(r@ =~= spec_join_path(dv.subrange(0, i as int + 1)));
            }
        }
        i = i + 1;
    }
    proof {
        assert(dv.subrange(0, dv.len() as int) =~= dv);
    }
    r
}

/// Walks the tree below `root`, depth first. Yields exactly the paths of
/// the regular files whose name ends in the recognized suffix and that are
/// reachable through directory entries alone: non-matching files and
/// non-directory, non-file entries are excluded, independent of the order
/// siblings are visited in.
pub fn walk(root: &FsEntry) -> (paths: Vec<Vec<String>>)
    ensures
        paths.deep_view().to_set() == ts_paths(*root, Seq::empty()),
{
    let prefix: Vec<String> = Vec::new();
    proof {
        assert(prefix.deep_view() =~= Seq::<Seq<char>>::empty());
    }
    walk_entry(root, &prefix)
}

} // verus!
