//! Listing the regular files of a directory tree.

use crate::error::{IoOp, SyncError};
use crate::path::{is_plain_name, join, joined, lemma_joined_stays_inside, stays_inside, texts};
use vstd::prelude::*;
use vstd::seq_lib::lemma_no_dup_in_concat;

verus! {

/// What stands at one place of a directory tree, as one reading of the
/// filesystem found it.
#[derive(Debug, PartialEq, Eq)]
pub enum DirNode {
    /// A regular file.
    File,
    /// A symbolic link, or anything else that is neither a regular file nor a
    /// directory. It is recorded and never followed.
    Link,
    /// A directory that could not be listed.
    Unreadable,
    /// A directory, with what it holds.
    Dir(Vec<DirEntry>),
}

/// A name in a directory and what stands under it.
#[derive(Debug, PartialEq, Eq)]
pub struct DirEntry {
    pub name: String,
    pub node: DirNode,
}

/// Whether every directory of the tree could be listed.
pub open spec fn all_readable(node: DirNode) -> bool
    decreases node,
{
    match node {
        DirNode::Unreadable => false,
        DirNode::Dir(entries) => forall|i: int|
            0 <= i < entries@.len() ==> all_readable(#[trigger] entries@[i].node),
        _ => true,
    }
}

/// The paths of the regular files at and below `node`, which itself has the
/// path `at`.
pub open spec fn files_in(node: DirNode, at: Seq<char>) -> Seq<Seq<char>>
    decreases node, 0nat,
{
    match node {
        DirNode::File => seq![at],
        DirNode::Dir(entries) => files_among(entries@, at, entries@.len()),
        _ => seq![],
    }
}

/// The paths of the regular files at and below the first `n` of `entries`,
/// which stand in the directory with the path `at`.
pub open spec fn files_among(entries: Seq<DirEntry>, at: Seq<char>, n: nat) -> Seq<Seq<char>>
    decreases entries, n,
{
    if n == 0 || n > entries.len() {
        seq![]
    } else {
        files_among(entries, at, (n - 1) as nat) + files_in(
            entries[n - 1].node,
            joined(at, entries[n - 1].name@),
        )
    }
}

/// The paths of the regular files under the directory `root`, each relative
/// to it.
pub open spec fn files_under(root: DirNode) -> Seq<Seq<char>> {
    files_in(root, Seq::empty())
}

/// Whether the names in the tree are such as a filesystem gives them: each a
/// plain name, and no two alike in one directory.
pub open spec fn well_formed(node: DirNode) -> bool
    decreases node,
{
    match node {
        DirNode::Dir(entries) => {
            &&& well_named(entries@)
            &&& forall|i: int|
                0 <= i < entries@.len() ==> well_formed(#[trigger] entries@[i].node)
        },
        _ => true,
    }
}

/// Whether each of `entries` bears a plain name that no other of them bears.
pub open spec fn well_named(entries: Seq<DirEntry>) -> bool {
    &&& forall|i: int| 0 <= i < entries.len() ==> is_plain_name(#[trigger] entries[i].name@)
    &&& forall|i: int, j: int|
        0 <= i < j < entries.len() ==> (#[trigger] entries[i]).name@ != (#[trigger] entries[j]).name@
}

/// Whether following `names` one after another, starting among `entries`,
/// ends at a regular file.
pub open spec fn leads_to_file(entries: Seq<DirEntry>, names: Seq<Seq<char>>) -> bool
    decreases names.len(),
{
    &&& names.len() > 0
    &&& exists|i: int|
        0 <= i < entries.len() && (#[trigger] entries[i]).name@ == names[0] && match entries[i].node {
            DirNode::File => names.len() == 1,
            DirNode::Dir(children) => names.len() > 1 && leads_to_file(
                children@,
                names.drop_first(),
            ),
            _ => false,
        }
}

/// The path of the place that `names` lead to from the directory with the
/// path `at`.
pub open spec fn placed(at: Seq<char>, names: Seq<Seq<char>>) -> Seq<char>
    decreases names.len(),
{
    if names.len() == 0 {
        at
    } else {
        placed(joined(at, names[0]), names.drop_first())
    }
}

/// Whether `p` is `q` or lies below it: `q`, then a separator, then more.
pub open spec fn within(p: Seq<char>, q: Seq<char>) -> bool {
    p == q || (p.len() > q.len() && p.take(q.len() as int) == q && p[q.len() as int] == '/')
}

proof fn lemma_in_concat<A>(a: Seq<A>, b: Seq<A>, x: A)
    ensures
        (a + b).contains(x) <==> a.contains(x) || b.contains(x),
{
    if a.contains(x) {
        let i = choose|i: int| 0 <= i < a.len() && a[i] == x;
        assert((a + b)[i] == x);
    }
    if b.contains(x) {
        let i = choose|i: int| 0 <= i < b.len() && b[i] == x;
        assert((a + b)[a.len() + i] == x);
    }
    if (a + b).contains(x) {
        let i = choose|i: int| 0 <= i < (a + b).len() && (a + b)[i] == x;
        if i < a.len() {
            assert(a[i] == x);
        } else {
            assert(b[i - a.len()] == x);
        }
    }
}

/// What is listed for one of the first `n` entries is listed for the first `n`.
proof fn lemma_among_includes(entries: Seq<DirEntry>, at: Seq<char>, n: nat, k: int, p: Seq<char>)
    requires
        0 <= k < n <= entries.len(),
        files_in(entries[k].node, joined(at, entries[k].name@)).contains(p),
    ensures
        files_among(entries, at, n).contains(p),
    decreases n,
{
    let before = files_among(entries, at, (n - 1) as nat);
    let last = files_in(entries[n - 1].node, joined(at, entries[n - 1].name@));
    if k < n - 1 {
        lemma_among_includes(entries, at, (n - 1) as nat, k, p);
    }
    lemma_in_concat(before, last, p);
}

/// The path of a regular file that `names` lead to is listed.
proof fn lemma_file_is_listed(entries: Seq<DirEntry>, at: Seq<char>, names: Seq<Seq<char>>)
    requires
        leads_to_file(entries, names),
    ensures
        files_among(entries, at, entries.len()).contains(placed(at, names)),
    decreases names.len(),
{
    let i = choose|i: int|
        0 <= i < entries.len() && (#[trigger] entries[i]).name@ == names[0] && match entries[i].node {
            DirNode::File => names.len() == 1,
            DirNode::Dir(children) => names.len() > 1 && leads_to_file(
                children@,
                names.drop_first(),
            ),
            _ => false,
        };
    let here = joined(at, names[0]);
    match entries[i].node {
        DirNode::File => {
            assert(placed(here, names.drop_first()) == here);
            assert(seq![here][0] == here);
        },
        DirNode::Dir(children) => {
            lemma_file_is_listed(children@, here, names.drop_first());
        },
        _ => {},
    }
    lemma_among_includes(entries, at, entries.len(), i, placed(at, names));
}

/// Whatever is listed is the path of a regular file: the names that lead to it
/// are returned.
proof fn lemma_listed_is_file(entries: Seq<DirEntry>, at: Seq<char>, n: nat, p: Seq<char>) -> (names:
    Seq<Seq<char>>)
    requires
        n <= entries.len(),
        files_among(entries, at, n).contains(p),
    ensures
        leads_to_file(entries, names),
        placed(at, names) == p,
    decreases entries, n,
{
    let before = files_among(entries, at, (n - 1) as nat);
    let entry = entries[n - 1];
    let here = joined(at, entry.name@);
    let last = files_in(entry.node, here);
    lemma_in_concat(before, last, p);
    if before.contains(p) {
        lemma_listed_is_file(entries, at, (n - 1) as nat, p)
    } else {
        match entry.node {
            DirNode::File => {
                let names = seq![entry.name@];
                assert(names.drop_first().len() == 0);
                assert(placed(here, names.drop_first()) == here);
                names
            },
            DirNode::Dir(children) => {
                let rest = lemma_listed_is_file(children@, here, children@.len(), p);
                let names = seq![entry.name@] + rest;
                assert(names.drop_first() =~= rest);
                names
            },
            _ => Seq::empty(),
        }
    }
}

/// What lies within a path placed under `q` lies within `q`.
proof fn lemma_within_parent(p: Seq<char>, q: Seq<char>, name: Seq<char>)
    requires
        q.len() > 0,
        within(p, q + seq!['/'] + name),
    ensures
        within(p, q),
{
    let child = q + seq!['/'] + name;
    assert(child.take(q.len() as int) =~= q);
    assert(p.take(child.len() as int).take(q.len() as int) =~= p.take(q.len() as int));
    assert(p[q.len() as int] == child[q.len() as int]) by {
        if p != child {
            assert(p.take(child.len() as int)[q.len() as int] == p[q.len() as int]);
        }
    }
}

/// Two entries of one directory that something lies within bear the same name.
proof fn lemma_siblings_apart(base: Seq<char>, a: Seq<char>, b: Seq<char>, p: Seq<char>)
    requires
        is_plain_name(a),
        is_plain_name(b),
        within(p, base + a),
        within(p, base + b),
    ensures
        a == b,
{
    let qa = base + a;
    let qb = base + b;
    let n = base.len() as int;
    assert forall|i: int| 0 <= i < a.len() implies p[n + i] == a[i] by {
        assert(qa[n + i] == a[i]);
        if p != qa {
            assert(p.take(qa.len() as int)[n + i] == p[n + i]);
        }
    }
    assert forall|i: int| 0 <= i < b.len() implies p[n + i] == b[i] by {
        assert(qb[n + i] == b[i]);
        if p != qb {
            assert(p.take(qb.len() as int)[n + i] == p[n + i]);
        }
    }
    if a.len() == b.len() {
        assert(a =~= b);
    } else if a.len() < b.len() {
        assert(p[n + a.len()] == b[a.len() as int]);
        assert(b.contains(b[a.len() as int]));
    } else {
        assert(p[n + b.len()] == a[b.len() as int]);
        assert(a.contains(a[b.len() as int]));
    }
}

/// What is listed at and below a place lies within that place's path and
/// stays inside the root.
proof fn lemma_files_in_within(node: DirNode, q: Seq<char>)
    requires
        well_formed(node),
        stays_inside(q),
    ensures
        forall|p: Seq<char>| #[trigger]
            files_in(node, q).contains(p) ==> within(p, q) && stays_inside(p),
    decreases node, 0nat,
{
    match node {
        DirNode::Dir(entries) => {
            lemma_files_among_within(entries@, q, entries@.len());
            assert forall|p: Seq<char>| #[trigger]
                files_in(node, q).contains(p) implies within(p, q) && stays_inside(p) by {
                assert(files_among(entries@, q, entries@.len()).contains(p));
                let k = choose|k: int|
                    0 <= k < entries@.len() && within(p, joined(q, (#[trigger] entries@[k]).name@));
                lemma_joined_stays_inside(q, entries@[k].name@);
                lemma_within_parent(p, q, entries@[k].name@);
            }
        },
        _ => {},
    }
}

/// What is listed for the first `n` entries of a directory lies within one of
/// them and stays inside the root.
proof fn lemma_files_among_within(entries: Seq<DirEntry>, at: Seq<char>, n: nat)
    requires
        well_named(entries),
        forall|i: int| 0 <= i < entries.len() ==> well_formed(#[trigger] entries[i].node),
        at.len() == 0 || stays_inside(at),
        n <= entries.len(),
    ensures
        forall|p: Seq<char>| #[trigger]
            files_among(entries, at, n).contains(p) ==> stays_inside(p) && exists|k: int|
                0 <= k < n && within(p, joined(at, (#[trigger] entries[k]).name@)),
    decreases entries, n,
{
    if n > 0 {
        let before = files_among(entries, at, (n - 1) as nat);
        let entry = entries[n - 1];
        let here = joined(at, entry.name@);
        let last = files_in(entry.node, here);
        lemma_files_among_within(entries, at, (n - 1) as nat);
        lemma_joined_stays_inside(at, entry.name@);
        lemma_files_in_within(entry.node, here);
        assert forall|p: Seq<char>| #[trigger]
            files_among(entries, at, n).contains(p) implies stays_inside(p) && exists|k: int|
            0 <= k < n && within(p, joined(at, (#[trigger] entries[k]).name@)) by {
            lemma_in_concat(before, last, p);
            if before.contains(p) {
                let k = choose|k: int|
                    0 <= k < n - 1 && within(p, joined(at, (#[trigger] entries[k]).name@));
                assert(0 <= k < n && within(p, joined(at, entries[k].name@)));
            } else {
                assert(within(p, joined(at, entries[n - 1].name@)));
            }
        }
    }
}

/// Nothing is listed twice at and below one place.
proof fn lemma_files_in_distinct(node: DirNode, q: Seq<char>)
    requires
        well_formed(node),
        q.len() == 0 || stays_inside(q),
    ensures
        files_in(node, q).no_duplicates(),
    decreases node, 0nat,
{
    match node {
        DirNode::Dir(entries) => {
            lemma_files_among_distinct(entries@, q, entries@.len());
        },
        _ => {},
    }
}

/// Nothing is listed twice for the first `n` entries of a directory.
proof fn lemma_files_among_distinct(entries: Seq<DirEntry>, at: Seq<char>, n: nat)
    requires
        well_named(entries),
        forall|i: int| 0 <= i < entries.len() ==> well_formed(#[trigger] entries[i].node),
        at.len() == 0 || stays_inside(at),
        n <= entries.len(),
    ensures
        files_among(entries, at, n).no_duplicates(),
    decreases entries, n,
{
    if n > 0 {
        let before = files_among(entries, at, (n - 1) as nat);
        let entry = entries[n - 1];
        let here = joined(at, entry.name@);
        let last = files_in(entry.node, here);
        lemma_files_among_distinct(entries, at, (n - 1) as nat);
        lemma_joined_stays_inside(at, entry.name@);
        lemma_files_in_distinct(entry.node, here);
        lemma_files_among_within(entries, at, (n - 1) as nat);
        lemma_files_in_within(entry.node, here);
        let base = if at.len() == 0 {
            at
        } else {
            at + seq!['/']
        };
        assert forall|i: int, j: int| 0 <= i < before.len() && 0 <= j < last.len() implies before[i]
            != last[j] by {
            let p = before[i];
            if p == last[j] {
                assert(before.contains(p));
                assert(last.contains(p));
                let k = choose|k: int|
                    0 <= k < n - 1 && within(p, joined(at, (#[trigger] entries[k]).name@));
                lemma_joined_stays_inside(at, entries[k].name@);
                assert(joined(at, entries[k].name@) =~= base + entries[k].name@);
                assert(here =~= base + entry.name@);
                lemma_siblings_apart(base, entries[k].name@, entry.name@, p);
            }
        }
        lemma_no_dup_in_concat(before, last);
    }
}

/// Each regular file under a directory is listed exactly once, by a path
/// relative to that directory that does not lead out of it, and nothing else
/// is listed.
pub proof fn lemma_each_file_listed_once(root: DirNode)
    requires
        root is Dir,
        well_formed(root),
    ensures
        files_under(root).no_duplicates(),
        forall|names: Seq<Seq<char>>| #[trigger]
            leads_to_file(root->Dir_0@, names) ==> files_under(root).contains(
                placed(Seq::empty(), names),
            ),
        forall|p: Seq<char>| #[trigger]
            files_under(root).contains(p) ==> stays_inside(p) && exists|names: Seq<Seq<char>>| #[trigger]
                leads_to_file(root->Dir_0@, names) && placed(Seq::empty(), names) == p,
{
    let entries = root->Dir_0@;
    let at = Seq::<char>::empty();
    lemma_files_in_distinct(root, at);
    assert forall|names: Seq<Seq<char>>| #[trigger]
        leads_to_file(entries, names) implies files_under(root).contains(placed(at, names)) by {
        lemma_file_is_listed(entries, at, names);
    }
    lemma_files_among_within(entries, at, entries.len());
    assert forall|p: Seq<char>| #[trigger] files_under(root).contains(p) implies stays_inside(p)
        && exists|names: Seq<Seq<char>>| #[trigger]
        leads_to_file(entries, names) && placed(at, names) == p by {
        let names = lemma_listed_is_file(entries, at, entries.len(), p);
        assert(leads_to_file(entries, names) && placed(at, names) == p);
    }
}

/// Adds to `paths` the path of each regular file at and below `entries`, which
/// stand in the directory with the path `at`.
fn collect_paths(entries: &Vec<DirEntry>, at: &str, paths: &mut Vec<String>) -> (r: Result<
    (),
    SyncError,
>)
    ensures
        match r {
            Ok(()) => {
                &&& forall|i: int|
                    0 <= i < entries@.len() ==> all_readable(#[trigger] entries@[i].node)
                &&& texts(final(paths)@) == texts(old(paths)@) + files_among(
                    entries@,
                    at@,
                    entries@.len(),
                )
            },
            Err(e) => {
                &&& e == SyncError::Io(IoOp::ReadDir)
                &&& exists|i: int|
                    0 <= i < entries@.len() && !all_readable(#[trigger] entries@[i].node)
            },
        },
    decreases entries,
{
    let mut i: usize = 0;
    while i < entries.len()
        invariant
            i <= entries.len(),
            forall|j: int| 0 <= j < i ==> all_readable(#[trigger] entries@[j].node),
            texts(paths@) == texts(old(paths)@) + files_among(entries@, at@, i as nat),
        decreases entries.len() - i,
    {
        let entry = &entries[i];
        let ghost before = paths@;
        match &entry.node {
            DirNode::File => {
                let path = join(at, entry.name.as_str());
                paths.push(path);
                assert(texts(paths@) =~= texts(before).push(path@));
            },
            DirNode::Dir(children) => {
                let below = join(at, entry.name.as_str());
                match collect_paths(children, below.as_str(), paths) {
                    Ok(()) => {},
                    Err(e) => {
                        return Err(e);
                    },
                }
            },
            DirNode::Unreadable => {
                return Err(SyncError::Io(IoOp::ReadDir));
            },
            DirNode::Link => {},
        }
        assert(texts(paths@) =~= texts(before) + files_in(
            entries@[i as int].node,
            joined(at@, entries@[i as int].name@),
        ));
        i += 1;
    }
    Ok(())
}

/// Lists the regular files under the directory `root`, each by its path
/// relative to `root`, a directory's own files in the order of its entries.
/// Links are not followed, so the listing ends whatever they point at. It
/// fails where `root` is not a directory or some directory under it could not
/// be listed.
pub fn get_all_paths(root: &DirNode) -> (r: Result<Vec<String>, SyncError>)
    ensures
        match r {
            Ok(paths) => {
                &&& *root is Dir
                &&& all_readable(*root)
                &&& texts(paths@) == files_under(*root)
            },
            Err(e) => {
                &&& e == SyncError::Io(IoOp::ReadDir)
                &&& !(*root is Dir && all_readable(*root))
            },
        },
{
    match root {
        DirNode::Dir(entries) => {
            let mut paths: Vec<String> = Vec::new();
            match collect_paths(entries, "", &mut paths) {
                Ok(()) => {
                    proof {
                        reveal_strlit("");
                        assert(""@ =~= Seq::<char>::empty());
                        assert(texts(Seq::<String>::empty()) =~= Seq::<Seq<char>>::empty());
                    }
                    Ok(paths)
                },
                Err(e) => Err(e),
            }
        },
        _ => Err(SyncError::Io(IoOp::ReadDir)),
    }
}

} // verus!
