//! The recursive file-discovery traversal, as a worklist machine.
//!
//! [`Discovery`] starts from the source roots and examines one pending path
//! at a time. Its caller reads each path's metadata and reports what it is
//! ([`NodeKind`]): a regular file is collected as a candidate, a directory
//! queues all of its entries for examination, and anything else (a symlink,
//! a device) is silently dropped — only the "is a regular file" check admits
//! an entry. A root that is itself a regular file therefore becomes the sole
//! candidate of its tree. No deduplication happens here: the same path
//! reported as a file twice is collected twice.

use vstd::prelude::*;

verus! {

/// What examining one pending path showed.
#[derive(Clone, PartialEq, Eq, Debug)]
pub enum NodeKind {
    /// A regular file: it becomes a candidate.
    File,
    /// A directory with these entry paths: each is queued for examination.
    Dir { entries: Vec<String> },
    /// Any other entry type: excluded from discovery.
    Other,
}

/// The traversal state: paths still to examine, and candidates found.
pub struct Discovery {
    /// Paths discovered but not yet examined.
    pub pending: Vec<String>,
    /// Regular-file paths collected so far, in the order they were reported.
    pub found: Vec<String>,
}

impl Discovery {
    /// Starts a traversal of the given source roots.
    pub fn new(roots: Vec<String>) -> (d: Discovery)
        ensures
            d.pending@ == roots@,
            d.found@ == Seq::<String>::empty(),
    {
        Discovery { pending: roots, found: Vec::new() }
    }

    /// Hands out the next path to examine, or `None` when the traversal is
    /// finished.
    pub fn next_path(&mut self) -> (p: Option<String>)
        ensures
            final(self).found@ == old(self).found@,
            old(self).pending@.len() == 0 ==> {
                &&& p is None
                &&& final(self).pending@ == old(self).pending@
            },
            old(self).pending@.len() > 0 ==> {
                &&& p == Some(old(self).pending@.last())
                &&& final(self).pending@ == old(self).pending@.drop_last()
            },
    {
        self.pending.pop()
    }

    /// Records what the path handed out by [`Discovery::next_path`] turned
    /// out to be: a file is collected, a directory's entries are queued, and
    /// any other kind leaves the traversal unchanged.
    pub fn record(&mut self, path: String, kind: NodeKind)
        ensures
            kind is File ==> {
                &&& final(self).found@ == old(self).found@.push(path)
                &&& final(self).pending@ == old(self).pending@
            },
            kind matches NodeKind::Dir { entries } ==> {
                &&& final(self).found@ == old(self).found@
                &&& final(self).pending@ == old(self).pending@ + entries@
            },
            kind is Other ==> {
                &&& final(self).found@ == old(self).found@
                &&& final(self).pending@ == old(self).pending@
            },
    {
        match kind {
            NodeKind::File => {
                self.found.push(path);
            },
            NodeKind::Dir { entries } => {
                let mut entries = entries;
                self.pending.append(&mut entries);
            },
            NodeKind::Other => {},
        }
    }

    /// How many candidates the traversal has collected so far.
    pub fn candidate_count(&self) -> (n: usize)
        ensures
            n == self.found@.len(),
    {
        self.found.len()
    }

    /// Ends the traversal and hands the collected candidates over.
    pub fn into_candidates(self) -> (v: Vec<String>)
        ensures
            v@ == self.found@,
    {
        self.found
    }
}

/// An in-memory image of a filesystem subtree: what the traversal would be
/// told about each path, laid out as the tree it comes from.
pub enum FsNode {
    /// A regular file at this path.
    File { path: String },
    /// A directory and the nodes under it.
    Dir { entries: Vec<FsNode> },
    /// Any other entry type (a symlink, a device).
    Other,
}

/// The regular-file paths under a node, in traversal order: a file is its
/// own sole result, a directory yields whatever its entries yield, in order,
/// and any other entry yields nothing.
pub open spec fn files_of(n: FsNode) -> Seq<Seq<char>>
    decreases n,
{
    match n {
        FsNode::File { path } => seq![path@],
        FsNode::Dir { entries } => files_from(entries@, 0),
        FsNode::Other => Seq::empty(),
    }
}

/// The regular-file paths under the nodes of `s`, from position `k` on.
pub open spec fn files_from(s: Seq<FsNode>, k: int) -> Seq<Seq<char>>
    decreases s, s.len() - k,
{
    if k < 0 || k >= s.len() {
        Seq::empty()
    } else {
        files_of(s[k]) + files_from(s, k + 1)
    }
}

/// Collects the regular-file paths under one node, appending them to `out`:
/// the verified body of the recursive traversal. The whole-tree law is its
/// contract — a root that is a regular file is the sole candidate of its
/// tree, and a directory contributes exactly what lies under it.
#[verifier::loop_isolation(false)]
pub fn collect_files(n: &FsNode, out: &mut Vec<String>)
    ensures
        final(out).deep_view() == old(out).deep_view() + files_of(*n),
    decreases *n,
{
    broadcast use vstd::std_specs::vec::group_vec_axioms;

    match n {
        FsNode::File { path } => {
            let ghost base = out.deep_view();
            out.push(path.clone());
            proof {
                assert(out.deep_view() =~= base + files_of(*n));
            }
        },
        FsNode::Dir { entries } => {
            let ghost base = out.deep_view();
            let mut i: usize = 0;
            while i < entries.len()
                invariant
                    i <= entries@.len(),
                    out.deep_view() + files_from(entries@, i as int) == base + files_from(
                        entries@,
                        0,
                    ),
                decreases entries@.len() - i,
            {
                let ghost before = out.deep_view();
                proof {
                    assert(decreases_to!(*n => *entries));
                    assert(decreases_to!(*entries => entries@));
                    assert(decreases_to!(entries@ => entries@[i as int]));
                }
                collect_files(&entries[i], out);
                proof {
                    assert((before + files_of(entries@[i as int])) + files_from(
                        entries@,
                        i as int + 1,
                    ) =~= before + (files_of(entries@[i as int]) + files_from(
                        entries@,
                        i as int + 1,
                    )));
                }
                i += 1;
            }
            proof {
                assert(files_from(entries@, entries@.len() as int) =~= Seq::<Seq<char>>::empty());
                assert(out.deep_view() + Seq::<Seq<char>>::empty() =~= out.deep_view());
            }
        },
        FsNode::Other => {
            proof {
                assert(out.deep_view() + files_of(*n) =~= out.deep_view());
            }
        },
    }
}

/// Collects the regular-file paths under every root, concatenated in root
/// order: the whole discovery step over an in-memory tree.
pub fn discover_tree(roots: &Vec<FsNode>) -> (v: Vec<String>)
    ensures
        v.deep_view() == files_from(roots@, 0),
{
    let mut out: Vec<String> = Vec::new();
    let mut i: usize = 0;
    while i < roots.len()
        invariant
            i <= roots@.len(),
            out.deep_view() + files_from(roots@, i as int) == files_from(roots@, 0),
        decreases roots@.len() - i,
    {
        let ghost before = out.deep_view();
        collect_files(&roots[i], &mut out);
        proof {
            assert((before + files_of(roots@[i as int])) + files_from(roots@, i as int + 1)
                =~= before + (files_of(roots@[i as int]) + files_from(roots@, i as int + 1)));
        }
        i += 1;
    }
    proof {
        assert(files_from(roots@, roots@.len() as int) =~= Seq::<Seq<char>>::empty());
        assert(out.deep_view() + Seq::<Seq<char>>::empty() =~= out.deep_view());
    }
    out
}

} // verus!
