//! The bounded walk that finds project roots: a directory with a direct
//! child named `.git` is reported and not descended into; any other
//! directory is descended into while the depth allows.

use vstd::prelude::*;
use vstd::string::StringExecFns;
use crate::tree::{git_marked, git_name, name_of, Node, ScanError, MAX_DEPTH};
use crate::freshness::{create_project, freshness_all, Project};

verus! {

/// The views of a sequence of projects.
pub open spec fn views(s: Seq<Project>) -> Seq<(Seq<char>, u64)> {
    s.map_values(|p: Project| p@)
}

/// Whether a directory entry is a project root: `None` where its listing
/// cannot be read far enough to tell. A directory whose path is not valid
/// UTF-8 is never one.
pub open spec fn project_marker(n: Node) -> Option<bool> {
    match n {
        Node::Dir { path, children, .. } => if path is None {
            Some(false)
        } else {
            match children {
                None => None,
                Some(c) => git_marked(c@),
            }
        },
        _ => Some(false),
    }
}

/// The projects that the walk finds through one entry of a listing walked
/// at `depth`, in order, or `None` where the walk fails.
pub open spec fn found(n: Node, depth: nat) -> Option<Seq<(Seq<char>, u64)>>
    decreases n,
{
    match n {
        Node::Broken => None,
        Node::Unknown { .. } => None,
        Node::File { .. } => Some(Seq::empty()),
        Node::Dir { path, children, .. } => match path {
            None => Some(Seq::empty()),
            Some(p) => match children {
                None => None,
                Some(c) => match git_marked(c@) {
                    None => None,
                    Some(true) => match freshness_all(c@) {
                        None => None,
                        Some(t) => Some(seq![(p@, t)]),
                    },
                    Some(false) => if depth < MAX_DEPTH {
                        found_all(c@, depth + 1)
                    } else {
                        Some(Seq::empty())
                    },
                },
            },
        },
    }
}

/// The projects that the walk finds through a listing walked at `depth`, in
/// the order of the entries, or `None` where the walk of any entry fails.
pub open spec fn found_all(s: Seq<Node>, depth: nat) -> Option<Seq<(Seq<char>, u64)>>
    decreases s,
{
    if s.len() == 0 {
        Some(Seq::empty())
    } else {
        match (found_all(s.subrange(0, s.len() - 1), depth), found(s[s.len() - 1], depth)) {
            (Some(a), Some(b)) => Some(a + b),
            _ => None,
        }
    }
}

proof fn lemma_walk_failure_spreads(s: Seq<Node>, i: int, depth: nat)
    requires
        0 <= i <= s.len(),
        found_all(s.subrange(0, i), depth) is None,
    ensures
        found_all(s, depth) is None,
    decreases s.len() - i,
{
    if i < s.len() {
        let p = s.subrange(0, i + 1);
        assert(p.subrange(0, p.len() - 1) =~= s.subrange(0, i));
        lemma_walk_failure_spreads(s, i + 1, depth);
    } else {
        assert(s.subrange(0, i) =~= s);
    }
}

/// A listing with a child named `.git` marks its directory as a project
/// root, whatever kind of entry that child is, provided that every entry
/// listed before it could be read.
pub proof fn lemma_git_child_marks(s: Seq<Node>, i: int)
    requires
        0 <= i < s.len(),
        name_of(s[i]) == Some(git_name()),
        forall|j: int| 0 <= j < i ==> !(#[trigger] s[j] is Broken),
    ensures
        git_marked(s) == Some(true),
    decreases i,
{
    if i > 0 {
        let rest = s.subrange(1, s.len() as int);
        assert(!(s[0] is Broken));
        assert forall|j: int| 0 <= j < i - 1 implies !(#[trigger] rest[j] is Broken) by {
            assert(rest[j] == s[j + 1]);
        }
        lemma_git_child_marks(rest, i - 1);
    }
}

/// A directory that is not a project root, met at `MAX_DEPTH` or deeper,
/// yields no project and no error, whatever lies below it.
pub proof fn lemma_deep_plain_dir_is_silent(n: Node, depth: nat)
    requires
        n is Dir,
        depth >= MAX_DEPTH,
        project_marker(n) == Some(false),
    ensures
        found(n, depth) == Some(Seq::<(Seq<char>, u64)>::empty()),
{
}

/// A project root yields exactly one project, for itself, at any depth:
/// the walk does not look for further project roots below it.
pub proof fn lemma_project_root_is_leaf(n: Node, depth: nat)
    requires
        n is Dir,
        project_marker(n) == Some(true),
    ensures
        found(n, depth) == match project_of(n) {
            Some(Some(v)) => Some(seq![v]),
            _ => None,
        },
{
}

/// Whether a directory is a project root: whether its listing has a child
/// named `.git`, checked in listing order.
pub fn is_project_dir(entry: &Node) -> (r: Result<bool, ScanError>)
    requires
        entry is Dir,
    ensures
        match project_marker(*entry) {
            Some(b) => r == Ok::<bool, ScanError>(b),
            None => r is Err,
        },
{
    let (path, children) = match entry {
        Node::Dir { path, children, .. } => (path, children),
        _ => { return Ok(false); },
    };
    if path.is_none() {
        return Ok(false);
    }
    let listing = match children {
        None => { return Err(ScanError::Unreadable); },
        Some(c) => c,
    };
    assert(project_marker(*entry) == git_marked(listing@));
    let git = String::from_str(".git");
    let mut i: usize = 0;
    assert(listing@.subrange(0, listing@.len() as int) =~= listing@);
    while i < listing.len()
        invariant
            0 <= i <= listing@.len(),
            git@ == git_name(),
            project_marker(*entry) == git_marked(listing@),
            git_marked(listing@) == git_marked(listing@.subrange(i as int, listing@.len() as int)),
        decreases listing@.len() - i,
    {
        let ghost rest = listing@.subrange(i as int, listing@.len() as int);
        assert(rest.subrange(1, rest.len() as int) =~= listing@.subrange(i + 1, listing@.len() as int));
        assert(rest[0] == listing@[i as int]);
        let name = match &listing[i] {
            Node::Broken => {
                assert(git_marked(rest) is None);
                return Err(ScanError::Unreadable);
            },
            Node::Unknown { name } => name,
            Node::File { name, .. } => name,
            Node::Dir { name, .. } => name,
        };
        assert(name_of(rest[0]) == Some(name@));
        if *name == git {
            assert(git_marked(rest) == Some(true));
            return Ok(true);
        }
        i = i + 1;
    }
    Ok(false)
}

/// The project that a directory entry stands for, as `to_project` builds
/// it: `None` where the walk fails, `Some(None)` where the path is not
/// valid UTF-8.
pub open spec fn project_of(n: Node) -> Option<Option<(Seq<char>, u64)>> {
    match n {
        Node::Dir { path, children, .. } => match path {
            None => Some(None),
            Some(p) => match children {
                None => None,
                Some(c) => match freshness_all(c@) {
                    None => None,
                    Some(t) => Some(Some((p@, t))),
                },
            },
        },
        _ => None,
    }
}

/// The project for a directory entry: its path and the freshness of its
/// listing.
pub fn to_project(entry: &Node) -> (r: Result<Option<Project>, ScanError>)
    requires
        entry is Dir,
    ensures
        match project_of(*entry) {
            None => r is Err,
            Some(None) => r is Ok && r->Ok_0 is None,
            Some(Some(v)) => r is Ok && r->Ok_0 is Some && r->Ok_0->Some_0@ == v,
        },
{
    match entry {
        Node::Dir { path, children, .. } => match path {
            None => Ok(None),
            Some(p) => match children {
                None => Err(ScanError::Unreadable),
                Some(c) => Ok(Some(create_project(p.as_str(), c)?)),
            },
        },
        _ => Err(ScanError::Unreadable),
    }
}

/// Walks a listing at `depth` and appends, in listing order, a project for
/// each project root found: a directory marked by a `.git` child is
/// reported and not descended into; another directory is descended into
/// only while `depth < MAX_DEPTH`. Any read failure on the way ends the walk
/// with an error; the projects appended until then stay.
pub fn add_projects(projects: &mut Vec<Project>, entries: &Vec<Node>, depth: u32) -> (r: Result<(), ScanError>)
    ensures
        old(projects)@.len() <= final(projects)@.len(),
        final(projects)@.subrange(0, old(projects)@.len() as int) == old(projects)@,
        match found_all(entries@, depth as nat) {
            Some(ps) => r is Ok && views(final(projects)@) == views(old(projects)@) + ps,
            None => r is Err,
        },
    decreases entries@,
{
    let ghost start = projects@;
    let mut i: usize = 0;
    assert(views(start) + found_all(entries@.subrange(0, 0), depth as nat)->Some_0 =~= views(start));
    while i < entries.len()
        invariant
            0 <= i <= entries@.len(),
            start == old(projects)@,
            start.len() <= projects@.len(),
            projects@.subrange(0, start.len() as int) == start,
            found_all(entries@.subrange(0, i as int), depth as nat) is Some,
            views(projects@) == views(start) + found_all(entries@.subrange(0, i as int), depth as nat)->Some_0,
        decreases entries@.len() - i,
    {
        let ghost pre = projects@;
        let ghost p = entries@.subrange(0, i + 1);
        assert(p.subrange(0, p.len() - 1) =~= entries@.subrange(0, i as int));
        assert(p[p.len() - 1] == entries@[i as int]);
        let entry = &entries[i];
        let failed = match entry {
            Node::Broken => true,
            Node::Unknown { .. } => true,
            _ => false,
        };
        if failed {
            proof {
                assert(found(entries@[i as int], depth as nat) is None);
                assert(found_all(p, depth as nat) is None);
                lemma_walk_failure_spreads(entries@, i + 1, depth as nat);
            }
            return Err(ScanError::Unreadable);
        }
        if let Node::Dir { path, children, .. } = entry {
            let marked = match is_project_dir(entry) {
                Ok(b) => b,
                Err(e) => {
                    proof {
                        assert(found_all(p, depth as nat) is None);
                        lemma_walk_failure_spreads(entries@, i + 1, depth as nat);
                    }
                    return Err(e);
                },
            };
            if marked {
                match to_project(entry) {
                    Ok(Some(project)) => {
                        projects.push(project);
                        proof {
                            assert(projects@.subrange(0, start.len() as int) =~= start);
                            assert(views(projects@) =~= views(pre).push(project@));
                        }
                    },
                    Ok(None) => {},
                    Err(e) => {
                        proof {
                            assert(found_all(p, depth as nat) is None);
                            lemma_walk_failure_spreads(entries@, i + 1, depth as nat);
                        }
                        return Err(e);
                    },
                }
            } else if depth < MAX_DEPTH {
                if let (Some(_), Some(c)) = (path, children) {
                    assert(decreases_to!(entries@ => c@));
                    match add_projects(projects, c, depth + 1) {
                        Ok(()) => {},
                        Err(e) => {
                            proof {
                                assert(found_all(p, depth as nat) is None);
                                lemma_walk_failure_spreads(entries@, i + 1, depth as nat);
                            }
                            return Err(e);
                        },
                    }
                    proof {
                        assert(projects@.subrange(0, start.len() as int) =~= start) by {
                            assert(projects@.subrange(0, pre.len() as int) == pre);
                            assert forall|k: int| 0 <= k < start.len() implies projects@[k] == start[k] by {
                                assert(projects@[k] == projects@.subrange(0, pre.len() as int)[k]);
                                assert(pre[k] == pre.subrange(0, start.len() as int)[k]);
                            }
                        }
                    }
                }
            }
        }
        i = i + 1;
    }
    assert(entries@.subrange(0, i as int) =~= entries@);
    Ok(())
}

} // verus!
