//! Freshness of a subtree: the latest modification time of the files under
//! it, with excluded directories pruned.

use vstd::prelude::*;
use vstd::string::StringExecFns;
use crate::tree::{excluded, stamp, to_timestamp, should_exclude, Node, ScanError};

verus! {

/// A detected project root and the freshness of its subtree.
pub struct Project {
    pub path: String,
    pub modified: u64,
}

impl View for Project {
    type V = (Seq<char>, u64);

    open spec fn view(&self) -> (Seq<char>, u64) {
        (self.path@, self.modified)
    }
}

/// What an entry contributes to the freshness of the listing it stands in:
/// `None` where reading it fails.
pub open spec fn freshness(n: Node) -> Option<u64>
    decreases n,
{
    match n {
        Node::Broken => None,
        Node::Unknown { .. } => None,
        Node::File { modified, .. } => match modified {
            None => None,
            Some(t) => Some(stamp(t)),
        },
        Node::Dir { name, path, children } => if excluded(name@) || path is None {
            Some(0)
        } else {
            match children {
                None => None,
                Some(c) => freshness_all(c@),
            }
        },
    }
}

/// The freshness of a whole listing: the largest contribution of its
/// entries, 0 for none, and `None` where any entry fails.
pub open spec fn freshness_all(s: Seq<Node>) -> Option<u64>
    decreases s,
{
    if s.len() == 0 {
        Some(0)
    } else {
        match (freshness_all(s.subrange(0, s.len() - 1)), freshness(s[s.len() - 1])) {
            (Some(a), Some(b)) => Some(if a >= b { a } else { b }),
            _ => None,
        }
    }
}

proof fn lemma_failure_spreads(s: Seq<Node>, i: int)
    requires
        0 <= i <= s.len(),
        freshness_all(s.subrange(0, i)) is None,
    ensures
        freshness_all(s) is None,
    decreases s.len() - i,
{
    if i < s.len() {
        let p = s.subrange(0, i + 1);
        assert(p.subrange(0, p.len() - 1) =~= s.subrange(0, i));
        lemma_failure_spreads(s, i + 1);
    } else {
        assert(s.subrange(0, i) =~= s);
    }
}

/// Whether some file that the freshness of an entry takes into account has
/// modification time `t`: a readable file itself, or one found below a
/// readable directory that is not excluded.
pub open spec fn counts_time(n: Node, t: u64) -> bool
    decreases n,
{
    match n {
        Node::File { modified, .. } => match modified {
            Some(m) => stamp(m) == t,
            None => false,
        },
        Node::Dir { name, path, children } => if excluded(name@) || path is None {
            false
        } else {
            match children {
                Some(c) => counts_time_all(c@, t),
                None => false,
            }
        },
        _ => false,
    }
}

/// Whether some entry of a listing takes a file of time `t` into account.
pub open spec fn counts_time_all(s: Seq<Node>, t: u64) -> bool
    decreases s,
{
    exists|i: int| 0 <= i < s.len() && counts_time(#[trigger] s[i], t)
}

proof fn lemma_entry_is_max(n: Node, r: u64)
    requires
        freshness(n) == Some(r),
    ensures
        forall|t: u64| counts_time(n, t) ==> t <= r,
        r == 0 || counts_time(n, r),
    decreases n,
{
    if let Node::Dir { name, path, children } = n {
        if !excluded(name@) && path is Some {
            if let Some(c) = children {
                assert(decreases_to!(n => c@));
                lemma_listing_is_max(c@, r);
                assert forall|t: u64| counts_time(n, t) implies t <= r by {
                    assert(counts_time_all(c@, t));
                }
            }
        }
    }
}

/// The freshness of a listing is the latest modification time among the
/// files it takes into account (those not below an excluded directory), and
/// 0 where it takes none into account: an empty listing, or one of excluded
/// directories only.
pub proof fn lemma_listing_is_max(s: Seq<Node>, r: u64)
    requires
        freshness_all(s) == Some(r),
    ensures
        forall|t: u64| counts_time_all(s, t) ==> t <= r,
        r == 0 || counts_time_all(s, r),
        (forall|i: int| 0 <= i < s.len() ==> !counts_time(#[trigger] s[i], r)) ==> r == 0,
    decreases s,
{
    if s.len() > 0 {
        let q = s.subrange(0, s.len() - 1);
        let last = s[s.len() - 1];
        let a = freshness_all(q)->Some_0;
        let b = freshness(last)->Some_0;
        lemma_listing_is_max(q, a);
        lemma_entry_is_max(last, b);
        assert forall|t: u64| counts_time_all(s, t) implies t <= r by {
            let i = choose|i: int| 0 <= i < s.len() && counts_time(#[trigger] s[i], t);
            if i < s.len() - 1 {
                assert(q[i] == s[i]);
                assert(counts_time_all(q, t));
            } else {
                assert(counts_time(last, t));
            }
        }
        if a >= b {
            if a != 0 {
                let i = choose|i: int| 0 <= i < q.len() && counts_time(#[trigger] q[i], a);
                assert(s[i] == q[i]);
            }
        } else {
            assert(counts_time(s[s.len() - 1], r));
        }
    }
}

/// The freshness of a listing: the latest modification time among the files
/// below it, not descending into excluded directories; 0 where there is none.
pub fn max_timestamp(entries: &Vec<Node>) -> (r: Result<u64, ScanError>)
    ensures
        match freshness_all(entries@) {
            Some(t) => r == Ok::<u64, ScanError>(t),
            None => r is Err,
        },
    decreases entries@,
{
    let mut timestamp: u64 = 0;
    let mut i: usize = 0;
    while i < entries.len()
        invariant
            0 <= i <= entries@.len(),
            freshness_all(entries@.subrange(0, i as int)) == Some(timestamp),
        decreases entries@.len() - i,
    {
        let ghost p = entries@.subrange(0, i + 1);
        assert(p.subrange(0, p.len() - 1) =~= entries@.subrange(0, i as int));
        assert(p[p.len() - 1] == entries@[i as int]);
        let entry = &entries[i];
        let contribution: u64 = match entry {
            Node::Broken | Node::Unknown { .. } => {
                proof {
                    assert(freshness(p[p.len() - 1]) is None);
                    assert(freshness_all(p) is None);
                    lemma_failure_spreads(entries@, i + 1);
                }
                return Err(ScanError::Unreadable);
            },
            Node::File { modified, .. } => match modified {
                None => {
                    proof { lemma_failure_spreads(entries@, i + 1); }
                    return Err(ScanError::Unreadable);
                },
                Some(t) => to_timestamp(*t),
            },
            Node::Dir { name, path, children } => {
                if should_exclude(name.as_str()) || path.is_none() {
                    0
                } else {
                    match children {
                        None => {
                            proof { lemma_failure_spreads(entries@, i + 1); }
                            return Err(ScanError::Unreadable);
                        },
                        Some(c) => {
                            assert(decreases_to!(entries@ => c@));
                            match max_timestamp(c) {
                                Ok(t) => t,
                                Err(e) => {
                                    proof { lemma_failure_spreads(entries@, i + 1); }
                                    return Err(e);
                                },
                            }
                        },
                    }
                }
            },
        };
        if contribution > timestamp {
            timestamp = contribution;
        }
        i = i + 1;
    }
    assert(entries@.subrange(0, i as int) =~= entries@);
    Ok(timestamp)
}

/// A project for the directory at `path` whose listing is `entries`, with
/// the listing's freshness.
pub fn create_project(path: &str, entries: &Vec<Node>) -> (r: Result<Project, ScanError>)
    ensures
        match freshness_all(entries@) {
            Some(t) => r is Ok && r->Ok_0@ == (path@, t),
            None => r is Err,
        },
{
    let modified = max_timestamp(entries)?;
    Ok(Project { path: String::from_str(path), modified })
}

} // verus!
