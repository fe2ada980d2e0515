//! Choosing the most recently modified projects.

use vstd::prelude::*;
use vstd::multiset::Multiset;
use crate::tree::MAX_PROJECTS;
use crate::freshness::Project;
use crate::walker::views;

verus! {

broadcast use vstd::seq_lib::group_to_multiset_ensures, vstd::multiset::group_multiset_axioms;

/// Whether the times of a sequence of projects never increase.
pub open spec fn sorted_desc(s: Seq<(Seq<char>, u64)>) -> bool {
    forall|i: int, j: int| 0 <= i < j < s.len() ==> s[i].1 >= s[j].1
}

/// Whether `r` is what the selection keeps of `s`: the first `MAX_PROJECTS`
/// entries of some reordering of `s` by time, latest first. Entries of
/// equal time may come in either order.
pub open spec fn is_top_of(r: Seq<(Seq<char>, u64)>, s: Seq<(Seq<char>, u64)>) -> bool {
    exists|p: Seq<(Seq<char>, u64)>|
        p.to_multiset() == s.to_multiset() && sorted_desc(p) && r == p.take(
            if s.len() <= MAX_PROJECTS { s.len() as int } else { MAX_PROJECTS as int },
        )
}

/// Sorts the projects by time, latest first, and keeps at most
/// `MAX_PROJECTS` of them.
pub fn select(projects: Vec<Project>) -> (r: Vec<Project>)
    ensures
        r@.len() <= MAX_PROJECTS,
        r@.len() == if projects@.len() <= MAX_PROJECTS { projects@.len() } else { MAX_PROJECTS as nat },
        sorted_desc(views(r@)),
        is_top_of(views(r@), views(projects@)),
{
    let ghost all = views(projects@);
    let mut rest = projects;
    let mut sorted: Vec<Project> = Vec::new();
    assert(views(sorted@).to_multiset() =~= Multiset::empty());
    while rest.len() > 0
        invariant
            sorted@.len() + rest@.len() == all.len(),
            sorted_desc(views(sorted@)),
            views(sorted@).to_multiset().add(views(rest@).to_multiset()) == all.to_multiset(),
        decreases rest@.len(),
    {
        let ghost before = rest@;
        let project = rest.pop().unwrap();
        assert(views(before) =~= views(rest@).push(project@));
        let mut j: usize = 0;
        while j < sorted.len() && sorted[j].modified >= project.modified
            invariant
                0 <= j <= sorted@.len(),
                forall|k: int| 0 <= k < j ==> sorted@[k].modified >= project.modified,
            decreases sorted@.len() - j,
        {
            j = j + 1;
        }
        let ghost old_sorted = sorted@;
        let ghost v = views(old_sorted);
        sorted.insert(j, project);
        assert(views(sorted@) =~= v.insert(j as int, project@));
        assert forall|a: int, b: int| 0 <= a < b < sorted@.len() implies
            views(sorted@)[a].1 >= views(sorted@)[b].1 by {
            if b < j {
            } else if b == j {
            } else if a < j {
                assert(views(sorted@)[b] == v[b - 1]);
                if j < old_sorted.len() {
                    assert(v[j as int].1 >= v[b - 1].1);
                }
            } else if a == j {
                assert(views(sorted@)[b] == v[b - 1]);
                assert(v[j as int].1 >= v[b - 1].1);
            } else {
                assert(views(sorted@)[a] == v[a - 1]);
                assert(views(sorted@)[b] == v[b - 1]);
            }
        }
        assert(views(sorted@).to_multiset() =~= v.to_multiset().insert(project@));
        assert(views(before).to_multiset() =~= views(rest@).to_multiset().insert(project@));
        assert(views(sorted@).to_multiset().add(views(rest@).to_multiset()) =~= all.to_multiset());
    }
    assert(views(rest@).to_multiset() =~= Multiset::empty());
    let ghost full = views(sorted@);
    assert(full.to_multiset() =~= all.to_multiset());
    sorted.truncate(MAX_PROJECTS);
    assert(views(sorted@) =~= full.take(
        if all.len() <= MAX_PROJECTS { all.len() as int } else { MAX_PROJECTS as int },
    ));
    sorted
}

} // verus!
