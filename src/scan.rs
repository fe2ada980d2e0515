//! A whole scan: the walk from the projects root, then the selection.

use vstd::prelude::*;
use crate::tree::{Node, ScanError, MAX_PROJECTS};
use crate::freshness::Project;
use crate::walker::{add_projects, found_all, views};
use crate::select::{is_top_of, select, sorted_desc};

verus! {

/// Walks the listing of the projects root (`None` where it could not be
/// read) from depth 0, and keeps the latest `MAX_PROJECTS` projects found,
/// latest first.
pub fn all_projects(root: &Option<Vec<Node>>) -> (r: Result<Vec<Project>, ScanError>)
    ensures
        match root {
            None => r is Err,
            Some(c) => match found_all(c@, 0) {
                None => r is Err,
                Some(ps) => r is Ok && r->Ok_0@.len() <= MAX_PROJECTS && sorted_desc(views(r->Ok_0@))
                    && is_top_of(views(r->Ok_0@), ps),
            },
        },
{
    match root {
        None => Err(ScanError::Unreadable),
        Some(entries) => {
            let mut projects: Vec<Project> = Vec::new();
            add_projects(&mut projects, entries, 0)?;
            assert(views(projects@) =~= found_all(entries@, 0)->Some_0);
            Ok(select(projects))
        },
    }
}

} // verus!
