//! A whole scan: from the paths given to the reports of their tree.

use vstd::prelude::*;
use crate::fs::{FsEntry, ListError};
use crate::tree::{built, location_view, make_tree};
use crate::walk::{report_views, tallies_wf, walk, walked, Report, ReportView};

verus! {

/// The recursion budget that a requested tree depth stands for: a depth of
/// zero flattens everything into one listing, a positive depth `n` expands
/// `n + 1` levels of directories.
pub open spec fn budget_of(depth: u8) -> int {
    if depth > 0 {
        depth + 1
    } else {
        0
    }
}

/// The location of the root: the working directory at depth zero, none
/// where the tree is expanded.
pub open spec fn root_of(cwd: Seq<char>, depth: u8) -> Option<Seq<char>> {
    if depth == 0 {
        Some(cwd)
    } else {
        None
    }
}

/// The reports of a scan: the tree over the roots is built with the budget
/// of the depth, and walked.
pub open spec fn scanned(
    roots: Seq<FsEntry>,
    cwd: Seq<char>,
    required: Option<String>,
    excludes: Seq<String>,
    depth: u8,
) -> Result<Seq<ReportView>, Seq<char>> {
    match built(root_of(cwd, depth), roots, excludes, budget_of(depth)) {
        Err(path) => Err(path),
        Ok(tree) => walked(tree, cwd, required, excludes, depth as int),
    }
}

/// Computes the recursion budget for a requested tree depth.
pub fn depth_budget(depth: u8) -> (budget: i32)
    ensures
        budget == budget_of(depth),
{
    if depth > 0 {
        depth as i32 + 1
    } else {
        0
    }
}

/// Scans the given roots and reports on their tree. `cwd` is the working
/// directory, `required` the one extension asked for, `excludes` the names
/// and extensions to leave out, and `depth` how many levels to report apart.
pub fn scan(
    roots: &Vec<FsEntry>,
    cwd: &String,
    required: &Option<String>,
    excludes: &[String],
    depth: u8,
) -> (r: Result<Vec<Report>, ListError>)
    ensures
        match r {
            Ok(reports) => scanned(roots@, cwd@, *required, excludes@, depth) == Ok::<
                Seq<ReportView>,
                Seq<char>,
            >(report_views(reports@)),
            Err(e) => scanned(roots@, cwd@, *required, excludes@, depth) == Err::<
                Seq<ReportView>,
                Seq<char>,
            >(e.path@),
        },
        r matches Ok(reports) ==> tallies_wf(reports@),
{
    let location = if depth == 0 {
        Some(cwd.clone())
    } else {
        None
    };
    match make_tree(location, roots, excludes, depth_budget(depth)) {
        Err(e) => Err(e),
        Ok(tree) => walk(&tree, cwd, required, excludes, depth as i32),
    }
}

} // verus!
