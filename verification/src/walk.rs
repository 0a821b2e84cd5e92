//! Walking a tree and reporting the tally of each of its nodes.

use vstd::prelude::*;
use crate::aggregate::{count, index_tally};
use crate::fs::{FsEntry, ListError};
use crate::index::{file_index, make_index};
use crate::tally::Tally;
use crate::tree::{DirNode, Tree};

verus! {

/// What is reported of one node.
pub struct Report {
    /// The path of the node.
    pub location: String,
    /// How many files were indexed under the node.
    pub files: usize,
    /// The lines of these files, by extension.
    pub tally: Tally,
}

/// A report as a mathematical value.
pub ghost struct ReportView {
    pub location: Seq<char>,
    pub files: nat,
    pub tally: Map<Seq<char>, nat>,
}

impl Report {
    /// The report as a mathematical value.
    pub open spec fn view(&self) -> ReportView {
        ReportView { location: self.location@, files: self.files as nat, tally: self.tally@ }
    }
}

/// The reports of a list as mathematical values.
pub open spec fn report_views(reports: Seq<Report>) -> Seq<ReportView> {
    Seq::new(reports.len(), |i: int| reports[i]@)
}

/// Whether a node is a candidate for a report: it holds paths, and it does
/// not stand for the working directory unless the depth asked for is zero. A
/// node without a location stands for no directory.
pub open spec fn is_reported(tree: Tree, cwd: Seq<char>, depth: int) -> bool {
    tree.entries.len() > 0 && (tree.location != Some(cwd) || depth == 0)
}

/// The label under which a node is reported: its location, or nothing where
/// it has none.
pub open spec fn label(tree: Tree) -> Seq<char> {
    match tree.location {
        Some(path) => path,
        None => Seq::empty(),
    }
}

/// Every tally of the reports keeps its invariant.
pub open spec fn tallies_wf(reports: Seq<Report>) -> bool {
    forall|i: int| 0 <= i < reports.len() ==> (#[trigger] reports[i]).tally.wf()
}

/// `after` is `before` with reports added at its end, each with a tally that
/// keeps its invariant.
pub open spec fn extended(before: Seq<Report>, after: Seq<Report>) -> bool {
    &&& before.len() <= after.len()
    &&& after.take(before.len() as int) == before
    &&& forall|i: int| before.len() <= i < after.len() ==> (#[trigger] after[i]).tally.wf()
}

/// The report of one node, if it gets one: it is a candidate, and the tally
/// of its paths is not empty. Where the index of its paths cannot be built,
/// the path of the directory that could not be listed.
pub open spec fn node_report(
    tree: Tree,
    cwd: Seq<char>,
    required: Option<String>,
    excludes: Seq<String>,
    depth: int,
) -> Result<Seq<ReportView>, Seq<char>> {
    if !is_reported(tree, cwd, depth) {
        Ok(Seq::empty())
    } else {
        match file_index(tree.entries, required, excludes) {
            Err(path) => Err(path),
            Ok(index) => if index_tally(index) == Map::<Seq<char>, nat>::empty() {
                Ok(Seq::empty())
            } else {
                Ok(
                    seq![
                        ReportView {
                            location: label(tree),
                            files: index.len(),
                            tally: index_tally(index),
                        },
                    ],
                )
            },
        }
    }
}

/// The reports of a tree: that of its root, then those of its children, in
/// order. Where a directory cannot be listed, its path.
pub open spec fn walked(
    tree: Tree,
    cwd: Seq<char>,
    required: Option<String>,
    excludes: Seq<String>,
    depth: int,
) -> Result<Seq<ReportView>, Seq<char>>
    decreases tree,
{
    match node_report(tree, cwd, required, excludes, depth) {
        Err(path) => Err(path),
        Ok(own) => match walked_children(
            tree.children,
            tree.children.len(),
            cwd,
            required,
            excludes,
            depth,
        ) {
            Err(path) => Err(path),
            Ok(below) => Ok(own + below),
        },
    }
}

/// The reports of the first `n` of a node's children.
pub open spec fn walked_children(
    children: Seq<Tree>,
    n: nat,
    cwd: Seq<char>,
    required: Option<String>,
    excludes: Seq<String>,
    depth: int,
) -> Result<Seq<ReportView>, Seq<char>>
    decreases children, n,
{
    if n == 0 || n > children.len() {
        Ok(Seq::empty())
    } else {
        match walked_children(children, (n - 1) as nat, cwd, required, excludes, depth) {
            Err(path) => Err(path),
            Ok(before) => match walked(children[n - 1], cwd, required, excludes, depth) {
                Err(path) => Err(path),
                Ok(more) => Ok(before + more),
            },
        }
    }
}

/// Once a prefix of the children fails, every longer prefix fails in the
/// same way.
pub proof fn lemma_walk_error(
    children: Seq<Tree>,
    n: nat,
    m: nat,
    cwd: Seq<char>,
    required: Option<String>,
    excludes: Seq<String>,
    depth: int,
)
    requires
        n <= m <= children.len(),
        walked_children(children, n, cwd, required, excludes, depth) is Err,
    ensures
        walked_children(children, m, cwd, required, excludes, depth) == walked_children(
            children,
            n,
            cwd,
            required,
            excludes,
            depth,
        ),
    decreases m,
{
    if n < m {
        lemma_walk_error(children, n, (m - 1) as nat, cwd, required, excludes, depth);
    }
}

/// Adding reports at the end, and again, is adding reports at the end.
pub proof fn lemma_extended_twice(first: Seq<Report>, second: Seq<Report>, third: Seq<Report>)
    requires
        extended(first, second),
        extended(second, third),
    ensures
        extended(first, third),
{
    assert(third.take(first.len() as int) =~= first) by {
        assert forall|i: int| 0 <= i < first.len() implies third[i] == first[i] by {
            assert(third.take(second.len() as int)[i] == second[i]);
            assert(second.take(first.len() as int)[i] == first[i]);
        }
    }
    assert forall|i: int| first.len() <= i < third.len() implies (#[trigger] third[i]).tally.wf() by {
        if i < second.len() {
            assert(third.take(second.len() as int)[i] == second[i]);
        }
    }
}

/// Whether a node is a candidate for a report.
pub fn should_report(node: &DirNode, cwd: &String, depth: i32) -> (r: bool)
    ensures
        r == is_reported(node@, cwd@, depth as int),
{
    if node.entries.len() == 0 {
        return false;
    }
    match &node.location {
        Some(path) => depth == 0 || !(*path == *cwd),
        None => true,
    }
}

/// Tallies the paths of one node, and adds its report to `out` where the
/// node gets one.
pub fn report_node(
    node: &DirNode,
    cwd: &String,
    required: &Option<String>,
    excludes: &[String],
    depth: i32,
    out: &mut Vec<Report>,
) -> (r: Result<(), ListError>)
    ensures
        match r {
            Ok(_) => node_report(node@, cwd@, *required, excludes@, depth as int) is Ok
                && report_views(final(out)@) == report_views(old(out)@) + node_report(
                node@,
                cwd@,
                *required,
                excludes@,
                depth as int,
            )->Ok_0,
            Err(e) => node_report(node@, cwd@, *required, excludes@, depth as int) == Err::<
                Seq<ReportView>,
                Seq<char>,
            >(e.path@) && final(out)@ == old(out)@,
        },
        extended(old(out)@, final(out)@),
{
    assert(report_views(out@) =~= report_views(old(out)@) + Seq::<ReportView>::empty());
    assert(out@.take(out@.len() as int) =~= out@);
    if !should_report(node, cwd, depth) {
        return Ok(());
    }
    match make_index(&node.entries, required, excludes) {
        Err(e) => Err(e),
        Ok(index) => {
            let tally = count(&index);
            if !tally.is_empty() {
                let location = match &node.location {
                    Some(path) => path.clone(),
                    None => String::new(),
                };
                let ghost before = report_views(out@);
                let report = Report { location, files: index.len(), tally };
                out.push(report);
                assert(report_views(out@) =~= before + seq![report@]);
                assert(out@.take(old(out)@.len() as int) =~= old(out)@);
            }
            Ok(())
        },
    }
}

/// Adds the reports of a tree to `out`.
fn walk_into(
    node: &DirNode,
    cwd: &String,
    required: &Option<String>,
    excludes: &[String],
    depth: i32,
    out: &mut Vec<Report>,
) -> (r: Result<(), ListError>)
    ensures
        match r {
            Ok(_) => walked(node@, cwd@, *required, excludes@, depth as int) is Ok
                && report_views(final(out)@) == report_views(old(out)@) + walked(
                node@,
                cwd@,
                *required,
                excludes@,
                depth as int,
            )->Ok_0,
            Err(e) => walked(node@, cwd@, *required, excludes@, depth as int) == Err::<
                Seq<ReportView>,
                Seq<char>,
            >(e.path@),
        },
        extended(old(out)@, final(out)@),
    decreases node,
{
    match report_node(node, cwd, required, excludes, depth, out) {
        Ok(_) => {},
        Err(e) => {
            return Err(e);
        },
    }
    let ghost own = node_report(node@, cwd@, *required, excludes@, depth as int)->Ok_0;
    let ghost trees = node@.children;
    let mut i: usize = 0;
    assert(report_views(out@) =~= report_views(old(out)@) + (own + Seq::<ReportView>::empty()));
    while i < node.children.len()
        invariant
            i <= node.children.len(),
            trees == node@.children,
            trees.len() == node.children@.len(),
            extended(old(out)@, out@),
            node_report(node@, cwd@, *required, excludes@, depth as int) == Ok::<
                Seq<ReportView>,
                Seq<char>,
            >(own),
            walked_children(trees, i as nat, cwd@, *required, excludes@, depth as int) is Ok,
            report_views(out@) == report_views(old(out)@) + (own + walked_children(
                trees,
                i as nat,
                cwd@,
                *required,
                excludes@,
                depth as int,
            )->Ok_0),
        decreases node.children.len() - i,
    {
        let ghost before = walked_children(
            trees,
            i as nat,
            cwd@,
            *required,
            excludes@,
            depth as int,
        )->Ok_0;
        assert(trees[i as int] == node.children@[i as int]@);
        let ghost so_far = out@;
        let r = walk_into(&node.children[i], cwd, required, excludes, depth, out);
        proof {
            lemma_extended_twice(old(out)@, so_far, out@);
        }
        match r {
            Ok(_) => {
                let ghost more = walked(
                    trees[i as int],
                    cwd@,
                    *required,
                    excludes@,
                    depth as int,
                )->Ok_0;
                assert(report_views(out@) =~= report_views(old(out)@) + (own + (before + more)));
            },
            Err(e) => {
                proof {
                    lemma_walk_error(
                        trees,
                        (i + 1) as nat,
                        trees.len(),
                        cwd@,
                        *required,
                        excludes@,
                        depth as int,
                    );
                }
                return Err(e);
            },
        }
        i = i + 1;
    }
    Ok(())
}

/// Walks a tree and reports its nodes, the root before its children and
/// these in order. `cwd` is the working directory and `depth` the tree depth
/// that was asked for. Fails where a directory that a report needs cannot be
/// listed.
pub fn walk(
    node: &DirNode,
    cwd: &String,
    required: &Option<String>,
    excludes: &[String],
    depth: i32,
) -> (r: Result<Vec<Report>, ListError>)
    ensures
        match r {
            Ok(reports) => walked(node@, cwd@, *required, excludes@, depth as int) == Ok::<
                Seq<ReportView>,
                Seq<char>,
            >(report_views(reports@)),
            Err(e) => walked(node@, cwd@, *required, excludes@, depth as int) == Err::<
                Seq<ReportView>,
                Seq<char>,
            >(e.path@),
        },
        r matches Ok(reports) ==> tallies_wf(reports@),
{
    let mut out: Vec<Report> = Vec::new();
    assert(report_views(out@) =~= Seq::<ReportView>::empty());
    match walk_into(node, cwd, required, excludes, depth, &mut out) {
        Ok(_) => {
            assert(report_views(out@) =~= walked(
                node@,
                cwd@,
                *required,
                excludes@,
                depth as int,
            )->Ok_0);
            Ok(out)
        },
        Err(e) => Err(e),
    }
}

} // verus!
