//! The directory tree of a scan, expanded to a bounded depth.

use vstd::prelude::*;
use crate::filter::{excluded, should_exclude};
use crate::fs::{pointees, FsEntry, FsKind, ListError};

verus! {

/// One level of the tree: the paths that belong to it, and a child for each
/// directory that was expanded.
pub struct DirNode<'a> {
    /// The directory that the node stands for; none for the root of a tree
    /// that is expanded.
    pub location: Option<String>,
    /// The paths of this level that pass the filter.
    pub entries: Vec<&'a FsEntry>,
    /// The expanded directories of this level.
    pub children: Vec<DirNode<'a>>,
}

/// A tree as a mathematical value.
pub ghost struct Tree {
    pub location: Option<Seq<char>>,
    pub entries: Seq<FsEntry>,
    pub children: Seq<Tree>,
}

/// The location of a node as characters.
pub open spec fn location_view(location: Option<String>) -> Option<Seq<char>> {
    match location {
        Some(path) => Some(path@),
        None => None,
    }
}

impl<'a> DirNode<'a> {
    /// The tree that the node stands for.
    pub open spec fn view(&self) -> Tree
        decreases self,
    {
        Tree {
            location: location_view(self.location),
            entries: pointees(self.entries@),
            children: Seq::new(
                self.children@.len(),
                |i: int|
                    if 0 <= i < self.children@.len() {
                        self.children@[i].view()
                    } else {
                        arbitrary()
                    },
            ),
        }
    }
}

/// Whether the tree builder expands an entry: it is a directory, and budget
/// is left.
pub open spec fn expands(entry: FsEntry, budget: int) -> bool {
    entry.is_dir() && budget > 0
}

/// The first `n` of the given paths that pass the filter, in order.
pub open spec fn kept_entries(paths: Seq<FsEntry>, n: nat, excludes: Seq<String>) -> Seq<FsEntry>
    decreases n,
{
    if n == 0 || n > paths.len() {
        Seq::empty()
    } else if excluded(paths[n - 1].name@, None, excludes) {
        kept_entries(paths, (n - 1) as nat, excludes)
    } else {
        kept_entries(paths, (n - 1) as nat, excludes).push(paths[n - 1])
    }
}

/// The children that the first `n` of the given paths get: one for each
/// directory that passes the filter, while budget is left. Where a directory
/// to expand cannot be listed, its path.
pub open spec fn built_children(
    paths: Seq<FsEntry>,
    n: nat,
    excludes: Seq<String>,
    budget: int,
) -> Result<Seq<Tree>, Seq<char>>
    decreases budget, n,
{
    if n == 0 || n > paths.len() {
        Ok(Seq::empty())
    } else {
        match built_children(paths, (n - 1) as nat, excludes, budget) {
            Err(path) => Err(path),
            Ok(before) => {
                let entry = paths[n - 1];
                if excluded(entry.name@, None, excludes) || !expands(entry, budget) {
                    Ok(before)
                } else {
                    match entry.kind {
                        FsKind::Dir { listing: Some(children) } => match built(
                            Some(entry.path@),
                            children@,
                            excludes,
                            budget - 1,
                        ) {
                            Ok(child) => Ok(before.push(child)),
                            Err(path) => Err(path),
                        },
                        _ => Err(entry.path@),
                    }
                }
            },
        }
    }
}

/// The tree over the given paths. With a negative budget it is empty. Else
/// it holds the paths that pass the filter, and below them a child for each
/// directory among these, built from the directory's listing with a budget
/// one less, as long as the budget is above zero.
pub open spec fn built(
    location: Option<Seq<char>>,
    paths: Seq<FsEntry>,
    excludes: Seq<String>,
    budget: int,
) -> Result<Tree, Seq<char>>
    decreases budget, paths.len() + 1,
{
    if budget < 0 {
        Ok(Tree { location, entries: Seq::empty(), children: Seq::empty() })
    } else {
        match built_children(paths, paths.len(), excludes, budget) {
            Ok(children) => Ok(
                Tree { location, entries: kept_entries(paths, paths.len(), excludes), children },
            ),
            Err(path) => Err(path),
        }
    }
}

/// No path of the tree, at any level, is one that the filter rejects.
pub open spec fn passes_filter(tree: Tree, excludes: Seq<String>) -> bool
    decreases tree,
{
    &&& forall|i: int|
        0 <= i < tree.entries.len() ==> !excluded(
            (#[trigger] tree.entries[i]).name@,
            None,
            excludes,
        )
    &&& forall|i: int|
        0 <= i < tree.children.len() ==> passes_filter(#[trigger] tree.children[i], excludes)
}

/// The tree has children only while budget is left, level by level.
pub open spec fn within_budget(tree: Tree, budget: int) -> bool
    decreases tree,
{
    tree.children.len() > 0 ==> budget > 0 && forall|i: int|
        0 <= i < tree.children.len() ==> within_budget(#[trigger] tree.children[i], budget - 1)
}

/// The paths that are kept pass the filter.
pub proof fn lemma_kept_entries_pass(paths: Seq<FsEntry>, n: nat, excludes: Seq<String>)
    ensures
        forall|i: int|
            0 <= i < kept_entries(paths, n, excludes).len() ==> !excluded(
                (#[trigger] kept_entries(paths, n, excludes)[i]).name@,
                None,
                excludes,
            ),
    decreases n,
{
    if !(n == 0 || n > paths.len()) {
        lemma_kept_entries_pass(paths, (n - 1) as nat, excludes);
    }
}

/// The children that are built pass the filter and stay within the budget.
pub proof fn lemma_children_well_formed(
    paths: Seq<FsEntry>,
    n: nat,
    excludes: Seq<String>,
    budget: int,
)
    requires
        built_children(paths, n, excludes, budget) is Ok,
    ensures
        ({
            let children = built_children(paths, n, excludes, budget)->Ok_0;
            &&& children.len() > 0 ==> budget > 0
            &&& forall|i: int|
                0 <= i < children.len() ==> passes_filter(#[trigger] children[i], excludes)
                    && within_budget(children[i], budget - 1)
        }),
    decreases budget, n,
{
    if !(n == 0 || n > paths.len()) {
        lemma_children_well_formed(paths, (n - 1) as nat, excludes, budget);
        let entry = paths[n - 1];
        if !(excluded(entry.name@, None, excludes) || !expands(entry, budget)) {
            match entry.kind {
                FsKind::Dir { listing: Some(below) } => {
                    lemma_built_well_formed(Some(entry.path@), below@, excludes, budget - 1);
                },
                _ => {},
            }
        }
    }
}

/// The invariant of a tree: none of its paths is one that the filter
/// rejects, and it is no deeper than its budget allows.
pub proof fn lemma_built_well_formed(
    location: Option<Seq<char>>,
    paths: Seq<FsEntry>,
    excludes: Seq<String>,
    budget: int,
)
    requires
        built(location, paths, excludes, budget) is Ok,
    ensures
        passes_filter(built(location, paths, excludes, budget)->Ok_0, excludes),
        within_budget(built(location, paths, excludes, budget)->Ok_0, budget),
    decreases budget, paths.len() + 1,
{
    if budget >= 0 {
        lemma_children_well_formed(paths, paths.len(), excludes, budget);
        lemma_kept_entries_pass(paths, paths.len(), excludes);
    }
}

/// Once a prefix of the paths fails to expand, every longer prefix fails in
/// the same way.
pub proof fn lemma_children_error(
    paths: Seq<FsEntry>,
    n: nat,
    m: nat,
    excludes: Seq<String>,
    budget: int,
)
    requires
        n <= m <= paths.len(),
        built_children(paths, n, excludes, budget) is Err,
    ensures
        built_children(paths, m, excludes, budget) == built_children(paths, n, excludes, budget),
    decreases m,
{
    if n < m {
        lemma_children_error(paths, n, (m - 1) as nat, excludes, budget);
    }
}

/// Builds the tree over the given paths, tagged with `location`. Fails at
/// the first directory that is to be expanded and cannot be listed.
pub fn make_tree<'a>(
    location: Option<String>,
    paths: &'a Vec<FsEntry>,
    excludes: &[String],
    budget: i32,
) -> (r: Result<DirNode<'a>, ListError>)
    ensures
        match r {
            Ok(node) => built(location_view(location), paths@, excludes@, budget as int) == Ok::<
                Tree,
                Seq<char>,
            >(node@),
            Err(e) => built(location_view(location), paths@, excludes@, budget as int) == Err::<
                Tree,
                Seq<char>,
            >(e.path@),
        },
    decreases budget,
{
    let mut entries: Vec<&'a FsEntry> = Vec::new();
    let mut children: Vec<DirNode<'a>> = Vec::new();
    if budget < 0 {
        let node = DirNode { location, entries, children };
        assert(node@.entries =~= Seq::<FsEntry>::empty());
        assert(node@.children =~= Seq::<Tree>::empty());
        return Ok(node);
    }
    let ghost mut trees: Seq<Tree> = Seq::empty();
    let mut i: usize = 0;
    assert(pointees(entries@) =~= Seq::<FsEntry>::empty());
    while i < paths.len()
        invariant
            i <= paths.len(),
            budget >= 0,
            pointees(entries@) == kept_entries(paths@, i as nat, excludes@),
            built_children(paths@, i as nat, excludes@, budget as int) == Ok::<
                Seq<Tree>,
                Seq<char>,
            >(trees),
            trees.len() == children@.len(),
            forall|j: int| 0 <= j < trees.len() ==> trees[j] == (#[trigger] children@[j])@,
        decreases paths.len() - i,
    {
        let entry = &paths[i];
        if !should_exclude(entry.name.as_str(), &None, excludes) {
            match &entry.kind {
                FsKind::Dir { listing } => {
                    if budget > 0 {
                        let built_child = match listing {
                            Some(below) => make_tree(
                                Some(entry.path.clone()),
                                below,
                                excludes,
                                budget - 1,
                            ),
                            None => Err(ListError { path: entry.path.clone() }),
                        };
                        match built_child {
                            Ok(child) => {
                                proof {
                                    trees = trees.push(child@);
                                }
                                children.push(child);
                            },
                            Err(e) => {
                                proof {
                                    lemma_children_error(
                                        paths@,
                                        (i + 1) as nat,
                                        paths@.len(),
                                        excludes@,
                                        budget as int,
                                    );
                                }
                                return Err(e);
                            },
                        }
                    }
                },
                _ => {},
            }
            let ghost before = pointees(entries@);
            entries.push(entry);
            assert(pointees(entries@) =~= before.push(*entry));
        }
        i = i + 1;
    }
    let node = DirNode { location, entries, children };
    assert(node@.children =~= trees);
    Ok(node)
}

} // verus!
