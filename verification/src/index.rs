//! The file index of a list of paths: the files whose lines are counted.

use vstd::prelude::*;
use crate::chars::chars_of;
use crate::filter::{excluded, should_exclude};
use crate::fs::{pointees, FsEntry, FsKind, ListError};
use crate::text::{is_text, is_text_content};

verus! {

/// Whether a name holds a `.`.
pub open spec fn has_dot(name: Seq<char>) -> bool {
    exists|i: int| 0 <= i < name.len() && name[i] == '.'
}

/// Whether an entry is a readable file whose content is text.
pub open spec fn is_text_file(entry: FsEntry) -> bool {
    entry.kind matches FsKind::File { content: Some(bytes) } && is_text_content(bytes@)
}

/// What an entry found in a listing adds to the index. An excluded entry
/// adds nothing. A directory adds what its own listing adds. The entry itself
/// is added where its name holds a `.` and it is a text file.
pub open spec fn indexed_under(
    entry: FsEntry,
    required: Option<String>,
    excludes: Seq<String>,
) -> Result<Seq<FsEntry>, Seq<char>>
    decreases entry,
{
    if excluded(entry.name@, required, excludes) {
        Ok(Seq::empty())
    } else {
        let own = if has_dot(entry.name@) && is_text_file(entry) {
            seq![entry]
        } else {
            Seq::empty()
        };
        match entry.kind {
            FsKind::File { .. } | FsKind::Other => Ok(own),
            FsKind::Dir { listing: None } => Err(entry.path@),
            FsKind::Dir { listing: Some(children) } => match indexed_listing(
                children@,
                children@.len(),
                required,
                excludes,
            ) {
                Ok(below) => Ok(below + own),
                Err(path) => Err(path),
            },
        }
    }
}

/// What the first `n` entries of a listing add to the index, in order; the
/// path of the first directory that could not be listed, where there is one.
pub open spec fn indexed_listing(
    listing: Seq<FsEntry>,
    n: nat,
    required: Option<String>,
    excludes: Seq<String>,
) -> Result<Seq<FsEntry>, Seq<char>>
    decreases listing, n,
{
    if n == 0 || n > listing.len() {
        Ok(Seq::empty())
    } else {
        match indexed_listing(listing, (n - 1) as nat, required, excludes) {
            Err(path) => Err(path),
            Ok(before) => match indexed_under(listing[n - 1], required, excludes) {
                Err(path) => Err(path),
                Ok(more) => Ok(before + more),
            },
        }
    }
}

/// What one of the given paths adds to the index. An excluded path adds
/// nothing, whatever extension is required. A file is added as it is.
/// Anything else is listed, and adds what its listing adds.
pub open spec fn indexed_path(
    entry: FsEntry,
    required: Option<String>,
    excludes: Seq<String>,
) -> Result<Seq<FsEntry>, Seq<char>> {
    if excluded(entry.name@, None, excludes) {
        Ok(Seq::empty())
    } else {
        match entry.kind {
            FsKind::File { .. } => Ok(seq![entry]),
            FsKind::Dir { listing: None } | FsKind::Other => Err(entry.path@),
            FsKind::Dir { listing: Some(children) } => indexed_listing(
                children@,
                children@.len(),
                required,
                excludes,
            ),
        }
    }
}

/// The index of the first `n` of the given paths.
pub open spec fn indexed_paths(
    paths: Seq<FsEntry>,
    n: nat,
    required: Option<String>,
    excludes: Seq<String>,
) -> Result<Seq<FsEntry>, Seq<char>>
    decreases n,
{
    if n == 0 || n > paths.len() {
        Ok(Seq::empty())
    } else {
        match indexed_paths(paths, (n - 1) as nat, required, excludes) {
            Err(path) => Err(path),
            Ok(before) => match indexed_path(paths[n - 1], required, excludes) {
                Err(path) => Err(path),
                Ok(more) => Ok(before + more),
            },
        }
    }
}

/// The file index of a list of paths: each file among them, and below each
/// directory the text files that pass the filter.
pub open spec fn file_index(
    paths: Seq<FsEntry>,
    required: Option<String>,
    excludes: Seq<String>,
) -> Result<Seq<FsEntry>, Seq<char>> {
    indexed_paths(paths, paths.len(), required, excludes)
}

/// Whether a name holds a `.`.
pub fn name_has_dot(name: &str) -> (r: bool)
    ensures
        r == has_dot(name@),
{
    let chars = chars_of(name);
    let mut i: usize = 0;
    while i < chars.len()
        invariant
            i <= chars.len(),
            chars@ == name@,
            forall|j: int| 0 <= j < i ==> chars@[j] != '.',
        decreases chars.len() - i,
    {
        if chars[i] == '.' {
            return true;
        }
        i = i + 1;
    }
    false
}

/// Whether an entry is a readable file whose content is text.
pub fn entry_is_text(entry: &FsEntry) -> (r: bool)
    ensures
        r == is_text_file(*entry),
{
    match &entry.kind {
        FsKind::File { content: Some(bytes) } => is_text(bytes.as_slice()),
        _ => false,
    }
}

/// Adds to `out` what the entries of a listing add to the index.
fn index_listing<'a>(
    listing: &'a Vec<FsEntry>,
    required: &Option<String>,
    excludes: &[String],
    out: &mut Vec<&'a FsEntry>,
) -> (r: Result<(), ListError>)
    ensures
        match r {
            Ok(_) => indexed_listing(listing@, listing@.len(), *required, excludes@) is Ok
                && pointees(final(out)@) == pointees(old(out)@) + indexed_listing(
                listing@,
                listing@.len(),
                *required,
                excludes@,
            )->Ok_0,
            Err(e) => indexed_listing(listing@, listing@.len(), *required, excludes@) == Err::<
                Seq<FsEntry>,
                Seq<char>,
            >(e.path@),
        },
    decreases listing,
{
    let mut i: usize = 0;
    assert(pointees(out@) =~= pointees(old(out)@) + Seq::<FsEntry>::empty());
    while i < listing.len()
        invariant
            i <= listing.len(),
            indexed_listing(listing@, i as nat, *required, excludes@) is Ok,
            pointees(out@) == pointees(old(out)@) + indexed_listing(
                listing@,
                i as nat,
                *required,
                excludes@,
            )->Ok_0,
        decreases listing.len() - i,
    {
        match index_under(&listing[i], required, excludes, out) {
            Ok(_) => {
                assert(pointees(out@) =~= pointees(old(out)@) + indexed_listing(
                    listing@,
                    (i + 1) as nat,
                    *required,
                    excludes@,
                )->Ok_0);
            },
            Err(e) => {
                proof {
                    lemma_listing_error(listing@, (i + 1) as nat, listing@.len(), *required, excludes@);
                }
                return Err(e);
            },
        }
        i = i + 1;
    }
    Ok(())
}

/// Adds to `out` what an entry found in a listing adds to the index.
fn index_under<'a>(
    entry: &'a FsEntry,
    required: &Option<String>,
    excludes: &[String],
    out: &mut Vec<&'a FsEntry>,
) -> (r: Result<(), ListError>)
    ensures
        match r {
            Ok(_) => indexed_under(*entry, *required, excludes@) is Ok && pointees(final(out)@)
                == pointees(old(out)@) + indexed_under(*entry, *required, excludes@)->Ok_0,
            Err(e) => indexed_under(*entry, *required, excludes@) == Err::<
                Seq<FsEntry>,
                Seq<char>,
            >(e.path@),
        },
    decreases entry,
{
    if should_exclude(entry.name.as_str(), required, excludes) {
        assert(pointees(out@) =~= pointees(old(out)@) + Seq::<FsEntry>::empty());
        return Ok(());
    }
    match &entry.kind {
        FsKind::File { .. } | FsKind::Other => {},
        FsKind::Dir { listing: None } => {
            return Err(ListError { path: entry.path.clone() });
        },
        FsKind::Dir { listing: Some(children) } => {
            match index_listing(children, required, excludes, out) {
                Ok(_) => {},
                Err(e) => {
                    return Err(e);
                },
            }
        },
    }
    let ghost below = out@;
    if name_has_dot(entry.name.as_str()) && entry_is_text(entry) {
        out.push(entry);
        assert(pointees(out@) =~= pointees(below) + seq![*entry]);
    } else {
        assert(pointees(out@) =~= pointees(below) + Seq::<FsEntry>::empty());
    }
    assert(pointees(out@) =~= pointees(old(out)@) + indexed_under(
        *entry,
        *required,
        excludes@,
    )->Ok_0);
    Ok(())
}

/// Adds to `out` what one of the given paths adds to the index.
fn index_path<'a>(
    entry: &'a FsEntry,
    required: &Option<String>,
    excludes: &[String],
    out: &mut Vec<&'a FsEntry>,
) -> (r: Result<(), ListError>)
    ensures
        match r {
            Ok(_) => indexed_path(*entry, *required, excludes@) is Ok && pointees(final(out)@)
                == pointees(old(out)@) + indexed_path(*entry, *required, excludes@)->Ok_0,
            Err(e) => indexed_path(*entry, *required, excludes@) == Err::<Seq<FsEntry>, Seq<char>>(
                e.path@,
            ),
        },
{
    if should_exclude(entry.name.as_str(), &None, excludes) {
        assert(pointees(out@) =~= pointees(old(out)@) + Seq::<FsEntry>::empty());
        return Ok(());
    }
    match &entry.kind {
        FsKind::File { .. } => {
            out.push(entry);
            assert(pointees(out@) =~= pointees(old(out)@) + seq![*entry]);
            Ok(())
        },
        FsKind::Dir { listing: None } | FsKind::Other => Err(
            ListError { path: entry.path.clone() },
        ),
        FsKind::Dir { listing: Some(children) } => index_listing(children, required, excludes, out),
    }
}

/// Builds the file index of a list of paths. A path that the filter rejects
/// is skipped, a file is taken as it is, and a directory is searched to its
/// full depth for text files that pass the filter, this time with the
/// required extension. Fails at the first directory that cannot be listed.
pub fn make_index<'a>(
    paths: &Vec<&'a FsEntry>,
    required: &Option<String>,
    excludes: &[String],
) -> (r: Result<Vec<&'a FsEntry>, ListError>)
    ensures
        match r {
            Ok(index) => file_index(pointees(paths@), *required, excludes@) == Ok::<
                Seq<FsEntry>,
                Seq<char>,
            >(pointees(index@)),
            Err(e) => file_index(pointees(paths@), *required, excludes@) == Err::<
                Seq<FsEntry>,
                Seq<char>,
            >(e.path@),
        },
{
    let mut out: Vec<&'a FsEntry> = Vec::new();
    let mut i: usize = 0;
    let ghost all = pointees(paths@);
    assert(pointees(out@) =~= Seq::<FsEntry>::empty());
    while i < paths.len()
        invariant
            i <= paths.len(),
            all == pointees(paths@),
            indexed_paths(all, i as nat, *required, excludes@) == Ok::<Seq<FsEntry>, Seq<char>>(
                pointees(out@),
            ),
        decreases paths.len() - i,
    {
        match index_path(paths[i], required, excludes, &mut out) {
            Ok(_) => {},
            Err(e) => {
                proof {
                    lemma_paths_error(all, (i + 1) as nat, all.len(), *required, excludes@);
                }
                return Err(e);
            },
        }
        i = i + 1;
    }
    Ok(out)
}

/// Once a prefix of the paths fails, every longer prefix fails in the same
/// way.
pub proof fn lemma_paths_error(
    paths: Seq<FsEntry>,
    n: nat,
    m: nat,
    required: Option<String>,
    excludes: Seq<String>,
)
    requires
        n <= m <= paths.len(),
        indexed_paths(paths, n, required, excludes) is Err,
    ensures
        indexed_paths(paths, m, required, excludes) == indexed_paths(paths, n, required, excludes),
    decreases m,
{
    if n < m {
        lemma_paths_error(paths, n, (m - 1) as nat, required, excludes);
    }
}

/// Once a prefix of a listing fails, every longer prefix fails in the same
/// way.
pub proof fn lemma_listing_error(
    listing: Seq<FsEntry>,
    n: nat,
    m: nat,
    required: Option<String>,
    excludes: Seq<String>,
)
    requires
        n <= m <= listing.len(),
        indexed_listing(listing, n, required, excludes) is Err,
    ensures
        indexed_listing(listing, m, required, excludes) == indexed_listing(
            listing,
            n,
            required,
            excludes,
        ),
    decreases m,
{
    if n < m {
        lemma_listing_error(listing, n, (m - 1) as nat, required, excludes);
    }
}

} // verus!
