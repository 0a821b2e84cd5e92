//! From a list of paths to the tally of their text files.

use vstd::prelude::*;
use crate::filter::{dotted_extension, dotted_extension_string};
use crate::fs::{pointees, FsEntry, FsKind, ListError};
use crate::index::{file_index, make_index};
use crate::tally::{tally_lines, tally_of, FileLines, Tally};
use crate::text::{count_lines, lines_of_bytes, ReadError};

verus! {

/// The number of lines of an entry: an error for what is no file, for a file
/// that could not be read, and for one that is not valid UTF-8.
pub open spec fn entry_lines(entry: FsEntry) -> Result<u64, ReadError> {
    match entry.kind {
        FsKind::File { content: Some(bytes) } => lines_of_bytes(bytes@),
        _ => Err(ReadError::Unreadable),
    }
}

/// The shares of the first `n` files of an index: of each file whose lines
/// can be counted, its extension and its number of lines.
pub open spec fn index_shares(index: Seq<FsEntry>, n: nat) -> Seq<(Seq<char>, nat)>
    decreases n,
{
    if n == 0 || n > index.len() {
        Seq::empty()
    } else {
        let before = index_shares(index, (n - 1) as nat);
        match entry_lines(index[n - 1]) {
            Ok(lines) => before.push((dotted_extension(index[n - 1].name@), lines as nat)),
            Err(_) => before,
        }
    }
}

/// The tally of an index.
pub open spec fn index_tally(index: Seq<FsEntry>) -> Map<Seq<char>, nat> {
    tally_of(index_shares(index, index.len()))
}

/// What tallying a list of paths gives: the tally of their file index, or
/// the path of the directory that could not be listed.
pub open spec fn aggregated(
    paths: Seq<FsEntry>,
    required: Option<String>,
    excludes: Seq<String>,
) -> Result<Map<Seq<char>, nat>, Seq<char>> {
    match file_index(paths, required, excludes) {
        Ok(index) => Ok(index_tally(index)),
        Err(path) => Err(path),
    }
}

/// The outcome of a call of `aggregate` as a mathematical value.
pub open spec fn outcome(r: Result<Tally, ListError>) -> Result<Map<Seq<char>, nat>, Seq<char>> {
    match r {
        Ok(tally) => Ok(tally@),
        Err(e) => Err(e.path@),
    }
}

/// Tallying is repeatable: two runs over the same paths, with the same
/// filter, end in the same tally or fail at the same directory. Nothing is
/// carried over from one run to the next.
pub proof fn lemma_aggregate_repeatable(
    paths: Seq<FsEntry>,
    required: Option<String>,
    excludes: Seq<String>,
    first: Result<Tally, ListError>,
    second: Result<Tally, ListError>,
)
    requires
        outcome(first) == aggregated(paths, required, excludes),
        outcome(second) == aggregated(paths, required, excludes),
    ensures
        outcome(first) == outcome(second),
{
}

/// Counts the lines of an entry.
pub fn count_file_lines(entry: &FsEntry) -> (r: Result<u64, ReadError>)
    ensures
        r == entry_lines(*entry),
{
    match &entry.kind {
        FsKind::File { content: Some(bytes) } => count_lines(bytes.as_slice()),
        _ => Err(ReadError::Unreadable),
    }
}

/// Folds the files of an index into a tally. A file whose lines cannot be
/// counted is left out.
pub fn count(index: &Vec<&FsEntry>) -> (tally: Tally)
    ensures
        tally.wf(),
        tally@ == index_tally(pointees(index@)),
{
    let mut items: Vec<FileLines> = Vec::new();
    let mut i: usize = 0;
    let ghost all = pointees(index@);
    assert(crate::tally::shares(items@) =~= index_shares(all, 0));
    while i < index.len()
        invariant
            i <= index.len(),
            all == pointees(index@),
            crate::tally::shares(items@) == index_shares(all, i as nat),
        decreases index.len() - i,
    {
        let entry = index[i];
        assert(*entry == all[i as int]);
        match count_file_lines(entry) {
            Ok(lines) => {
                let ext = dotted_extension_string(entry.name.as_str());
                let ghost before = crate::tally::shares(items@);
                items.push(FileLines { ext, lines });
                assert(crate::tally::shares(items@) =~= before.push(
                    (dotted_extension(entry.name@), lines as nat),
                ));
            },
            Err(_) => {},
        }
        i = i + 1;
    }
    tally_lines(&items)
}

/// Tallies the lines of the text files under a list of paths, by extension.
/// Fails where a directory that the filter lets through cannot be listed.
pub fn aggregate(paths: &Vec<&FsEntry>, required: &Option<String>, excludes: &[String]) -> (r:
    Result<Tally, ListError>)
    ensures
        outcome(r) == aggregated(pointees(paths@), *required, excludes@),
        r matches Ok(tally) ==> tally.wf(),
{
    match make_index(paths, required, excludes) {
        Ok(index) => Ok(count(&index)),
        Err(e) => Err(e),
    }
}

} // verus!
