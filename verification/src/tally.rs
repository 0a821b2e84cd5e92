//! Per-extension totals of line counts.

use vstd::prelude::*;

verus! {

/// One file's share of a tally: its extension and its number of lines.
pub struct FileLines {
    pub ext: String,
    pub lines: u64,
}

/// One line of a tally: an extension and the lines counted under it.
pub struct TallyEntry {
    pub ext: String,
    pub lines: u128,
}

/// A mapping from extension to a total of lines. No extension occurs twice
/// in it, and none with a total of zero.
pub struct Tally {
    entries: Vec<TallyEntry>,
}

/// The shares as plain values.
pub open spec fn shares(items: Seq<FileLines>) -> Seq<(Seq<char>, nat)> {
    Seq::new(items.len(), |i: int| (items[i].ext@, items[i].lines as nat))
}

/// The lines that the shares hold under one extension.
pub open spec fn total_for(items: Seq<(Seq<char>, nat)>, ext: Seq<char>) -> nat
    decreases items.len(),
{
    if items.len() == 0 {
        0
    } else {
        total_for(items.drop_last(), ext) + if items.last().0 == ext {
            items.last().1
        } else {
            0nat
        }
    }
}

/// The tally of a list of shares: each extension with a total above zero,
/// mapped to that total.
pub open spec fn tally_of(items: Seq<(Seq<char>, nat)>) -> Map<Seq<char>, nat> {
    Map::new(|ext: Seq<char>| total_for(items, ext) > 0, |ext: Seq<char>| total_for(items, ext))
}

/// What one more share makes of a tally: the extension's running total grows
/// by the share, and is recorded unless it is zero.
pub open spec fn with_share(tally: Map<Seq<char>, nat>, ext: Seq<char>, lines: nat) -> Map<
    Seq<char>,
    nat,
> {
    let sum = if tally.contains_key(ext) {
        tally[ext] + lines
    } else {
        lines
    };
    if sum != 0 {
        tally.insert(ext, sum)
    } else {
        tally
    }
}

/// The mapping that a list of entries stands for.
pub open spec fn map_of(entries: Seq<TallyEntry>) -> Map<Seq<char>, nat>
    decreases entries.len(),
{
    if entries.len() == 0 {
        Map::empty()
    } else {
        map_of(entries.drop_last()).insert(entries.last().ext@, entries.last().lines as nat)
    }
}

/// No extension occurs twice, and no total is zero.
pub open spec fn entries_wf(entries: Seq<TallyEntry>) -> bool {
    &&& forall|i: int, j: int|
        0 <= i < j < entries.len() ==> (#[trigger] entries[i]).ext@ != (#[trigger] entries[j]).ext@
    &&& forall|i: int| 0 <= i < entries.len() ==> (#[trigger] entries[i]).lines > 0
}

/// The tally of a list with one more share is the step from the tally of
/// the list.
pub proof fn lemma_tally_push(items: Seq<(Seq<char>, nat)>, ext: Seq<char>, lines: nat)
    ensures
        tally_of(items.push((ext, lines))) == with_share(tally_of(items), ext, lines),
{
    let more = items.push((ext, lines));
    assert(more.drop_last() =~= items);
    assert(tally_of(more) =~= with_share(tally_of(items), ext, lines));
}

/// An extension whose shares add up to nothing is not in the tally, and one
/// that is in the tally stands there with the sum of its shares.
pub proof fn lemma_zero_total_absent(items: Seq<(Seq<char>, nat)>, ext: Seq<char>)
    ensures
        total_for(items, ext) == 0 <==> !tally_of(items).contains_key(ext),
        tally_of(items).contains_key(ext) ==> tally_of(items)[ext] == total_for(items, ext),
{
}

/// A share of no lines under an extension that the tally lacks leaves the
/// tally as it was.
pub proof fn lemma_empty_share_adds_nothing(tally: Map<Seq<char>, nat>, ext: Seq<char>)
    requires
        !tally.contains_key(ext),
    ensures
        with_share(tally, ext, 0) == tally,
{
}

/// A total is at most the largest share times the number of shares.
pub proof fn lemma_total_bound(items: Seq<(Seq<char>, nat)>, ext: Seq<char>, max: nat)
    requires
        forall|i: int| 0 <= i < items.len() ==> (#[trigger] items[i]).1 <= max,
    ensures
        total_for(items, ext) <= items.len() * max,
    decreases items.len(),
{
    if items.len() > 0 {
        lemma_total_bound(items.drop_last(), ext, max);
        assert((items.len() - 1) * max + max == items.len() * max) by (nonlinear_arith);
    }
}

/// What a list of well-formed entries maps: exactly its extensions, each to
/// its own total.
pub proof fn lemma_map_of(entries: Seq<TallyEntry>)
    requires
        entries_wf(entries),
    ensures
        forall|i: int|
            0 <= i < entries.len() ==> map_of(entries).contains_key((#[trigger] entries[i]).ext@)
                && map_of(entries)[entries[i].ext@] == entries[i].lines,
        forall|k: Seq<char>| #[trigger]
            map_of(entries).contains_key(k) ==> exists|i: int|
                0 <= i < entries.len() && (#[trigger] entries[i]).ext@ == k,
    decreases entries.len(),
{
    if entries.len() > 0 {
        let front = entries.drop_last();
        lemma_map_of(front);
        assert forall|i: int| 0 <= i < entries.len() implies map_of(entries).contains_key(
            (#[trigger] entries[i]).ext@,
        ) && map_of(entries)[entries[i].ext@] == entries[i].lines by {
            if i < entries.len() - 1 {
                assert(front[i] == entries[i]);
            }
        }
        assert forall|k: Seq<char>| #[trigger] map_of(entries).contains_key(k) implies exists|
            i: int,
        |
            0 <= i < entries.len() && (#[trigger] entries[i]).ext@ == k by {
            if k == entries.last().ext@ {
                assert(entries[entries.len() - 1].ext@ == k);
            } else {
                assert(map_of(front).contains_key(k));
                let i = choose|i: int| 0 <= i < front.len() && (#[trigger] front[i]).ext@ == k;
                assert(entries[i].ext@ == k);
            }
        }
    }
}

impl Tally {
    /// The mapping from extension to total.
    pub closed spec fn view(&self) -> Map<Seq<char>, nat> {
        map_of(self.entries@)
    }

    /// The entries, in the order in which their extensions first came.
    pub closed spec fn spec_entries(&self) -> Seq<TallyEntry> {
        self.entries@
    }

    /// The invariant of a tally.
    pub closed spec fn wf(&self) -> bool {
        entries_wf(self.entries@)
    }

    /// A tally with nothing in it.
    pub fn new() -> (tally: Tally)
        ensures
            tally.wf(),
            tally@ == Map::<Seq<char>, nat>::empty(),
    {
        Tally { entries: Vec::new() }
    }

    /// Where `ext` stands among the entries.
    fn position(&self, ext: &String) -> (pos: Option<usize>)
        ensures
            match pos {
                Some(p) => p < self.entries@.len() && self.entries@[p as int].ext@ == ext@,
                None => forall|i: int|
                    0 <= i < self.entries@.len() ==> (#[trigger] self.entries@[i]).ext@ != ext@,
            },
    {
        let mut i: usize = 0;
        while i < self.entries.len()
            invariant
                i <= self.entries.len(),
                forall|j: int| 0 <= j < i ==> (#[trigger] self.entries@[j]).ext@ != ext@,
            decreases self.entries.len() - i,
        {
            if self.entries[i].ext == *ext {
                return Some(i);
            }
            i = i + 1;
        }
        None
    }

    /// The total under an extension, if the tally has it.
    pub fn get(&self, ext: &str) -> (lines: Option<u128>)
        requires
            self.wf(),
        ensures
            match lines {
                Some(n) => self@.contains_key(ext@) && self@[ext@] == n,
                None => !self@.contains_key(ext@),
            },
    {
        proof {
            lemma_map_of(self.entries@);
        }
        let key = ext.to_owned();
        match self.position(&key) {
            Some(p) => Some(self.entries[p].lines),
            None => None,
        }
    }

    /// How many extensions the tally holds.
    pub fn len(&self) -> (n: usize)
        requires
            self.wf(),
        ensures
            n == self@.dom().len(),
            self@.dom().finite(),
            n == self.spec_entries().len(),
    {
        proof {
            lemma_map_of_len(self.entries@);
        }
        self.entries.len()
    }

    /// Whether the tally holds nothing.
    pub fn is_empty(&self) -> (empty: bool)
        requires
            self.wf(),
        ensures
            empty == (self@ == Map::<Seq<char>, nat>::empty()),
    {
        proof {
            lemma_map_of(self.entries@);
            if self.entries@.len() == 0 {
            } else {
                assert(self@.contains_key(self.entries@[0].ext@));
            }
        }
        self.entries.len() == 0
    }

    /// The entries, in the order in which their extensions first came.
    pub fn entries(&self) -> (entries: &Vec<TallyEntry>)
        ensures
            entries@ == self.spec_entries(),
            map_of(entries@) == self@,
            self.wf() ==> entries_wf(entries@),
    {
        &self.entries
    }

    /// Adds a share of lines under an extension.
    fn add(&mut self, ext: String, lines: u64)
        requires
            old(self).wf(),
            forall|k: Seq<char>| #[trigger]
                old(self)@.contains_key(k) ==> old(self)@[k] + lines <= u128::MAX,
        ensures
            final(self).wf(),
            final(self)@ == with_share(old(self)@, ext@, lines as nat),
    {
        proof {
            lemma_map_of(self.entries@);
        }
        match self.position(&ext) {
            Some(p) => {
                let ghost before = self.entries@;
                assert(self@.contains_key(before[p as int].ext@));
                assert(self@[ext@] == before[p as int].lines);
                let sum = self.entries[p].lines + lines as u128;
                self.entries[p].lines = sum;
                proof {
                    lemma_map_of(self.entries@);
                    assert(self.entries@ =~= before.update(
                        p as int,
                        TallyEntry { ext: before[p as int].ext, lines: sum },
                    ));
                    lemma_map_of_update(before, p as int, sum);
                }
            },
            None => {
                if lines != 0 {
                    let ghost before = self.entries@;
                    self.entries.push(TallyEntry { ext, lines: lines as u128 });
                    proof {
                        assert(self.entries@.drop_last() =~= before);
                    }
                }
            },
        }
    }
}

/// A list of well-formed entries maps as many extensions as it has entries.
pub proof fn lemma_map_of_len(entries: Seq<TallyEntry>)
    requires
        entries_wf(entries),
    ensures
        map_of(entries).dom().finite(),
        map_of(entries).dom().len() == entries.len(),
    decreases entries.len(),
{
    if entries.len() > 0 {
        let front = entries.drop_last();
        lemma_map_of_len(front);
        lemma_map_of(front);
        if map_of(front).contains_key(entries.last().ext@) {
            let i = choose|i: int| 0 <= i < front.len() && (#[trigger] front[i]).ext@ == entries.last().ext@;
            assert(entries[i].ext@ == entries[entries.len() - 1].ext@);
        }
        assert(map_of(entries).dom() =~= map_of(front).dom().insert(entries.last().ext@));
    } else {
        assert(map_of(entries).dom() =~= Set::<Seq<char>>::empty());
    }
}

/// Raising one entry's total changes the mapping at that extension alone.
pub proof fn lemma_map_of_update(entries: Seq<TallyEntry>, p: int, lines: u128)
    requires
        entries_wf(entries),
        0 <= p < entries.len(),
    ensures
        map_of(entries.update(p, TallyEntry { ext: entries[p].ext, lines })) == map_of(
            entries,
        ).insert(entries[p].ext@, lines as nat),
    decreases entries.len(),
{
    let changed = entries.update(p, TallyEntry { ext: entries[p].ext, lines });
    let front = entries.drop_last();
    if p == entries.len() - 1 {
        assert(changed.drop_last() =~= front);
        assert(map_of(changed) =~= map_of(entries).insert(entries[p].ext@, lines as nat));
    } else {
        lemma_map_of_update(front, p, lines);
        assert(changed.drop_last() =~= front.update(
            p,
            TallyEntry { ext: front[p].ext, lines },
        ));
        assert(front[p] == entries[p]);
        assert(entries[p].ext@ != entries[entries.len() - 1].ext@);
        assert(map_of(changed) =~= map_of(entries).insert(entries[p].ext@, lines as nat));
    }
}

/// Folds the shares of a list of files into a tally, in the order of the
/// list.
pub fn tally_lines(items: &Vec<FileLines>) -> (tally: Tally)
    ensures
        tally.wf(),
        tally@ == tally_of(shares(items@)),
{
    let mut tally = Tally::new();
    let mut i: usize = 0;
    assert(tally@ =~= tally_of(shares(items@).take(0)));
    while i < items.len()
        invariant
            i <= items.len(),
            tally.wf(),
            tally@ == tally_of(shares(items@).take(i as int)),
        decreases items.len() - i,
    {
        let ghost done = shares(items@).take(i as int);
        proof {
            assert forall|k: Seq<char>| #[trigger] tally@.contains_key(k) implies tally@[k]
                + items@[i as int].lines <= u128::MAX by {
                lemma_total_bound(done, k, u64::MAX as nat);
                assert(i * u64::MAX + u64::MAX <= u128::MAX) by (nonlinear_arith)
                    requires
                        i <= u64::MAX,
                ;
            }
            lemma_tally_push(done, items@[i as int].ext@, items@[i as int].lines as nat);
            assert(shares(items@).take(i + 1) =~= done.push(
                (items@[i as int].ext@, items@[i as int].lines as nat),
            ));
        }
        tally.add(items[i].ext.clone(), items[i].lines);
        i = i + 1;
    }
    assert(shares(items@).take(items@.len() as int) =~= shares(items@));
    tally
}

} // verus!
