//! Retention: choosing the oldest snapshots beyond a kept count, and stepping
//! through their deletion one at a time.
use vstd::multiset::Multiset;
use vstd::prelude::*;

verus! {

broadcast use vstd::seq_lib::group_to_multiset_ensures;

/// One entry of a snapshot directory: its path and its last modification time,
/// in nanoseconds relative to the Unix epoch.
pub struct Entry {
    pub path: String,
    pub modified: i128,
}

/// Every entry of `s` is modified no later than its successors.
pub open spec fn oldest_first(s: Seq<Entry>) -> bool {
    forall|i: int, j: int| 0 <= i < j < s.len() ==> s[i].modified <= s[j].modified
}

/// No entry of `a` is modified later than any entry of `b`.
pub open spec fn none_newer(a: Seq<Entry>, b: Seq<Entry>) -> bool {
    forall|i: int, j: int| 0 <= i < a.len() && 0 <= j < b.len() ==> a[i].modified <= b[j].modified
}

/// How many entries retention deletes from `n` entries when `keep` are kept.
pub open spec fn excess(n: nat, keep: nat) -> nat {
    if n > keep {
        (n - keep) as nat
    } else {
        0
    }
}

/// `victims` (in deletion order) and `kept` split `entries` as retention with
/// limit `keep` does: together they are exactly the entries, the victims are the
/// excess over `keep`, oldest first, and none of them is newer than a kept entry.
pub open spec fn is_retention_split(
    entries: Seq<Entry>,
    keep: nat,
    victims: Seq<Entry>,
    kept: Seq<Entry>,
) -> bool {
    &&& victims.to_multiset().add(kept.to_multiset()) == entries.to_multiset()
    &&& victims.len() == excess(entries.len(), keep)
    &&& oldest_first(victims)
    &&& none_newer(victims, kept)
}

/// Index of the first entry of `v` with the least modification time.
fn index_of_oldest(v: &Vec<Entry>) -> (r: usize)
    requires
        v@.len() > 0,
    ensures
        r < v@.len(),
        forall|j: int| 0 <= j < v@.len() ==> v@[r as int].modified <= v@[j].modified,
{
    let mut best: usize = 0;
    let mut i: usize = 1;
    while i < v.len()
        invariant
            0 < i <= v@.len(),
            best < i,
            forall|j: int| 0 <= j < i ==> v@[best as int].modified <= v@[j].modified,
        decreases v@.len() - i,
    {
        if v[i].modified < v[best].modified {
            best = i;
        }
        i = i + 1;
    }
    best
}

/// Splits `entries` into the ones retention deletes, oldest first, and the ones
/// it keeps. Which of two entries with equal modification times goes first is
/// left open.
pub fn split_for_retention(entries: Vec<Entry>, keep_count: usize) -> (r: (Vec<Entry>, Vec<Entry>))
    ensures
        is_retention_split(entries@, keep_count as nat, r.0@, r.1@),
        r.1@.len() == if entries@.len() < keep_count { entries@.len() } else { keep_count as nat },
{
    let ghost all = entries@;
    let mut rest = entries;
    let mut victims: Vec<Entry> = Vec::new();
    while rest.len() > keep_count
        invariant
            victims@.to_multiset().add(rest@.to_multiset()) == all.to_multiset(),
            victims@.len() + rest@.len() == all.len(),
            victims@.len() <= excess(all.len(), keep_count as nat),
            rest@.len() > keep_count ==> victims@.len() < excess(all.len(), keep_count as nat),
            rest@.len() <= keep_count ==> victims@.len() == excess(all.len(), keep_count as nat),
            oldest_first(victims@),
            none_newer(victims@, rest@),
        decreases rest@.len(),
    {
        let i = index_of_oldest(&rest);
        let ghost before = rest@;
        let e = rest.remove(i);
        proof {
            assert(before.remove(i as int).to_multiset() == before.to_multiset().remove(e));
            assert(before.to_multiset().count(e) > 0) by {
                assert(before.contains(e)) by { assert(before[i as int] == e); }
            }
            assert forall|j: int| 0 <= j < rest@.len() implies e.modified <= #[trigger] rest@[j].modified by {
                if j < i { assert(rest@[j] == before[j]); } else { assert(rest@[j] == before[j + 1]); }
            }
            assert forall|a: int, b: int| 0 <= a < victims@.len() && 0 <= b < rest@.len()
                implies #[trigger] victims@[a].modified <= #[trigger] rest@[b].modified by {
                if b < i { assert(rest@[b] == before[b]); } else { assert(rest@[b] == before[b + 1]); }
            }
        }
        let ghost old_victims = victims@;
        victims.push(e);
        proof {
            assert(victims@.to_multiset() == old_victims.to_multiset().insert(e));
            assert(victims@.to_multiset().add(rest@.to_multiset()) =~= all.to_multiset());
            assert forall|a: int, b: int| 0 <= a < b < victims@.len()
                implies #[trigger] victims@[a].modified <= #[trigger] victims@[b].modified by {
                if b == victims@.len() - 1 {
                    assert(before[i as int] == e);
                }
            }
        }
    }
    (victims, rest)
}

/// What a retention run asks for next.
pub enum RetentionStep {
    /// Delete the snapshot at this path, then report the outcome with `record`.
    Delete(String),
    /// Every planned deletion succeeded.
    Finished,
    /// A deletion failed; nothing more is deleted.
    Stopped,
}

/// A retention pass over one directory, carried out one deletion at a time:
/// the caller performs each deletion it is asked for and reports how it went.
pub struct RetentionRun {
    victims: Vec<Entry>,
    kept: Vec<Entry>,
    deleted: usize,
    failed: bool,
}

impl RetentionRun {
    /// The entries to delete, in deletion order.
    pub closed spec fn planned(&self) -> Seq<Entry> {
        self.victims@
    }

    /// The entries that are never deleted.
    pub closed spec fn kept(&self) -> Seq<Entry> {
        self.kept@
    }

    /// How many of the planned deletions succeeded so far.
    pub closed spec fn deleted_count(&self) -> nat {
        self.deleted as nat
    }

    /// Whether a deletion failed.
    pub closed spec fn has_failed(&self) -> bool {
        self.failed
    }

    pub closed spec fn wf(&self) -> bool {
        self.deleted <= self.victims@.len()
    }

    /// The entries still present: the planned ones not yet deleted, then the kept.
    pub open spec fn remaining(&self) -> Seq<Entry> {
        self.planned().skip(self.deleted_count() as int) + self.kept()
    }

    /// Plans retention of `entries` with at most `keep_count` left.
    pub fn new(entries: Vec<Entry>, keep_count: usize) -> (r: RetentionRun)
        ensures
            r.wf(),
            is_retention_split(entries@, keep_count as nat, r.planned(), r.kept()),
            r.deleted_count() == 0,
            !r.has_failed(),
    {
        let (victims, kept) = split_for_retention(entries, keep_count);
        RetentionRun { victims, kept, deleted: 0, failed: false }
    }

    /// The next thing to do: delete the oldest planned entry not yet deleted,
    /// or nothing, because all went well or because a deletion failed.
    pub fn next_step(&self) -> (r: RetentionStep)
        requires
            self.wf(),
        ensures
            self.has_failed() ==> r is Stopped,
            !self.has_failed() && self.deleted_count() < self.planned().len() ==> r
                == RetentionStep::Delete(self.planned()[self.deleted_count() as int].path),
            !self.has_failed() && self.deleted_count() == self.planned().len() ==> r is Finished,
            r is Finished ==> self.remaining() == self.kept(),
    {
        proof {
            if !self.failed && self.deleted == self.victims@.len() {
                assert(self.victims@.skip(self.deleted as int) + self.kept@ =~= self.kept@);
            }
        }
        if self.failed {
            RetentionStep::Stopped
        } else if self.deleted < self.victims.len() {
            RetentionStep::Delete(self.victims[self.deleted].path.clone())
        } else {
            RetentionStep::Finished
        }
    }

    /// Reports the outcome of the deletion that `next_step` asked for. After a
    /// failure the run stops, and every entry not yet deleted stays.
    pub fn record(&mut self, succeeded: bool)
        requires
            old(self).wf(),
            !old(self).has_failed(),
            old(self).deleted_count() < old(self).planned().len(),
        ensures
            final(self).wf(),
            final(self).planned() == old(self).planned(),
            final(self).kept() == old(self).kept(),
            succeeded ==> final(self).deleted_count() == old(self).deleted_count() + 1,
            succeeded ==> final(self).remaining() == old(self).remaining().drop_first(),
            !succeeded ==> final(self).deleted_count() == old(self).deleted_count(),
            !succeeded ==> final(self).remaining() == old(self).remaining(),
            final(self).has_failed() == !succeeded,
    {
        if succeeded {
            let planned = self.victims.len();
            proof {
                assert(self.deleted < planned);
                let p = self.victims@;
                let d = self.deleted as int;
                assert(p.skip(d + 1) + self.kept@ =~= (p.skip(d) + self.kept@).drop_first());
            }
            self.deleted = self.deleted + 1;
        } else {
            self.failed = true;
        }
    }

    /// How many of the planned deletions succeeded so far.
    pub fn deleted(&self) -> (r: usize)
        ensures
            r == self.deleted_count(),
    {
        self.deleted
    }

    /// How many deletions the run plans in all.
    pub fn planned_len(&self) -> (r: usize)
        ensures
            r == self.planned().len(),
    {
        self.victims.len()
    }
}

/// After retention with limit `keep` on `n` entries exactly `min(n, keep)` stay,
/// and they are the newest: an entry modified later than a kept one is kept too.
pub proof fn retention_keeps_newest(entries: Seq<Entry>, keep: nat, victims: Seq<Entry>, kept: Seq<Entry>)
    requires
        is_retention_split(entries, keep, victims, kept),
    ensures
        kept.len() == if entries.len() < keep { entries.len() } else { keep },
        forall|e: Entry, k: Entry|
            entries.contains(e) && kept.contains(k) && e.modified > k.modified ==> kept.contains(e),
{
    assert(victims.to_multiset().len() + kept.to_multiset().len() == entries.to_multiset().len());
    assert forall|e: Entry, k: Entry|
        entries.contains(e) && kept.contains(k) && e.modified > k.modified implies kept.contains(e) by {
        assert(entries.to_multiset().count(e) > 0);
        if !kept.contains(e) {
            assert(kept.to_multiset().count(e) == 0);
            assert(victims.to_multiset().count(e) > 0);
            assert(victims.contains(e));
            let a = choose|a: int| 0 <= a < victims.len() && victims[a] == e;
            let b = choose|b: int| 0 <= b < kept.len() && kept[b] == k;
            assert(victims[a].modified <= kept[b].modified);
        }
    }
}

/// Retention is idempotent: planning again on what a first pass kept deletes
/// nothing and keeps the same entries.
pub proof fn retention_is_idempotent(
    entries: Seq<Entry>,
    keep: nat,
    victims: Seq<Entry>,
    kept: Seq<Entry>,
    victims2: Seq<Entry>,
    kept2: Seq<Entry>,
)
    requires
        is_retention_split(entries, keep, victims, kept),
        is_retention_split(kept, keep, victims2, kept2),
    ensures
        victims2.len() == 0,
        kept2.to_multiset() == kept.to_multiset(),
{
    retention_keeps_newest(entries, keep, victims, kept);
    assert(victims2.to_multiset() =~= Multiset::empty());
    assert(kept2.to_multiset() =~= kept.to_multiset());
}

/// Deletion goes strictly from oldest to newest: before the victim at position
/// `k` is deleted, every entry modified strictly earlier has been deleted.
pub proof fn deletion_is_oldest_first(entries: Seq<Entry>, keep: nat, victims: Seq<Entry>, kept: Seq<Entry>)
    requires
        is_retention_split(entries, keep, victims, kept),
    ensures
        forall|k: int, e: Entry|
            0 <= k < victims.len() && entries.contains(e) && e.modified < victims[k].modified
                ==> victims.take(k).contains(e),
{
    assert forall|k: int, e: Entry|
        0 <= k < victims.len() && entries.contains(e) && e.modified < victims[k].modified
        implies victims.take(k).contains(e) by {
        assert(entries.to_multiset().count(e) > 0);
        if kept.to_multiset().count(e) > 0 {
            assert(kept.contains(e));
            let b = choose|b: int| 0 <= b < kept.len() && kept[b] == e;
            assert(victims[k].modified <= kept[b].modified);
        } else {
            assert(victims.contains(e));
            let a = choose|a: int| 0 <= a < victims.len() && victims[a] == e;
            if a >= k {
                if a > k {
                    assert(victims[k].modified <= victims[a].modified);
                }
            } else {
                assert(victims.take(k)[a] == e);
            }
        }
    }
}

/// With a limit of zero, retention deletes every entry.
pub proof fn zero_limit_empties(entries: Seq<Entry>, victims: Seq<Entry>, kept: Seq<Entry>)
    requires
        is_retention_split(entries, 0, victims, kept),
    ensures
        kept.len() == 0,
        victims.to_multiset() == entries.to_multiset(),
{
    assert(victims.to_multiset().len() + kept.to_multiset().len() == entries.to_multiset().len());
    assert(kept.to_multiset() =~= Multiset::empty());
    assert(victims.to_multiset().add(Multiset::empty()) =~= victims.to_multiset());
}

/// Of four entries modified at strictly increasing times, retention with a
/// limit of two deletes the oldest and then the second oldest, and keeps the
/// two newest.
pub proof fn two_newest_of_four_stay(
    e1: Entry,
    e2: Entry,
    e3: Entry,
    e4: Entry,
    victims: Seq<Entry>,
    kept: Seq<Entry>,
)
    requires
        e1.modified < e2.modified < e3.modified < e4.modified,
        is_retention_split(seq![e1, e2, e3, e4], 2, victims, kept),
    ensures
        victims == seq![e1, e2],
        kept.to_multiset() == seq![e3, e4].to_multiset(),
{
    let entries = seq![e1, e2, e3, e4];
    deletion_is_oldest_first(entries, 2, victims, kept);
    let s0 = Seq::<Entry>::empty();
    assert(s0.to_multiset() =~= Multiset::empty()) by {
        assert(s0.to_multiset().len() == 0);
    }
    assert(entries =~= s0.push(e1).push(e2).push(e3).push(e4));
    assert(entries.to_multiset() =~= Multiset::empty().insert(e1).insert(e2).insert(e3).insert(e4));
    assert(entries.to_multiset().count(e1) == 1);
    assert(entries.to_multiset().count(e2) == 1);
    assert(victims.len() == 2);
    assert(victims.to_multiset().count(victims[0]) > 0) by {
        assert(victims.contains(victims[0]));
    }
    assert(victims.to_multiset().count(victims[1]) > 0) by {
        assert(victims.contains(victims[1]));
    }
    assert(entries.to_multiset().count(victims[0]) > 0);
    assert(entries.to_multiset().count(victims[1]) > 0);
    assert(entries.contains(victims[0]));
    assert(entries.contains(victims[1]));
    assert(entries.contains(e1));
    assert(entries.contains(e2));
    assert(victims.take(0).len() == 0);
    assert(victims[0] == e1) by {
        if victims[0] != e1 {
            assert(e1.modified < victims[0].modified);
        }
    }
    assert(victims[1] == e2) by {
        if victims[1] == e1 {
            assert(victims =~= s0.push(e1).push(e1));
            assert(victims.to_multiset() =~= Multiset::empty().insert(e1).insert(e1));
            assert(victims.to_multiset().count(e1) == 2);
            assert(entries.to_multiset().count(e1) >= 2);
        } else if victims[1] != e2 {
            assert(e2.modified < victims[1].modified);
            assert(victims.take(1) =~= seq![e1]);
        }
    }
    assert(victims =~= seq![e1, e2]);
    assert(victims =~= s0.push(e1).push(e2));
    assert(seq![e3, e4] =~= s0.push(e3).push(e4));
    let vm = Multiset::<Entry>::empty().insert(e1).insert(e2);
    let km = Multiset::<Entry>::empty().insert(e3).insert(e4);
    assert(victims.to_multiset() =~= vm);
    assert(seq![e3, e4].to_multiset() =~= km);
    assert forall|x: Entry| #[trigger] kept.to_multiset().count(x) == km.count(x) by {
        assert(entries.to_multiset().count(x) == vm.count(x) + kept.to_multiset().count(x));
    }
    assert(kept.to_multiset() =~= km);
}

/// Where the listing holds each entry once, no entry is deleted twice.
pub proof fn deletions_are_distinct(entries: Seq<Entry>, keep: nat, victims: Seq<Entry>, kept: Seq<Entry>)
    requires
        entries.no_duplicates(),
        is_retention_split(entries, keep, victims, kept),
    ensures
        victims.no_duplicates(),
{
    entries.lemma_multiset_has_no_duplicates();
    assert forall|x: Entry| victims.to_multiset().contains(x) implies victims.to_multiset().count(x)
        == 1 by {
        assert(entries.to_multiset().count(x) == victims.to_multiset().count(x)
            + kept.to_multiset().count(x));
        assert(entries.to_multiset().contains(x));
    }
    victims.lemma_multiset_has_no_duplicates_conv();
}

} // verus!
