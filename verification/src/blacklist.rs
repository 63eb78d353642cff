//! What is kept out of the mirror, and how it is looked up.
use vstd::prelude::*;

verus! {

/// One thing that is kept out of the mirror.
#[derive(Clone, Copy, Debug, PartialEq, Eq, PartialOrd, Ord, Structural)]
pub enum Blacklist {
    Channel(u64),
    User(u64),
    Role(u64),
}

impl Blacklist {
    /// Channels come before users, and users before roles.
    pub open spec fn spec_rank(self) -> int {
        match self {
            Blacklist::Channel(_) => 0,
            Blacklist::User(_) => 1,
            Blacklist::Role(_) => 2,
        }
    }

    /// The identifier that is kept out.
    pub open spec fn spec_id(self) -> u64 {
        match self {
            Blacklist::Channel(id) => id,
            Blacklist::User(id) => id,
            Blacklist::Role(id) => id,
        }
    }

    /// Entries are ordered by what they are, and then by identifier.
    pub open spec fn spec_le(self, other: Blacklist) -> bool {
        self.spec_rank() < other.spec_rank() || (self.spec_rank() == other.spec_rank()
            && self.spec_id() <= other.spec_id())
    }

    /// The place of the entry's kind in the order.
    fn rank(&self) -> (rank: u8)
        ensures
            rank == self.spec_rank(),
    {
        match self {
            Blacklist::Channel(_) => 0,
            Blacklist::User(_) => 1,
            Blacklist::Role(_) => 2,
        }
    }

    /// The identifier that is kept out.
    pub fn id(&self) -> (id: u64)
        ensures
            id == self.spec_id(),
    {
        match self {
            Blacklist::Channel(id) => *id,
            Blacklist::User(id) => *id,
            Blacklist::Role(id) => *id,
        }
    }

    /// Whether the entry comes no later than another.
    pub fn comes_no_later(&self, other: &Blacklist) -> (res: bool)
        ensures
            res == self.spec_le(*other),
    {
        let (mine, theirs): (u8, u8) = (self.rank(), other.rank());
        mine < theirs || (mine == theirs && self.id() <= other.id())
    }
}

/// Whether the entries stand in order.
pub open spec fn is_sorted(entries: Seq<Blacklist>) -> bool {
    forall|i: int, j: int|
        0 <= i <= j < entries.len() ==> (#[trigger] entries[i]).spec_le(#[trigger] entries[j])
}

/// Puts one entry where it belongs.
fn insert_sorted(entries: &mut Vec<Blacklist>, entry: Blacklist)
    requires
        is_sorted(old(entries)@),
    ensures
        is_sorted(final(entries)@),
        final(entries)@.to_multiset() == old(entries)@.to_multiset().insert(entry),
{
    let ghost before = entries@;
    let mut at: usize = 0;
    while at < entries.len() && entries[at].comes_no_later(&entry)
        invariant
            at <= entries@.len(),
            entries@ == before,
            forall|j: int| 0 <= j < at ==> (#[trigger] before[j]).spec_le(entry),
        decreases entries@.len() - at,
    {
        at = at + 1;
    }
    entries.insert(at, entry);
    proof {
        broadcast use vstd::seq_lib::group_to_multiset_ensures;

        let after = entries@;
        assert(after == before.insert(at as int, entry));
        assert forall|i: int, j: int| 0 <= i <= j < after.len() implies (
        #[trigger] after[i]).spec_le(#[trigger] after[j]) by {
            let old_i = if i < at {
                i
            } else {
                i - 1
            };
            let old_j = if j < at {
                j
            } else {
                j - 1
            };
            if i != at {
                assert(after[i] == before[old_i]);
            }
            if j != at {
                assert(after[j] == before[old_j]);
            }
            if i == at && j > at {
                assert(before[at as int].spec_le(before[old_j]));
            }
        }
        vstd::seq_lib::to_multiset_insert(before, at as int, entry);
    }
}

/// The same entries, in order.
pub fn sort_blacklists(blacklists: &Vec<Blacklist>) -> (sorted: Vec<Blacklist>)
    ensures
        is_sorted(sorted@),
        sorted@.to_multiset() == blacklists@.to_multiset(),
{
    let mut sorted: Vec<Blacklist> = Vec::new();
    proof {
        broadcast use vstd::seq_lib::group_to_multiset_ensures;

        assert(blacklists@.take(0) == sorted@);
    }
    for i in 0..blacklists.len()
        invariant
            is_sorted(sorted@),
            sorted@.to_multiset() == blacklists@.take(i as int).to_multiset(),
    {
        insert_sorted(&mut sorted, blacklists[i]);
        proof {
            broadcast use vstd::seq_lib::group_to_multiset_ensures;

            assert(blacklists@.take(i + 1) == blacklists@.take(i as int).push(
                blacklists@[i as int],
            ));
        }
    }
    assert(blacklists@.take(blacklists@.len() as int) == blacklists@);
    sorted
}

/// Sorting neither loses nor adds an entry.
pub proof fn sorting_keeps_entries(sorted: Seq<Blacklist>, entries: Seq<Blacklist>)
    requires
        sorted.to_multiset() == entries.to_multiset(),
    ensures
        forall|entry: Blacklist| sorted.contains(entry) <==> entries.contains(entry),
{
    broadcast use vstd::seq_lib::group_to_multiset_ensures;

    assert forall|entry: Blacklist| sorted.contains(entry) <==> entries.contains(entry) by {
        assert(sorted.contains(entry) <==> sorted.to_multiset().count(entry) > 0);
        assert(entries.contains(entry) <==> entries.to_multiset().count(entry) > 0);
    }
}

/// Whether ordered entries hold an entry, by halving the range in which it can be.
pub fn is_blacklisted(blacklists_sorted: &Vec<Blacklist>, entry: Blacklist) -> (found: bool)
    requires
        is_sorted(blacklists_sorted@),
    ensures
        found == blacklists_sorted@.contains(entry),
{
    let mut low: usize = 0;
    let mut high: usize = blacklists_sorted.len();
    while low < high
        invariant
            low <= high <= blacklists_sorted@.len(),
            is_sorted(blacklists_sorted@),
            forall|j: int| 0 <= j < low ==> (#[trigger] blacklists_sorted@[j]) != entry,
            forall|j: int|
                high <= j < blacklists_sorted@.len() ==> (#[trigger] blacklists_sorted@[j])
                    != entry,
        decreases high - low,
    {
        let middle: usize = low + (high - low) / 2;
        let candidate: Blacklist = blacklists_sorted[middle];
        if candidate == entry {
            assert(blacklists_sorted@[middle as int] == entry);
            return true;
        }
        if candidate.comes_no_later(&entry) {
            assert forall|j: int| 0 <= j < middle + 1 implies (
            #[trigger] blacklists_sorted@[j]) != entry by {
                assert(blacklists_sorted@[j].spec_le(blacklists_sorted@[middle as int]));
            }
            low = middle + 1;
        } else {
            assert forall|j: int| middle <= j < blacklists_sorted@.len() implies (
            #[trigger] blacklists_sorted@[j]) != entry by {
                assert(blacklists_sorted@[middle as int].spec_le(blacklists_sorted@[j]));
            }
            high = middle;
        }
    }
    false
}

/// Whether entries, in any order, hold an entry.
pub fn holds_entry(blacklists: &Vec<Blacklist>, entry: Blacklist) -> (found: bool)
    ensures
        found == blacklists@.contains(entry),
{
    for i in 0..blacklists.len()
        invariant
            forall|j: int| 0 <= j < i ==> (#[trigger] blacklists@[j]) != entry,
    {
        if blacklists[i] == entry {
            return true;
        }
    }
    false
}

/// A copy of some entries.
pub fn copy_blacklists(blacklists: &Vec<Blacklist>) -> (copy: Vec<Blacklist>)
    ensures
        copy@ == blacklists@,
{
    let mut copy: Vec<Blacklist> = Vec::new();
    for i in 0..blacklists.len()
        invariant
            copy@ == blacklists@.take(i as int),
    {
        copy.push(blacklists[i]);
        assert(blacklists@.take(i + 1) == blacklists@.take(i as int).push(blacklists@[i as int]));
    }
    assert(blacklists@.take(blacklists@.len() as int) == blacklists@);
    copy
}

} // verus!
