//! The snapshot of pool states that one refresh cycle builds.

use crate::pool::{PoolData, PoolState};
use vstd::prelude::*;

verus! {

/// One entry of a snapshot: a contract address and the state found for it.
#[derive(Debug)]
pub struct PoolEntry {
    pub address: String,
    pub pool: PoolData,
}

/// The addresses of a sequence of entries, in order.
pub open spec fn entry_keys(entries: Seq<PoolEntry>) -> Seq<Seq<char>> {
    entries.map_values(|e: PoolEntry| e.address@)
}

/// The mapping that a sequence of entries stands for; a later entry wins over an earlier one.
pub open spec fn entries_map(entries: Seq<PoolEntry>) -> Map<Seq<char>, PoolState>
    decreases entries.len(),
{
    if entries.len() == 0 {
        Map::empty()
    } else {
        entries_map(entries.drop_last()).insert(entries.last().address@, entries.last().pool@)
    }
}

/// An address is in the mapping exactly when some entry carries it.
pub proof fn lemma_entries_map_dom(entries: Seq<PoolEntry>, key: Seq<char>)
    ensures
        entries_map(entries).dom().contains(key) <==> exists|i: int|
            0 <= i < entries.len() && #[trigger] entries[i].address@ == key,
    decreases entries.len(),
{
    if entries.len() > 0 {
        let front = entries.drop_last();
        lemma_entries_map_dom(front, key);
        if entries_map(entries).dom().contains(key) {
            if entries.last().address@ == key {
                assert(entries[entries.len() - 1].address@ == key);
            } else {
                let i = choose|i: int| 0 <= i < front.len() && #[trigger] front[i].address@ == key;
                assert(entries[i].address@ == key);
            }
        }
        if exists|i: int| 0 <= i < entries.len() && #[trigger] entries[i].address@ == key {
            let i = choose|i: int| 0 <= i < entries.len() && #[trigger] entries[i].address@ == key;
            if i < entries.len() - 1 {
                assert(front[i].address@ == key);
            }
        }
    }
}

/// Where no address occurs twice, each entry's address maps to that entry's state.
pub proof fn lemma_entries_map_value(entries: Seq<PoolEntry>, i: int)
    requires
        entry_keys(entries).no_duplicates(),
        0 <= i < entries.len(),
    ensures
        entries_map(entries).dom().contains(entries[i].address@),
        entries_map(entries)[entries[i].address@] == entries[i].pool@,
    decreases entries.len(),
{
    let front = entries.drop_last();
    let last = entries.len() - 1;
    assert(entry_keys(front) =~= entry_keys(entries).drop_last());
    if i < last {
        lemma_entries_map_value(front, i);
        assert(entry_keys(entries)[i] != entry_keys(entries)[last]);
    }
}

/// Where no address occurs twice, the mapping has as many entries as the sequence.
pub proof fn lemma_entries_map_len(entries: Seq<PoolEntry>)
    requires
        entry_keys(entries).no_duplicates(),
    ensures
        entries_map(entries).dom().finite(),
        entries_map(entries).len() == entries.len(),
    decreases entries.len(),
{
    if entries.len() > 0 {
        let front = entries.drop_last();
        let last = entries.len() - 1;
        assert(entry_keys(front) =~= entry_keys(entries).drop_last());
        lemma_entries_map_len(front);
        lemma_entries_map_dom(front, entries.last().address@);
        if entries_map(front).dom().contains(entries.last().address@) {
            let i = choose|i: int|
                0 <= i < front.len() && #[trigger] front[i].address@ == entries.last().address@;
            assert(entry_keys(entries)[i] == entry_keys(entries)[last]);
        }
    }
}

/// Replacing the state of one entry, and keeping its address, maps that address to the new
/// state and changes nothing else.
pub proof fn lemma_entries_map_update(entries: Seq<PoolEntry>, i: int, entry: PoolEntry)
    requires
        entry_keys(entries).no_duplicates(),
        0 <= i < entries.len(),
        entry.address@ == entries[i].address@,
    ensures
        entry_keys(entries.update(i, entry)) == entry_keys(entries),
        entries_map(entries.update(i, entry)) == entries_map(entries).insert(
            entry.address@,
            entry.pool@,
        ),
    decreases entries.len(),
{
    let updated = entries.update(i, entry);
    let front = entries.drop_last();
    let last = entries.len() - 1;
    assert(entry_keys(updated) =~= entry_keys(entries));
    assert(entry_keys(front) =~= entry_keys(entries).drop_last());
    if i == last {
        assert(updated.drop_last() =~= front);
        assert(entries_map(updated) =~= entries_map(entries).insert(entry.address@, entry.pool@));
    } else {
        lemma_entries_map_update(front, i, entry);
        assert(updated.drop_last() =~= front.update(i, entry));
        assert(entry_keys(entries)[i] != entry_keys(entries)[last]);
        assert(entries_map(updated) =~= entries_map(entries).insert(entry.address@, entry.pool@));
    }
}

/// A mapping from contract address to pool state, in which no address occurs twice.
#[derive(Debug)]
pub struct PoolStateMap {
    entries: Vec<PoolEntry>,
}

impl View for PoolStateMap {
    type V = Map<Seq<char>, PoolState>;

    closed spec fn view(&self) -> Map<Seq<char>, PoolState> {
        entries_map(self.entries@)
    }
}

impl PoolStateMap {
    #[verifier::type_invariant]
    spec fn distinct(self) -> bool {
        entry_keys(self.entries@).no_duplicates()
    }

    /// The entries behind the mapping, in the order in which their addresses first came.
    pub closed spec fn entries(self) -> Seq<PoolEntry> {
        self.entries@
    }

    /// An empty snapshot.
    pub fn new() -> (m: Self)
        ensures
            m@ == Map::<Seq<char>, PoolState>::empty(),
            m.entries().len() == 0,
    {
        PoolStateMap { entries: Vec::new() }
    }

    /// The position of an address among the entries.
    fn position(&self, address: &String) -> (at: Option<usize>)
        ensures
            match at {
                Some(i) => i < self.entries@.len() && self.entries@[i as int].address@ == address@,
                None => forall|j: int|
                    0 <= j < self.entries@.len() ==> self.entries@[j].address@ != address@,
            },
    {
        let mut i: usize = 0;
        while i < self.entries.len()
            invariant
                i <= self.entries@.len(),
                forall|j: int| 0 <= j < i ==> self.entries@[j].address@ != address@,
            decreases self.entries@.len() - i,
        {
            if self.entries[i].address == *address {
                return Some(i);
            }
            i += 1;
        }
        None
    }

    /// The number of addresses in the snapshot.
    pub fn len(&self) -> (n: usize)
        ensures
            self@.dom().finite(),
            n == self@.len(),
    {
        proof {
            use_type_invariant(self);
            lemma_entries_map_len(self.entries@);
        }
        self.entries.len()
    }

    /// Whether the snapshot holds no address.
    pub fn is_empty(&self) -> (b: bool)
        ensures
            b <==> self@ == Map::<Seq<char>, PoolState>::empty(),
    {
        proof {
            use_type_invariant(self);
            lemma_entries_map_len(self.entries@);
            if self.entries@.len() == 0 {
                assert(self@ =~= Map::<Seq<char>, PoolState>::empty());
            }
        }
        self.entries.len() == 0
    }

    /// Whether the snapshot holds a state for the address.
    pub fn contains_key(&self, address: &str) -> (b: bool)
        ensures
            b <==> self@.dom().contains(address@),
    {
        let key = address.to_owned();
        let at = self.position(&key);
        proof {
            lemma_entries_map_dom(self.entries@, address@);
        }
        at.is_some()
    }

    /// The state that the snapshot holds for the address, if it holds one.
    pub fn get(&self, address: &str) -> (found: Option<&PoolData>)
        ensures
            found is Some <==> self@.dom().contains(address@),
            found matches Some(pool) ==> pool@ == self@[address@],
    {
        let key = address.to_owned();
        match self.position(&key) {
            Some(i) => {
                proof {
                    use_type_invariant(self);
                    lemma_entries_map_value(self.entries@, i as int);
                }
                Some(&self.entries[i].pool)
            },
            None => {
                proof {
                    lemma_entries_map_dom(self.entries@, address@);
                }
                None
            },
        }
    }

    /// Gives up the snapshot as its entries, each address once, in the order in which the
    /// addresses first came.
    pub fn into_entries(self) -> (entries: Vec<PoolEntry>)
        ensures
            entries@ == self.entries(),
            entries_map(entries@) == self@,
            entry_keys(entries@).no_duplicates(),
    {
        proof {
            use_type_invariant(&self);
        }
        self.entries
    }

    /// Sets the state of an address, in place of the one that the snapshot held for it, if
    /// any.
    pub fn insert(&mut self, address: String, pool: PoolData)
        ensures
            final(self)@ == old(self)@.insert(address@, pool@),
    {
        proof {
            use_type_invariant(&*self);
        }
        let at = self.position(&address);
        let mut entries: Vec<PoolEntry> = Vec::new();
        std::mem::swap(&mut entries, &mut self.entries);
        let ghost before = entries@;
        let entry = PoolEntry { address, pool };
        match at {
            Some(i) => {
                proof {
                    lemma_entries_map_update(before, i as int, entry);
                }
                entries.set(i, entry);
            },
            None => {
                entries.push(entry);
                proof {
                    assert(entries@.drop_last() =~= before);
                    assert(entry_keys(entries@) =~= entry_keys(before).push(entry.address@));
                }
            },
        }
        self.entries = entries;
    }
}

} // verus!
