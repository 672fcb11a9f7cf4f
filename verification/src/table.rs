//! The presence table: the peers this process currently believes are in
//! the chat, each with its claimed display name.
//!
//! The table is a vector of entries with pairwise-distinct peer
//! identifiers; its mathematical model is the finite map from peer
//! identifier to display name.

use vstd::prelude::*;

use crate::util::bytes_eq;

verus! {

/// One table entry: a remote peer and its claimed display name.
pub struct Entry {
    pub peer: Vec<u8>,
    pub name: Vec<u8>,
}

/// The presence table. Entries are overwritten, not merged, on repeated
/// announcements; an entry leaves only on an explicit departure.
pub struct PresenceTable {
    entries: Vec<Entry>,
}

/// The name recorded for `k` in `s`, scanning from the most recent entry.
/// On a well-formed table the scan order is irrelevant, since peers are
/// pairwise distinct.
pub open spec fn spec_lookup(s: Seq<Entry>, k: Seq<u8>) -> Option<Seq<u8>>
    decreases s.len(),
{
    if s.len() == 0 {
        None
    } else if s.last().peer@ == k {
        Some(s.last().name@)
    } else {
        spec_lookup(s.drop_last(), k)
    }
}

/// Whether some entry of `s` is for peer `k`.
pub open spec fn has_peer(s: Seq<Entry>, k: Seq<u8>) -> bool {
    exists|i: int| 0 <= i < s.len() && s[i].peer@ == k
}

/// Pairwise-distinct peer identifiers.
pub open spec fn distinct_peers(s: Seq<Entry>) -> bool {
    forall|i: int, j: int| 0 <= i < j < s.len() ==> s[i].peer@ != s[j].peer@
}

/// The map an entry sequence stands for.
pub open spec fn entries_map(s: Seq<Entry>) -> Map<Seq<u8>, Seq<u8>> {
    Map::new(|k: Seq<u8>| spec_lookup(s, k) is Some, |k: Seq<u8>| spec_lookup(s, k)->Some_0)
}

/// A lookup succeeds exactly on the peers that occur in the sequence.
pub proof fn lemma_lookup_some_iff_has_peer(s: Seq<Entry>, k: Seq<u8>)
    ensures
        spec_lookup(s, k) is Some <==> has_peer(s, k),
    decreases s.len(),
{
    if s.len() > 0 {
        if s.last().peer@ == k {
            assert(s[s.len() - 1].peer@ == k);
        } else {
            lemma_lookup_some_iff_has_peer(s.drop_last(), k);
            if has_peer(s.drop_last(), k) {
                let i = choose|i: int| 0 <= i < s.drop_last().len() && s.drop_last()[i].peer@
                    == k;
                assert(s[i].peer@ == k);
            } else if has_peer(s, k) {
                let i = choose|i: int| 0 <= i < s.len() && s[i].peer@ == k;
                assert(s.drop_last()[i].peer@ == k);
            }
        }
    }
}

/// On a table with distinct peers, the lookup of a present peer returns
/// that entry's name.
pub proof fn lemma_lookup_at_index(s: Seq<Entry>, i: int)
    requires
        distinct_peers(s),
        0 <= i < s.len(),
    ensures
        spec_lookup(s, s[i].peer@) == Some(s[i].name@),
    decreases s.len(),
{
    if i == s.len() - 1 {
    } else {
        assert(s.last().peer@ != s[i].peer@);
        assert(distinct_peers(s.drop_last())) by {
            assert(forall|a: int, b: int|
                0 <= a < b < s.drop_last().len() ==> s.drop_last()[a].peer@ != s.drop_last()[b].peer@);
        }
        assert(s.drop_last()[i] == s[i]);
        lemma_lookup_at_index(s.drop_last(), i);
    }
}

/// Appending an entry overrides the lookup for its peer and leaves every
/// other peer's lookup unchanged.
pub proof fn lemma_lookup_push(s: Seq<Entry>, e: Entry, k: Seq<u8>)
    ensures
        spec_lookup(s.push(e), k) == (if e.peer@ == k {
            Some(e.name@)
        } else {
            spec_lookup(s, k)
        }),
{
    assert(s.push(e).last() == e);
    assert(s.push(e).drop_last() =~= s);
}

/// Removing the entry at `i` from a table with distinct peers empties the
/// lookup for that peer and leaves every other peer's lookup unchanged.
pub proof fn lemma_lookup_remove_at(s: Seq<Entry>, i: int, k: Seq<u8>)
    requires
        distinct_peers(s),
        0 <= i < s.len(),
    ensures
        spec_lookup(s.remove(i), k) == (if s[i].peer@ == k {
            None::<Seq<u8>>
        } else {
            spec_lookup(s, k)
        }),
    decreases s.len(),
{
    if i == s.len() - 1 {
        assert(s.remove(i) =~= s.drop_last());
        if s[i].peer@ == k {
            lemma_lookup_some_iff_has_peer(s.drop_last(), k);
            if has_peer(s.drop_last(), k) {
                let j = choose|j: int| 0 <= j < s.drop_last().len() && s.drop_last()[j].peer@
                    == k;
                assert(s[j].peer@ == k);
                assert(false);
            }
        }
    } else {
        let t = s.remove(i);
        assert(t.last() == s.last());
        assert(t.drop_last() =~= s.drop_last().remove(i));
        assert(distinct_peers(s.drop_last())) by {
            assert(forall|a: int, b: int|
                0 <= a < b < s.drop_last().len() ==> s.drop_last()[a].peer@ != s.drop_last()[b].peer@);
        }
        lemma_lookup_remove_at(s.drop_last(), i, k);
        assert(s.drop_last()[i] == s[i]);
        if s.last().peer@ == k {
            assert(s[i].peer@ != k);
        }
    }
}

/// Removing an entry keeps the peers pairwise distinct.
pub proof fn lemma_distinct_remove(s: Seq<Entry>, i: int)
    requires
        distinct_peers(s),
        0 <= i < s.len(),
    ensures
        distinct_peers(s.remove(i)),
{
    let t = s.remove(i);
    assert forall|a: int, b: int| 0 <= a < b < t.len() implies t[a].peer@ != t[b].peer@ by {
        let a0 = if a < i { a } else { a + 1 };
        let b0 = if b < i { b } else { b + 1 };
        assert(t[a] == s[a0]);
        assert(t[b] == s[b0]);
    }
}

impl View for PresenceTable {
    type V = Map<Seq<u8>, Seq<u8>>;

    closed spec fn view(&self) -> Map<Seq<u8>, Seq<u8>> {
        entries_map(self.entries@)
    }
}

impl PresenceTable {
    /// A valid table: peers pairwise distinct.
    pub closed spec fn wf(&self) -> bool {
        distinct_peers(self.entries@)
    }

    /// An empty table.
    pub fn new() -> (r: PresenceTable)
        ensures
            r.wf(),
            r@ == Map::<Seq<u8>, Seq<u8>>::empty(),
    {
        let r = PresenceTable { entries: Vec::new() };
        proof {
            assert(r@ =~= Map::<Seq<u8>, Seq<u8>>::empty());
        }
        r
    }

    /// The position of the entry for `peer`, if one exists.
    fn position_of(&self, peer: &Vec<u8>) -> (r: Option<usize>)
        ensures
            match r {
                Some(i) => i < self.entries@.len() && self.entries@[i as int].peer@ == peer@,
                None => !has_peer(self.entries@, peer@),
            },
    {
        let mut i: usize = 0;
        while i < self.entries.len()
            invariant
                i <= self.entries@.len(),
                forall|j: int| 0 <= j < i ==> self.entries@[j].peer@ != peer@,
            decreases self.entries@.len() - i,
        {
            if bytes_eq(&self.entries[i].peer, peer) {
                return Some(i);
            }
            i = i + 1;
        }
        None
    }

    /// The display name recorded for `peer`, if the peer is present.
    pub fn lookup(&self, peer: &Vec<u8>) -> (r: Option<&Vec<u8>>)
        requires
            self.wf(),
        ensures
            match r {
                Some(name) => self@.contains_key(peer@) && self@[peer@] == name@,
                None => !self@.contains_key(peer@),
            },
    {
        proof {
            lemma_lookup_some_iff_has_peer(self.entries@, peer@);
        }
        match self.position_of(peer) {
            Some(i) => {
                proof {
                    lemma_lookup_at_index(self.entries@, i as int);
                }
                Some(&self.entries[i].name)
            },
            None => None,
        }
    }

    /// Insert or overwrite the entry for `peer`.
    pub fn upsert(&mut self, peer: Vec<u8>, name: Vec<u8>)
        requires
            old(self).wf(),
        ensures
            final(self).wf(),
            final(self)@ == old(self)@.insert(peer@, name@),
    {
        let ghost s0 = self.entries@;
        if let Some(i) = self.position_of(&peer) {
            proof {
                lemma_distinct_remove(s0, i as int);
                assert forall|k: Seq<u8>| true implies spec_lookup(s0.remove(i as int), k) == (
                    if s0[i as int].peer@ == k {
                        None::<Seq<u8>>
                    } else {
                        spec_lookup(s0, k)
                    }) by {
                    lemma_lookup_remove_at(s0, i as int, k);
                }
                lemma_lookup_some_iff_has_peer(s0.remove(i as int), peer@);
            }
            self.entries.remove(i);
        } else {
            proof {
                lemma_lookup_some_iff_has_peer(s0, peer@);
            }
        }
        let ghost s1 = self.entries@;
        let ghost e_peer = peer@;
        let ghost e_name = name@;
        self.entries.push(Entry { peer, name });
        proof {
            // Distinctness: `s1` has no entry for `peer`.
            assert(spec_lookup(s1, e_peer) is None);
            lemma_lookup_some_iff_has_peer(s1, e_peer);
            assert forall|a: int, b: int| 0 <= a < b < self.entries@.len() implies self.entries@[a].peer@
                != self.entries@[b].peer@ by {
                if b < self.entries@.len() - 1 {
                    assert(self.entries@[a] == s1[a]);
                    assert(self.entries@[b] == s1[b]);
                } else {
                    assert(self.entries@[a] == s1[a]);
                    assert(!(s1[a].peer@ == e_peer));
                }
            }
            // The map: every lookup is the old one, overridden at `peer`.
            assert forall|k: Seq<u8>| true implies spec_lookup(self.entries@, k) == (if e_peer
                == k {
                Some(e_name)
            } else {
                spec_lookup(s0, k)
            }) by {
                lemma_lookup_push(s1, self.entries@.last(), k);
            }
            assert(self@ =~= old(self)@.insert(e_peer, e_name));
        }
    }

    /// Delete the entry for `peer` if one exists; a no-op otherwise.
    pub fn remove(&mut self, peer: &Vec<u8>)
        requires
            old(self).wf(),
        ensures
            final(self).wf(),
            final(self)@ == old(self)@.remove(peer@),
    {
        let ghost s0 = self.entries@;
        if let Some(i) = self.position_of(peer) {
            proof {
                lemma_distinct_remove(s0, i as int);
                assert forall|k: Seq<u8>| true implies spec_lookup(s0.remove(i as int), k) == (
                    if peer@ == k {
                        None::<Seq<u8>>
                    } else {
                        spec_lookup(s0, k)
                    }) by {
                    lemma_lookup_remove_at(s0, i as int, k);
                }
            }
            self.entries.remove(i);
            proof {
                assert(self@ =~= old(self)@.remove(peer@));
            }
        } else {
            proof {
                lemma_lookup_some_iff_has_peer(s0, peer@);
                assert(!self@.contains_key(peer@));
                assert(self@ =~= old(self)@.remove(peer@));
            }
        }
    }

    /// The number of peers believed present.
    pub fn len(&self) -> (r: usize)
        requires
            self.wf(),
        ensures
            r == self@.dom().len(),
    {
        proof {
            lemma_entries_map_dom_len(self.entries@);
        }
        self.entries.len()
    }
}

/// On a table with distinct peers, the map's domain has exactly one
/// element per entry.
pub proof fn lemma_entries_map_dom_len(s: Seq<Entry>)
    requires
        distinct_peers(s),
    ensures
        entries_map(s).dom().finite(),
        entries_map(s).dom().len() == s.len(),
    decreases s.len(),
{
    if s.len() == 0 {
        assert(entries_map(s).dom() =~= Set::<Seq<u8>>::empty());
    } else {
        let t = s.drop_last();
        assert(distinct_peers(t)) by {
            assert(forall|a: int, b: int| 0 <= a < b < t.len() ==> t[a].peer@ != t[b].peer@);
        }
        lemma_entries_map_dom_len(t);
        assert forall|k: Seq<u8>| true implies spec_lookup(s, k) == (if s.last().peer@ == k {
            Some(s.last().name@)
        } else {
            spec_lookup(t, k)
        }) by {
            lemma_lookup_push(t, s.last(), k);
            assert(t.push(s.last()) =~= s);
        }
        assert(entries_map(s).dom() =~= entries_map(t).dom().insert(s.last().peer@));
        lemma_lookup_some_iff_has_peer(t, s.last().peer@);
        assert(!has_peer(t, s.last().peer@)) by {
            if has_peer(t, s.last().peer@) {
                let j = choose|j: int| 0 <= j < t.len() && t[j].peer@ == s.last().peer@;
                assert(s[j].peer@ == s[s.len() - 1].peer@);
                assert(false);
            }
        }
        assert(!entries_map(t).dom().contains(s.last().peer@));
    }
}

} // verus!
