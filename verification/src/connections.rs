//! The connections that the daemon keeps, one for each device.

use vstd::prelude::*;
use vstd::string::*;

use crate::identity;
use crate::identity::{Peer, PeerList};
use crate::text::same_text;

verus! {

/// The connections that are kept, one for each device.
#[derive(Debug)]
pub struct Connections<C> {
    entries: Vec<(String, C)>,
}

impl<C> Connections<C> {
    /// The connection of each device.
    pub closed spec fn view(&self) -> Map<Seq<char>, C> {
        entries_view(self.entries@)
    }

    #[verifier::type_invariant]
    spec fn one_each(&self) -> bool {
        distinct_keys(self.entries@)
    }

    /// No connection yet.
    pub fn new() -> (r: Self)
        ensures
            r.view() == Map::<Seq<char>, C>::empty(),
    {
        let entries: Vec<(String, C)> = Vec::new();
        assert(entries_view(entries@) =~= Map::<Seq<char>, C>::empty());
        Connections { entries }
    }

    /// The place of a device among the entries.
    fn place_of(&self, device_id: &str) -> (r: usize)
        ensures
            r <= self.entries@.len(),
            r < self.entries@.len() ==> self.entries@[r as int].0@ == device_id@,
            r == self.entries@.len() ==> !self.view().dom().contains(device_id@),
            self.view().dom().contains(device_id@) <==> r < self.entries@.len(),
    {
        proof {
            use_type_invariant(self);
        }
        let mut i: usize = 0;
        while i < self.entries.len()
            invariant
                i <= self.entries@.len(),
                forall|j: int| 0 <= j < i ==> (#[trigger] self.entries@[j]).0@ != device_id@,
            decreases self.entries@.len() - i,
        {
            if same_text(self.entries[i].0.as_str(), device_id) {
                assert(has_key(self.entries@, device_id@));
                return i;
            }
            i += 1;
        }
        i
    }

    /// Whether there is a connection to a device.
    pub fn contains(&self, device_id: &str) -> (r: bool)
        ensures
            r == self.view().dom().contains(device_id@),
    {
        self.place_of(device_id) < self.entries.len()
    }

    /// Keeps a connection to a device, unless there is one already.
    pub fn register(&mut self, device_id: String, connection: C) -> (r: bool)
        ensures
            r == !old(self).view().dom().contains(device_id@),
            final(self).view() == (if r {
                old(self).view().insert(device_id@, connection)
            } else {
                old(self).view()
            }),
    {
        proof {
            use_type_invariant(&*self);
        }
        let i = self.place_of(device_id.as_str());
        if i < self.entries.len() {
            return false;
        }
        let ghost before = self.entries@;
        let mut entries: Vec<(String, C)> = Vec::new();
        std::mem::swap(&mut entries, &mut self.entries);
        proof {
            lemma_push_entry(before, (device_id, connection));
        }
        entries.push((device_id, connection));
        self.entries = entries;
        true
    }

    /// Drops the connection to a device.
    pub fn release(&mut self, device_id: &str)
        ensures
            final(self).view() == old(self).view().remove(device_id@),
    {
        proof {
            use_type_invariant(&*self);
        }
        let i = self.place_of(device_id);
        if i < self.entries.len() {
            let ghost before = self.entries@;
            let mut entries: Vec<(String, C)> = Vec::new();
            std::mem::swap(&mut entries, &mut self.entries);
            proof {
                lemma_remove_entry(before, i as int);
            }
            let _ = entries.remove(i);
            self.entries = entries;
        } else {
            assert(self.view().remove(device_id@) =~= self.view());
        }
    }

    /// How many connections there are.
    pub fn len(&self) -> (r: usize)
        ensures
            r == self.view().dom().len(),
            self.view().dom().finite(),
    {
        proof {
            use_type_invariant(self);
            lemma_entries_len(self.entries@);
        }
        self.entries.len()
    }

    /// Drops the connections to devices that are not in the list of peers, and
    /// hands them out so that they can be closed.
    pub fn retain_paired(&mut self, peers: &PeerList) -> (r: Vec<(String, C)>)
        ensures
            final(self).view() == old(self).view().restrict(
                paired_ids(peers.peers@),
            ),
            entries_view(r@) == old(self).view().remove_keys(paired_ids(peers.peers@)),
    {
        proof {
            use_type_invariant(&*self);
        }
        let ghost before = self.entries@;
        let mut entries: Vec<(String, C)> = Vec::new();
        std::mem::swap(&mut entries, &mut self.entries);
        let mut kept: Vec<(String, C)> = Vec::new();
        let mut dropped: Vec<(String, C)> = Vec::new();
        let ghost paired = paired_ids(peers.peers@);
        while entries.len() > 0
            invariant
                paired == paired_ids(peers.peers@),
                distinct_keys(entries@),
                distinct_keys(kept@),
                distinct_keys(dropped@),
                forall|i: int, j: int|
                    0 <= i < entries@.len() && 0 <= j < kept@.len() ==> (
                    #[trigger] entries@[i]).0@ != (#[trigger] kept@[j]).0@,
                forall|i: int, j: int|
                    0 <= i < entries@.len() && 0 <= j < dropped@.len() ==> (
                    #[trigger] entries@[i]).0@ != (#[trigger] dropped@[j]).0@,
                entries_view(kept@) == entries_view(before).remove_keys(
                    entries_view(entries@).dom(),
                ).restrict(paired),
                entries_view(dropped@) == entries_view(before).remove_keys(
                    entries_view(entries@).dom(),
                ).remove_keys(paired),
                entries_view(entries@).submap_of(entries_view(before)),
            decreases entries@.len(),
        {
            let ghost waiting = entries@;
            let ghost last = waiting.last();
            proof {
                lemma_remove_entry(waiting, waiting.len() - 1);
                assert(waiting.remove(waiting.len() - 1) =~= waiting.drop_last());
                assert(has_key(waiting, last.0@));
                lemma_entry_found(waiting, waiting.len() - 1);
                assert(entries_view(before).dom().contains(last.0@));
                assert(entries_view(before)[last.0@] == last.1);
            }
            match entries.pop() {
                Some(entry) => {
                    let known = peers.get(entry.0.as_str());
                    proof {
                        identity::place_is_first(peers.peers@, entry.0@);
                        lemma_paired(peers.peers@, entry.0@);
                    }
                    if known.is_some() {
                        proof {
                            lemma_push_entry(kept@, entry);
                        }
                        kept.push(entry);
                        assert(entries_view(kept@) =~= entries_view(before).remove_keys(
                            entries_view(entries@).dom(),
                        ).restrict(paired));
                        assert(entries_view(dropped@) =~= entries_view(before).remove_keys(
                            entries_view(entries@).dom(),
                        ).remove_keys(paired));
                    } else {
                        proof {
                            lemma_push_entry(dropped@, entry);
                        }
                        dropped.push(entry);
                        assert(entries_view(kept@) =~= entries_view(before).remove_keys(
                            entries_view(entries@).dom(),
                        ).restrict(paired));
                        assert(entries_view(dropped@) =~= entries_view(before).remove_keys(
                            entries_view(entries@).dom(),
                        ).remove_keys(paired));
                    }
                },
                None => {},
            }
        }
        assert(entries_view(entries@) =~= Map::<Seq<char>, C>::empty());
        assert(entries_view(kept@) =~= entries_view(before).restrict(paired));
        assert(entries_view(dropped@) =~= entries_view(before).remove_keys(paired));
        self.entries = kept;
        dropped
    }
}

/// Whether one of the entries has a key.
pub open spec fn has_key<C>(entries: Seq<(String, C)>, key: Seq<char>) -> bool {
    exists|i: int| 0 <= i < entries.len() && (#[trigger] entries[i]).0@ == key
}

/// Whether no two entries have the same key.
pub open spec fn distinct_keys<C>(entries: Seq<(String, C)>) -> bool {
    forall|i: int, j: int|
        0 <= i < j < entries.len() ==> (#[trigger] entries[i]).0@ != (#[trigger] entries[j]).0@
}

/// The map of entries.
pub open spec fn entries_view<C>(entries: Seq<(String, C)>) -> Map<Seq<char>, C> {
    Map::new(
        |key: Seq<char>| has_key(entries, key),
        |key: Seq<char>|
            entries[choose|i: int| 0 <= i < entries.len() && (#[trigger] entries[i]).0@ == key].1,
    )
}

/// The device ids of a list of peers.
pub open spec fn paired_ids(peers: Seq<Peer>) -> Set<Seq<char>> {
    Set::new(
        |id: Seq<char>| exists|i: int| 0 <= i < peers.len() && (#[trigger] peers[i]).device_id@ == id,
    )
}

proof fn lemma_paired(peers: Seq<Peer>, id: Seq<char>)
    ensures
        paired_ids(peers).contains(id) <==> identity::place(peers, id) < peers.len(),
{
    identity::place_is_first(peers, id);
    if paired_ids(peers).contains(id) {
        let i = choose|i: int| 0 <= i < peers.len() && (#[trigger] peers[i]).device_id@ == id;
        if identity::place(peers, id) == peers.len() {
            assert(peers[i].device_id@ != id);
        }
    }
    if identity::place(peers, id) < peers.len() {
        assert(peers[identity::place(peers, id) as int].device_id@ == id);
    }
}

proof fn lemma_entry_found<C>(entries: Seq<(String, C)>, i: int)
    requires
        distinct_keys(entries),
        0 <= i < entries.len(),
    ensures
        entries_view(entries).dom().contains(entries[i].0@),
        entries_view(entries)[entries[i].0@] == entries[i].1,
{
    let key = entries[i].0@;
    let j = choose|j: int| 0 <= j < entries.len() && (#[trigger] entries[j]).0@ == key;
    assert(has_key(entries, key));
    if i < j {
        assert(entries[i].0@ != entries[j].0@);
    }
    if j < i {
        assert(entries[j].0@ != entries[i].0@);
    }
}

proof fn lemma_push_entry<C>(entries: Seq<(String, C)>, entry: (String, C))
    requires
        distinct_keys(entries),
        !has_key(entries, entry.0@),
    ensures
        distinct_keys(entries.push(entry)),
        entries_view(entries.push(entry)) == entries_view(entries).insert(entry.0@, entry.1),
{
    let after = entries.push(entry);
    assert forall|i: int, j: int| 0 <= i < j < after.len() implies (#[trigger] after[i]).0@ != (
    #[trigger] after[j]).0@ by {
        if j == entries.len() {
            assert(entries[i].0@ != entry.0@);
        } else {
            assert(entries[i].0@ != entries[j].0@);
        }
    }
    assert forall|key: Seq<char>| has_key(after, key) <==> (has_key(entries, key) || key
        == entry.0@) by {
        if has_key(entries, key) {
            let i = choose|i: int| 0 <= i < entries.len() && (#[trigger] entries[i]).0@ == key;
            assert(after[i].0@ == key);
        }
        if key == entry.0@ {
            assert(after[entries.len() as int].0@ == key);
        }
        if has_key(after, key) && key != entry.0@ {
            let i = choose|i: int| 0 <= i < after.len() && (#[trigger] after[i]).0@ == key;
            assert(entries[i].0@ == key);
        }
    }
    assert forall|key: Seq<char>| has_key(after, key) implies entries_view(after)[key]
        == #[trigger] entries_view(entries).insert(entry.0@, entry.1)[key] by {
        let i = choose|i: int| 0 <= i < after.len() && (#[trigger] after[i]).0@ == key;
        lemma_entry_found(after, i);
        if i < entries.len() {
            assert(entries[i].0@ == key);
            lemma_entry_found(entries, i);
        }
    }
    assert(entries_view(after) =~= entries_view(entries).insert(entry.0@, entry.1));
}

proof fn lemma_remove_entry<C>(entries: Seq<(String, C)>, at: int)
    requires
        distinct_keys(entries),
        0 <= at < entries.len(),
    ensures
        distinct_keys(entries.remove(at)),
        entries_view(entries.remove(at)) == entries_view(entries).remove(entries[at].0@),
        !has_key(entries.remove(at), entries[at].0@),
{
    let after = entries.remove(at);
    assert forall|i: int, j: int| 0 <= i < j < after.len() implies (#[trigger] after[i]).0@ != (
    #[trigger] after[j]).0@ by {
        let a = if i < at {
            i
        } else {
            i + 1
        };
        let b = if j < at {
            j
        } else {
            j + 1
        };
        assert(after[i] == entries[a] && after[j] == entries[b]);
        assert(entries[a].0@ != entries[b].0@);
    }
    assert forall|key: Seq<char>| #[trigger] has_key(after, key) <==> (has_key(entries, key) && key
        != entries[at].0@) by {
        if has_key(after, key) {
            let i = choose|i: int| 0 <= i < after.len() && (#[trigger] after[i]).0@ == key;
            let a = if i < at {
                i
            } else {
                i + 1
            };
            assert(after[i] == entries[a]);
            if a < at {
                assert(entries[a].0@ != entries[at].0@);
            } else {
                assert(entries[at].0@ != entries[a].0@);
            }
        }
        if has_key(entries, key) && key != entries[at].0@ {
            let i = choose|i: int| 0 <= i < entries.len() && (#[trigger] entries[i]).0@ == key;
            let a = if i < at {
                i
            } else {
                i - 1
            };
            assert(after[a] == entries[i]);
        }
    }
    assert forall|key: Seq<char>| has_key(after, key) implies entries_view(after)[key]
        == #[trigger] entries_view(entries)[key] by {
        let i = choose|i: int| 0 <= i < after.len() && (#[trigger] after[i]).0@ == key;
        lemma_entry_found(after, i);
        let a = if i < at {
            i
        } else {
            i + 1
        };
        assert(after[i] == entries[a]);
        lemma_entry_found(entries, a);
    }
    assert(entries_view(after) =~= entries_view(entries).remove(entries[at].0@));
}

proof fn lemma_entries_len<C>(entries: Seq<(String, C)>)
    requires
        distinct_keys(entries),
    ensures
        entries_view(entries).dom().finite(),
        entries_view(entries).dom().len() == entries.len(),
    decreases entries.len(),
{
    if entries.len() == 0 {
        assert(entries_view(entries).dom() =~= Set::<Seq<char>>::empty());
    } else {
        let at = entries.len() - 1;
        lemma_remove_entry(entries, at);
        lemma_entries_len(entries.remove(at));
        lemma_entry_found(entries, at);
        assert(entries_view(entries).dom() =~= entries_view(entries.remove(at)).dom().insert(
            entries[at].0@,
        ));
    }
}

/// Every device of a list of peers counts as paired, whatever its place, and no
/// other does.
pub proof fn listed_devices_are_paired(peers: Seq<Peer>, i: int, id: Seq<char>)
    ensures
        0 <= i < peers.len() ==> paired_ids(peers).contains(peers[i].device_id@),
        (forall|j: int| 0 <= j < peers.len() ==> (#[trigger] peers[j]).device_id@ != id)
            ==> !paired_ids(peers).contains(id),
{
}

} // verus!
