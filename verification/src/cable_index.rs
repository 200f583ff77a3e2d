//! An index of cables by the ports they connect.
//!
//! Cables, ports and modules are entities; the index knows them by their
//! 64-bit entity bits. For each port it lists the cables that target it
//! and the cables that leave from it, in the order they were added.

use vstd::prelude::*;

use std::collections::HashMap;
use vstd::std_specs::iter::IteratorSpec;

verus! {

/// A short list of entities, kept inline up to four (a `SmallVec`).
#[verifier::external_body]
#[derive(Debug)]
pub struct EntityList {
    items: smallvec::SmallVec<[u64; 4]>,
}

/// The entities a list holds, in order.
pub uninterp spec fn listed(v: EntityList) -> Seq<u64>;

/// `s` with every occurrence of `x` taken out, the rest in order.
pub open spec fn without(s: Seq<u64>, x: u64) -> Seq<u64> {
    s.filter(|e: u64| e != x)
}

/// `SmallVec::new`: an empty vector. Claimed: it holds nothing.
#[verifier::external_body]
fn list_new() -> (v: EntityList)
    ensures
        listed(v) == Seq::<u64>::empty(),
{
    EntityList { items: smallvec::SmallVec::new() }
}

/// `SmallVec::push`: appends an item. Claimed: the item is added at the
/// end and the others stay as they were.
#[verifier::external_body]
fn list_push(v: &mut EntityList, x: u64)
    ensures
        listed(*final(v)) == listed(*old(v)).push(x),
{
    v.items.push(x)
}

/// Whether two entities differ.
fn differs(a: u64, b: u64) -> (r: bool)
    ensures
        r == (a != b),
{
    a != b
}

/// `SmallVec::retain` with a predicate that keeps the items other than
/// `x`. Claimed: the items equal to `x` are removed and the others keep
/// their order.
#[verifier::external_body]
fn list_remove_all(v: &mut EntityList, x: u64)
    ensures
        listed(*final(v)) == without(listed(*old(v)), x),
{
    v.items.retain(|e: &mut u64| differs(*e, x))
}

/// `SmallVec::as_slice`: the items as a slice. Claimed: the slice holds
/// the items, in order.
#[verifier::external_body]
fn list_as_slice(v: &EntityList) -> (s: &[u64])
    ensures
        s@ == listed(*v),
{
    v.items.as_slice()
}

/// Cable lookup by source or target port.
#[derive(Debug)]
pub struct CableIndex {
    by_target: HashMap<u64, EntityList>,
    by_source: HashMap<u64, EntityList>,
}

/// The cables listed for `port` in a lookup table; none when the port
/// has no entry.
pub open spec fn cables_at(m: Map<u64, Seq<u64>>, port: u64) -> Seq<u64> {
    if m.contains_key(port) {
        m[port]
    } else {
        Seq::empty()
    }
}

/// The table after listing `cable` under `port`.
pub open spec fn with_cable(m: Map<u64, Seq<u64>>, port: u64, cable: u64) -> Map<u64, Seq<u64>> {
    m.insert(port, cables_at(m, port).push(cable))
}

/// The table after removing `cable` from the list of `port`; a port with
/// no entry keeps none.
pub open spec fn without_cable(m: Map<u64, Seq<u64>>, port: u64, cable: u64) -> Map<u64, Seq<u64>> {
    if m.contains_key(port) {
        m.insert(port, without(m[port], cable))
    } else {
        m
    }
}

impl CableIndex {
    /// The cables by target port.
    pub closed spec fn spec_by_target(&self) -> Map<u64, Seq<u64>> {
        self.by_target@.map_values(|v: EntityList| listed(v))
    }

    /// The cables by source port.
    pub closed spec fn spec_by_source(&self) -> Map<u64, Seq<u64>> {
        self.by_source@.map_values(|v: EntityList| listed(v))
    }

    /// An empty index.
    pub fn new() -> (ix: Self)
        ensures
            ix.spec_by_target() == Map::<u64, Seq<u64>>::empty(),
            ix.spec_by_source() == Map::<u64, Seq<u64>>::empty(),
    {
        let ix = CableIndex { by_target: HashMap::new(), by_source: HashMap::new() };
        assert(ix.spec_by_target() =~= Map::<u64, Seq<u64>>::empty());
        assert(ix.spec_by_source() =~= Map::<u64, Seq<u64>>::empty());
        ix
    }

    /// The cables whose target is `port`, in the order they were added.
    pub fn cables_targeting(&self, port: u64) -> (s: &[u64])
        ensures
            s@ == cables_at(self.spec_by_target(), port),
    {
        match self.by_target.get(&port) {
            Some(v) => list_as_slice(v),
            None => &[],
        }
    }

    /// The cables whose source is `port`, in the order they were added.
    pub fn cables_from(&self, port: u64) -> (s: &[u64])
        ensures
            s@ == cables_at(self.spec_by_source(), port),
    {
        match self.by_source.get(&port) {
            Some(v) => list_as_slice(v),
            None => &[],
        }
    }

    fn append(map: &mut HashMap<u64, EntityList>, port: u64, cable: u64)
        ensures
            final(map)@.map_values(|v: EntityList| listed(v)) == with_cable(
                old(map)@.map_values(|v: EntityList| listed(v)),
                port,
                cable,
            ),
    {
        let ghost before = old(map)@.map_values(|v: EntityList| listed(v));
        let mut list = match map.remove(&port) {
            Some(v) => v,
            None => list_new(),
        };
        list_push(&mut list, cable);
        map.insert(port, list);
        assert(map@.map_values(|v: EntityList| listed(v)) =~= with_cable(
            before,
            port,
            cable,
        ));
    }

    fn remove_from(map: &mut HashMap<u64, EntityList>, port: u64, cable: u64)
        ensures
            final(map)@.map_values(|v: EntityList| listed(v)) == without_cable(
                old(map)@.map_values(|v: EntityList| listed(v)),
                port,
                cable,
            ),
    {
        let ghost before = old(map)@.map_values(|v: EntityList| listed(v));
        match map.remove(&port) {
            Some(mut list) => {
                let ghost removed = list;
                assert(before[port] == listed(removed));
                list_remove_all(&mut list, cable);
                map.insert(port, list);
                assert(map@.map_values(|v: EntityList| listed(v)) =~= without_cable(
                    before,
                    port,
                    cable,
                ));
            },
            None => {
                assert(map@ =~= old(map)@);
            },
        }
    }

    /// Registers a cable from `source_port` to `target_port`: it is added
    /// at the end of both ports' lists.
    pub fn add_cable(&mut self, cable: u64, source_port: u64, target_port: u64)
        ensures
            final(self).spec_by_target() == with_cable(old(self).spec_by_target(), target_port, cable),
            final(self).spec_by_source() == with_cable(old(self).spec_by_source(), source_port, cable),
    {
        Self::append(&mut self.by_target, target_port, cable);
        Self::append(&mut self.by_source, source_port, cable);
    }

    /// Removes a cable from the lists of its two ports; ports keep their
    /// (possibly empty) entries.
    pub fn remove_cable(&mut self, cable: u64, source_port: u64, target_port: u64)
        ensures
            final(self).spec_by_target() == without_cable(old(self).spec_by_target(), target_port, cable),
            final(self).spec_by_source() == without_cable(old(self).spec_by_source(), source_port, cable),
    {
        Self::remove_from(&mut self.by_target, target_port, cable);
        Self::remove_from(&mut self.by_source, source_port, cable);
    }

    /// Every port that is the target of some registered cable (or was,
    /// before it was removed), once each, in no particular order.
    pub fn target_ports(&self) -> (ports: Vec<u64>)
        ensures
            ports@.to_set() == self.spec_by_target().dom(),
            ports@.no_duplicates(),
    {
        let mut ports: Vec<u64> = Vec::new();
        let ghost keys_seq = vstd::std_specs::hash::spec_keys_iter(&self.by_target).remaining();
        for k in it: self.by_target.keys()
            invariant
                it.seq() == keys_seq,
                ports@ == keys_seq.take(it.index()).unref(),
            ensures
                ports@ == keys_seq.unref(),
        {
            assert(keys_seq.take(it.index() + 1).unref() =~= keys_seq.take(it.index()).unref().push(*k));
            ports.push(*k);
        }
        proof {
            assert(self.spec_by_target().dom() =~= self.by_target@.dom());
        }
        ports
    }

    /// Empties the index.
    pub fn clear(&mut self)
        ensures
            final(self).spec_by_target() == Map::<u64, Seq<u64>>::empty(),
            final(self).spec_by_source() == Map::<u64, Seq<u64>>::empty(),
    {
        self.by_target.clear();
        self.by_source.clear();
        assert(self.spec_by_target() =~= Map::<u64, Seq<u64>>::empty());
        assert(self.spec_by_source() =~= Map::<u64, Seq<u64>>::empty());
    }
}

impl Default for CableIndex {
    fn default() -> (ix: Self)
        ensures
            ix.spec_by_target() == Map::<u64, Seq<u64>>::empty(),
            ix.spec_by_source() == Map::<u64, Seq<u64>>::empty(),
    {
        Self::new()
    }
}

proof fn lemma_without_absent(s: Seq<u64>, x: u64)
    requires
        !s.contains(x),
    ensures
        without(s, x) == s,
    decreases s.len(),
{
    reveal(Seq::filter);
    if s.len() > 0 {
        assert(!s.drop_last().contains(x)) by {
            if s.drop_last().contains(x) {
                let i = choose|i: int| 0 <= i < s.drop_last().len() && s.drop_last()[i] == x;
                assert(s[i] == x);
            }
        }
        lemma_without_absent(s.drop_last(), x);
        assert(s.last() != x) by {
            assert(s[s.len() - 1] == s.last());
        }
        assert(s.drop_last().push(s.last()) =~= s);
    }
}

/// Removing a cable right after adding it gives every port the cables it
/// listed before, provided the cable was not already listed at the port
/// it was added to.
pub proof fn law_remove_undoes_add(m: Map<u64, Seq<u64>>, port: u64, cable: u64, q: u64)
    requires
        !cables_at(m, port).contains(cable),
    ensures
        cables_at(without_cable(with_cable(m, port, cable), port, cable), q) == cables_at(m, q),
{
    let before = cables_at(m, port);
    lemma_without_absent(before, cable);
    reveal(Seq::filter);
    assert(before.push(cable).drop_last() =~= before);
    assert(without(before.push(cable), cable) == without(before, cable));
}

/// Adding a cable puts it last in the list of the port it is added to and
/// leaves every other port's list as it was.
pub proof fn law_add_appends(m: Map<u64, Seq<u64>>, port: u64, cable: u64, q: u64)
    ensures
        cables_at(with_cable(m, port, cable), q) == if q == port {
            cables_at(m, port).push(cable)
        } else {
            cables_at(m, q)
        },
{
}

} // verus!
