//! Tick scheduling: the three phases of a frame and the order in which
//! modules produce their outputs.
//!
//! Modules are ordered topologically along their cables, so upstream
//! modules produce before downstream ones read. Among the modules that
//! are ready at a step, the one with the smallest [`ModuleId`] goes first
//! (then the one listed first).

use vstd::prelude::*;

use crate::error::PatchError;
use crate::graph::{
    cycle_members, edges_within, greedy_order, is_greedy_order, is_stuck,
    law_complete_order_means_acyclic, law_stuck_order_means_cycle, on_cycle,
};
use crate::module::ModuleId;
use crate::names::{names_sorted, sort_names, views_of};

verus! {

/// The three phases of a rack tick, run as a strict chain.
#[derive(Debug, Clone, Copy, PartialEq, Eq, Hash, Structural)]
pub enum TickPhase {
    /// Modules write to their output ports.
    Produce,
    /// Cables propagate values from output ports to input ports.
    Propagate,
    /// Modules read from their input ports.
    Consume,
}

/// Message signalling that a tick should execute.
#[derive(Debug, Clone, Copy, PartialEq, Eq, Structural)]
pub struct TickNow {
    /// The frame number for this tick.
    pub frame: u64,
}

/// A module as the tick scheduler sees it.
#[derive(Debug, Clone)]
pub struct TickNode {
    /// The module's id, the first tie-break among ready modules.
    pub id: ModuleId,
    /// The module's instance name, used to report feedback cycles.
    pub instance_name: String,
}

/// The ids of the modules, as tie-break keys.
pub open spec fn node_keys(nodes: Seq<TickNode>) -> Seq<u64> {
    nodes.map_values(|m: TickNode| m.id.0)
}

/// The instance names of the listed modules.
pub open spec fn node_names_at(nodes: Seq<TickNode>, ms: Seq<usize>) -> Seq<Seq<char>> {
    ms.map_values(|i: usize| nodes[i as int].instance_name@)
}

/// `names` are the sorted instance names of the modules on cycles.
pub open spec fn reports_node_cycle(nodes: Seq<TickNode>, links: Seq<(usize, usize)>, names: Seq<String>) -> bool {
    &&& names.len() > 0
    &&& names_sorted(views_of(names))
    &&& exists|ms: Seq<usize>|
        {
            &&& forall|i: int, j: int| 0 <= i < j < ms.len() ==> ms[i] < ms[j]
            &&& forall|v: usize| #[trigger] ms.contains(v) <==> v < nodes.len() && on_cycle(links, v as int)
            &&& #[trigger] views_of(names).to_multiset() == node_names_at(nodes, ms).to_multiset()
        }
}

/// Computes the order in which modules tick.
///
/// `links` holds one `(source, target)` pair of module indices per cable;
/// links from a module to itself are ignored. The order is topological:
/// at each step the ready module with the smallest id (then the smallest
/// index) goes next. Fails with `FeedbackCycle` (the sorted names of the
/// modules on cycles) exactly when some module lies on a cycle.
pub fn compute_tick_order(nodes: &Vec<TickNode>, links: &Vec<(usize, usize)>) -> (r: Result<Vec<usize>, PatchError>)
    requires
        edges_within(links@, nodes@.len() as int),
    ensures
        r is Ok <==> forall|v: int| 0 <= v < nodes@.len() ==> !#[trigger] on_cycle(links@, v),
        match r {
            Ok(order) => order@.len() == nodes@.len() && is_greedy_order(node_keys(nodes@), links@, order@),
            Err(e) => {
                &&& exists|p: Seq<usize>|
                    #[trigger] is_greedy_order(node_keys(nodes@), links@, p) && p.len() < nodes@.len()
                        && is_stuck(node_keys(nodes@), links@, p)
                &&& e matches PatchError::FeedbackCycle(names) && reports_node_cycle(nodes@, links@, names@)
            },
        },
{
    let mut keys: Vec<u64> = Vec::new();
    let mut i: usize = 0;
    while i < nodes.len()
        invariant
            i <= nodes@.len(),
            keys@.len() == i,
            forall|k: int| 0 <= k < i ==> #[trigger] keys@[k] == nodes@[k].id.0,
        decreases nodes@.len() - i,
    {
        keys.push(nodes[i].id.0);
        i += 1;
    }
    assert(keys@ =~= node_keys(nodes@));
    let (order, complete) = greedy_order(&keys, links);
    if complete {
        proof {
            assert forall|v: int| 0 <= v < nodes@.len() implies !#[trigger] on_cycle(links@, v) by {
                law_complete_order_means_acyclic(keys@, links@, order@, v);
            }
        }
        return Ok(order);
    }
    proof {
        law_stuck_order_means_cycle(keys@, links@, order@);
    }
    let members = cycle_members(nodes.len(), links);
    let mut names: Vec<String> = Vec::new();
    let mut i: usize = 0;
    while i < members.len()
        invariant
            i <= members@.len(),
            forall|i: int| 0 <= i < members@.len() ==> #[trigger] members@[i] < nodes@.len(),
            names@.len() == i,
            forall|k: int|
                0 <= k < i ==> (#[trigger] names@[k])@ == nodes@[members@[k] as int].instance_name@,
        decreases members@.len() - i,
    {
        names.push(nodes[members[i]].instance_name.clone());
        i += 1;
    }
    assert(views_of(names@) =~= node_names_at(nodes@, members@));
    let sorted = sort_names(&names);
    proof {
        let v = choose|v: int| 0 <= v < keys@.len() && #[trigger] on_cycle(links@, v);
        assert(members@.contains(v as usize));
        assert(views_of(sorted@).to_multiset() == node_names_at(nodes@, members@).to_multiset());
    }
    Err(PatchError::FeedbackCycle(sorted))
}

} // verus!
