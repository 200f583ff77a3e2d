//! The order in which cables propagate values.
//!
//! Cables are ordered by target module, target port name, source module
//! and source port name, so that propagation is the same from run to run
//! whatever order the cables were created in. Cables with equal keys keep
//! their relative order.

use vstd::prelude::*;

use crate::module::ModuleId;
use crate::names::{lemma_bytes_le_total, lemma_bytes_le_transitive, name_bytes, name_le, name_le_exec};

verus! {

/// What propagation orders a cable by.
#[derive(Debug, Clone)]
pub struct CableKey {
    /// The module of the target port.
    pub target_module: ModuleId,
    /// The name of the target port.
    pub target_port: String,
    /// The module of the source port.
    pub source_module: ModuleId,
    /// The name of the source port.
    pub source_port: String,
}

/// Name `a` comes strictly before name `b`.
pub open spec fn name_lt(a: Seq<char>, b: Seq<char>) -> bool {
    !name_le(b, a)
}

/// Names `a` and `b` have the same place in the order.
pub open spec fn name_eq(a: Seq<char>, b: Seq<char>) -> bool {
    name_le(a, b) && name_le(b, a)
}

/// Key `a` comes no later than key `b`: by target module, then target
/// port, then source module, then source port.
pub open spec fn key_le(a: CableKey, b: CableKey) -> bool {
    let (at, bt) = (a.target_module.0, b.target_module.0);
    let (asr, bsr) = (a.source_module.0, b.source_module.0);
    ||| at < bt
    ||| at == bt && name_lt(a.target_port@, b.target_port@)
    ||| at == bt && name_eq(a.target_port@, b.target_port@) && asr < bsr
    ||| at == bt && name_eq(a.target_port@, b.target_port@) && asr == bsr && name_le(
        a.source_port@,
        b.source_port@,
    )
}

/// Cable `x` goes no later than cable `y`: its key comes first, or the
/// keys tie and `x` was listed first.
pub open spec fn cable_before(keys: Seq<CableKey>, x: int, y: int) -> bool {
    key_le(keys[x], keys[y]) && (key_le(keys[y], keys[x]) ==> x <= y)
}

/// `order` lists every cable index once, sorted by key, ties in listing
/// order.
pub open spec fn is_propagation_order(keys: Seq<CableKey>, order: Seq<usize>) -> bool {
    &&& order.len() == keys.len()
    &&& forall|i: int| 0 <= i < order.len() ==> #[trigger] order[i] < keys.len()
    &&& forall|x: usize| x < keys.len() ==> #[trigger] order.contains(x)
    &&& forall|i: int, j: int| 0 <= i < j < order.len() ==> order[i] != order[j]
    &&& forall|i: int, j: int|
        0 <= i < j < order.len() ==> cable_before(keys, #[trigger] order[i] as int, #[trigger] order[j] as int)
}

proof fn lemma_key_le_total(a: CableKey, b: CableKey)
    ensures
        key_le(a, b) || key_le(b, a),
{
    lemma_bytes_le_total(name_bytes(a.target_port@), name_bytes(b.target_port@));
    lemma_bytes_le_total(name_bytes(a.source_port@), name_bytes(b.source_port@));
}

proof fn lemma_names_transitive(a: Seq<char>, b: Seq<char>, c: Seq<char>)
    ensures
        name_le(a, b) && name_le(b, c) ==> name_le(a, c),
        name_le(a, c) && name_le(c, b) ==> name_le(a, b),
        name_le(b, a) && name_le(a, c) ==> name_le(b, c),
        name_le(b, c) && name_le(c, a) ==> name_le(b, a),
        name_le(c, a) && name_le(a, b) ==> name_le(c, b),
        name_le(c, b) && name_le(b, a) ==> name_le(c, a),
{
    let (x, y, z) = (name_bytes(a), name_bytes(b), name_bytes(c));
    if bytes_chain(x, y, z) {
        lemma_bytes_le_transitive(x, y, z);
    }
    if bytes_chain(x, z, y) {
        lemma_bytes_le_transitive(x, z, y);
    }
    if bytes_chain(y, x, z) {
        lemma_bytes_le_transitive(y, x, z);
    }
    if bytes_chain(y, z, x) {
        lemma_bytes_le_transitive(y, z, x);
    }
    if bytes_chain(z, x, y) {
        lemma_bytes_le_transitive(z, x, y);
    }
    if bytes_chain(z, y, x) {
        lemma_bytes_le_transitive(z, y, x);
    }
}

spec fn bytes_chain(x: Seq<u8>, y: Seq<u8>, z: Seq<u8>) -> bool {
    crate::names::bytes_le(x, y) && crate::names::bytes_le(y, z)
}

proof fn lemma_key_le_transitive(a: CableKey, b: CableKey, c: CableKey)
    requires
        key_le(a, b),
        key_le(b, c),
    ensures
        key_le(a, c),
{
    lemma_names_transitive(a.target_port@, b.target_port@, c.target_port@);
    lemma_names_transitive(a.source_port@, b.source_port@, c.source_port@);
    lemma_bytes_le_total(name_bytes(a.target_port@), name_bytes(b.target_port@));
    lemma_bytes_le_total(name_bytes(b.target_port@), name_bytes(c.target_port@));
    lemma_bytes_le_total(name_bytes(a.target_port@), name_bytes(c.target_port@));
    lemma_bytes_le_total(name_bytes(a.source_port@), name_bytes(b.source_port@));
    lemma_bytes_le_total(name_bytes(b.source_port@), name_bytes(c.source_port@));
    lemma_bytes_le_total(name_bytes(a.source_port@), name_bytes(c.source_port@));
}

proof fn lemma_cable_before_transitive(keys: Seq<CableKey>, x: int, y: int, z: int)
    requires
        0 <= x < keys.len(),
        0 <= y < keys.len(),
        0 <= z < keys.len(),
        cable_before(keys, x, y),
        cable_before(keys, y, z),
    ensures
        cable_before(keys, x, z),
{
    lemma_key_le_transitive(keys[x], keys[y], keys[z]);
    if key_le(keys[z], keys[x]) {
        lemma_key_le_transitive(keys[z], keys[x], keys[y]);
        lemma_key_le_transitive(keys[y], keys[z], keys[x]);
    }
}

/// Whether key `a` comes no later than key `b`.
fn key_le_exec(a: &CableKey, b: &CableKey) -> (r: bool)
    ensures
        r == key_le(*a, *b),
{
    let at = a.target_module.0;
    let bt = b.target_module.0;
    if at != bt {
        return at < bt;
    }
    let tp_ab = name_le_exec(&a.target_port, &b.target_port);
    let tp_ba = name_le_exec(&b.target_port, &a.target_port);
    if !tp_ba {
        return true;
    }
    if !tp_ab {
        return false;
    }
    let asr = a.source_module.0;
    let bsr = b.source_module.0;
    if asr != bsr {
        return asr < bsr;
    }
    name_le_exec(&a.source_port, &b.source_port)
}

/// The order in which the cables propagate: their indices sorted by key,
/// cables with equal keys in the order they are listed (a stable sort).
pub fn propagation_order(keys: &Vec<CableKey>) -> (order: Vec<usize>)
    ensures
        is_propagation_order(keys@, order@),
{
    let n = keys.len();
    let mut out: Vec<usize> = Vec::new();
    let mut k: usize = 0;
    while k < n
        invariant
            n == keys@.len(),
            k <= n,
            out@.len() == k,
            forall|i: int| 0 <= i < out@.len() ==> #[trigger] out@[i] < k,
            forall|x: usize| x < k ==> #[trigger] out@.contains(x),
            forall|i: int, j: int| 0 <= i < j < out@.len() ==> out@[i] != out@[j],
            forall|i: int, j: int|
                0 <= i < j < out@.len() ==> cable_before(
                    keys@,
                    #[trigger] out@[i] as int,
                    #[trigger] out@[j] as int,
                ),
        decreases n - k,
    {
        let mut p: usize = 0;
        while p < out.len() && key_le_exec(&keys[out[p]], &keys[k])
            invariant
                n == keys@.len(),
                k < n,
                p <= out@.len(),
                forall|i: int| 0 <= i < out@.len() ==> #[trigger] out@[i] < k,
                forall|q: int| 0 <= q < p ==> cable_before(keys@, #[trigger] out@[q] as int, k as int),
            decreases out@.len() - p,
        {
            p += 1;
        }
        let ghost before = out@;
        proof {
            assert forall|q: int| p <= q < before.len() implies cable_before(
                keys@,
                k as int,
                #[trigger] before[q] as int,
            ) by {
                let first = before[p as int] as int;
                assert(!key_le(keys@[first], keys@[k as int]));
                lemma_key_le_total(keys@[first], keys@[k as int]);
                if q > p as int {
                    assert(cable_before(keys@, first, before[q] as int));
                    lemma_cable_before_transitive(keys@, k as int, first, before[q] as int);
                }
            }
        }
        out.insert(p, k);
        proof {
            let after = out@;
            assert(after =~= before.insert(p as int, k));
            assert forall|i: int, j: int| 0 <= i < j < after.len() implies cable_before(
                keys@,
                #[trigger] after[i] as int,
                #[trigger] after[j] as int,
            ) by {
                if j < p {
                    assert(after[i] == before[i] && after[j] == before[j]);
                } else if j == p {
                    assert(after[i] == before[i]);
                } else if i == p {
                    assert(after[j] == before[j - 1]);
                } else if i < p {
                    assert(after[i] == before[i] && after[j] == before[j - 1]);
                } else {
                    assert(after[i] == before[i - 1] && after[j] == before[j - 1]);
                }
            }
            assert forall|x: usize| x < k + 1 implies #[trigger] after.contains(x) by {
                if x == k {
                    assert(after[p as int] == k);
                } else {
                    assert(before.contains(x));
                    let i = choose|i: int| 0 <= i < before.len() && before[i] == x;
                    if i < p {
                        assert(after[i] == x);
                    } else {
                        assert(after[i + 1] == x);
                    }
                }
            }
            assert forall|i: int, j: int| 0 <= i < j < after.len() implies after[i] != after[j] by {
                if j < p {
                    assert(after[i] == before[i] && after[j] == before[j]);
                } else if j == p {
                    assert(after[i] == before[i]);
                } else if i == p {
                    assert(after[j] == before[j - 1]);
                } else if i < p {
                    assert(after[i] == before[i] && after[j] == before[j - 1]);
                } else {
                    assert(after[i] == before[i - 1] && after[j] == before[j - 1]);
                }
            }
        }
        k += 1;
    }
    out
}

proof fn lemma_orders_agree_up_to(keys: Seq<CableKey>, o1: Seq<usize>, o2: Seq<usize>, i: int)
    requires
        is_propagation_order(keys, o1),
        is_propagation_order(keys, o2),
        0 <= i < o1.len(),
    ensures
        forall|j: int| 0 <= j <= i ==> o1[j] == o2[j],
    decreases i,
{
    if i > 0 {
        lemma_orders_agree_up_to(keys, o1, o2, i - 1);
    }
    let a = o1[i];
    let b = o2[i];
    assert(o2.contains(a));
    assert(o1.contains(b));
    let ja = choose|j: int| 0 <= j < o2.len() && o2[j] == a;
    let jb = choose|j: int| 0 <= j < o1.len() && o1[j] == b;
    if ja < i {
        assert(o1[ja] == o2[ja]);
    }
    if jb < i {
        assert(o1[jb] == o2[jb]);
    }
    if ja > i && jb > i {
        assert(cable_before(keys, o2[i] as int, o2[ja] as int));
        assert(cable_before(keys, o1[i] as int, o1[jb] as int));
    }
}

/// The propagation order is determined by the keys: two orders that both
/// meet [`is_propagation_order`] for the same keys are equal.
pub proof fn law_propagation_order_unique(keys: Seq<CableKey>, o1: Seq<usize>, o2: Seq<usize>)
    requires
        is_propagation_order(keys, o1),
        is_propagation_order(keys, o2),
    ensures
        o1 == o2,
{
    if o1.len() > 0 {
        lemma_orders_agree_up_to(keys, o1, o2, o1.len() - 1);
    }
    assert(o1 =~= o2);
}

} // verus!
