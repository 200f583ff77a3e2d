//! Ordering of instance names.
//!
//! Names are ordered as Rust orders `String`s: lexicographically by
//! their UTF-8 bytes. Error reports list module names in this order.

use vstd::prelude::*;

verus! {

/// The UTF-8 bytes of a name.
pub open spec fn name_bytes(s: Seq<char>) -> Seq<u8> {
    vstd::utf8::encode_utf8(s)
}

/// `a` comes no later than `b` in lexicographic byte order.
pub open spec fn bytes_le(a: Seq<u8>, b: Seq<u8>) -> bool
    decreases a.len(),
{
    if a.len() == 0 {
        true
    } else if b.len() == 0 {
        false
    } else if a[0] != b[0] {
        a[0] < b[0]
    } else {
        bytes_le(a.drop_first(), b.drop_first())
    }
}

/// Name `a` comes no later than name `b`.
pub open spec fn name_le(a: Seq<char>, b: Seq<char>) -> bool {
    bytes_le(name_bytes(a), name_bytes(b))
}

/// The names are in ascending order.
pub open spec fn names_sorted(s: Seq<Seq<char>>) -> bool {
    forall|i: int, j: int| 0 <= i < j < s.len() ==> name_le(#[trigger] s[i], #[trigger] s[j])
}

/// The views of a list of strings.
pub open spec fn views_of(v: Seq<String>) -> Seq<Seq<char>> {
    v.map_values(|s: String| s@)
}

pub(crate) proof fn lemma_bytes_le_total(a: Seq<u8>, b: Seq<u8>)
    ensures
        bytes_le(a, b) || bytes_le(b, a),
    decreases a.len(),
{
    if a.len() > 0 && b.len() > 0 && a[0] == b[0] {
        lemma_bytes_le_total(a.drop_first(), b.drop_first());
    }
}

pub(crate) proof fn lemma_bytes_le_transitive(a: Seq<u8>, b: Seq<u8>, c: Seq<u8>)
    requires
        bytes_le(a, b),
        bytes_le(b, c),
    ensures
        bytes_le(a, c),
    decreases a.len(),
{
    if a.len() > 0 && b.len() > 0 && c.len() > 0 && a[0] == b[0] && b[0] == c[0] {
        lemma_bytes_le_transitive(a.drop_first(), b.drop_first(), c.drop_first());
    }
}

proof fn lemma_bytes_le_skip(a: Seq<u8>, b: Seq<u8>, i: int)
    requires
        0 <= i <= a.len(),
        i <= b.len(),
        forall|j: int| 0 <= j < i ==> a[j] == b[j],
    ensures
        bytes_le(a, b) == bytes_le(a.skip(i), b.skip(i)),
    decreases i,
{
    if i > 0 {
        lemma_bytes_le_skip(a.drop_first(), b.drop_first(), i - 1);
        assert(a.drop_first().skip(i - 1) =~= a.skip(i));
        assert(b.drop_first().skip(i - 1) =~= b.skip(i));
    } else {
        assert(a.skip(0) =~= a);
        assert(b.skip(0) =~= b);
    }
}

/// Whether name `a` comes no later than name `b`.
pub(crate) fn name_le_exec(a: &String, b: &String) -> (r: bool)
    ensures
        r == name_le(a@, b@),
{
    let ab = a.as_str().as_bytes();
    let bb = b.as_str().as_bytes();
    let mut i: usize = 0;
    while i < ab.len() && i < bb.len() && ab[i] == bb[i]
        invariant
            i <= ab@.len(),
            i <= bb@.len(),
            ab@ == name_bytes(a@),
            bb@ == name_bytes(b@),
            forall|j: int| 0 <= j < i ==> ab@[j] == bb@[j],
        decreases ab@.len() - i,
    {
        i += 1;
    }
    proof {
        lemma_bytes_le_skip(ab@, bb@, i as int);
    }
    if i == ab.len() {
        true
    } else if i == bb.len() {
        false
    } else {
        ab[i] < bb[i]
    }
}

/// Sorts names into ascending byte order (a stable insertion sort).
pub fn sort_names(names: &Vec<String>) -> (sorted: Vec<String>)
    ensures
        names_sorted(views_of(sorted@)),
        views_of(sorted@).to_multiset() == views_of(names@).to_multiset(),
        sorted@.len() == names@.len(),
{
    broadcast use vstd::seq_lib::group_to_multiset_ensures;

    let mut out: Vec<String> = Vec::new();
    let mut k: usize = 0;
    while k < names.len()
        invariant
            k <= names@.len(),
            out@.len() == k,
            names_sorted(views_of(out@)),
            views_of(out@).to_multiset() == views_of(names@.take(k as int)).to_multiset(),
        decreases names@.len() - k,
    {
        let name = names[k].clone();
        let mut p: usize = 0;
        while p < out.len() && name_le_exec(&out[p], &name)
            invariant
                p <= out@.len(),
                k < names@.len(),
                name@ == names@[k as int]@,
                forall|q: int| 0 <= q < p ==> name_le(#[trigger] out@[q]@, name@),
            decreases out@.len() - p,
        {
            p += 1;
        }
        let ghost before = views_of(out@);
        proof {
            assert forall|q: int| p <= q < out@.len() implies name_le(name@, #[trigger] out@[q]@) by {
                lemma_bytes_le_total(name_bytes(out@[p as int]@), name_bytes(name@));
                if q > p {
                    assert(name_le(before[p as int], before[q]));
                    lemma_bytes_le_transitive(
                        name_bytes(name@),
                        name_bytes(out@[p as int]@),
                        name_bytes(out@[q]@),
                    );
                }
            }
        }
        out.insert(p, name);
        proof {
            let after = views_of(out@);
            assert(after =~= before.insert(p as int, names@[k as int]@));
            vstd::seq_lib::to_multiset_insert(before, p as int, names@[k as int]@);
            assert(names@.take(k + 1) =~= names@.take(k as int).push(names@[k as int]));
            assert(views_of(names@.take(k + 1)) =~= views_of(names@.take(k as int)).push(
                names@[k as int]@,
            ));
            vstd::seq_lib::to_multiset_build(views_of(names@.take(k as int)), names@[k as int]@);
            assert forall|i: int, j: int| 0 <= i < j < after.len() implies name_le(
                #[trigger] after[i],
                #[trigger] after[j],
            ) by {
                if j < p {
                    assert(after[i] == before[i] && after[j] == before[j]);
                } else if j == p {
                    assert(after[i] == before[i]);
                } else if i == p {
                    assert(after[j] == before[j - 1]);
                } else if i < p {
                    assert(after[i] == before[i] && after[j] == before[j - 1]);
                } else {
                    assert(after[i] == before[i - 1] && after[j] == before[j - 1]);
                }
            }
        }
        k += 1;
    }
    proof {
        assert(names@.take(names@.len() as int) =~= names@);
    }
    out
}

} // verus!
