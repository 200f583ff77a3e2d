//! MIDI port selection and port health.
//!
//! A configured port name selects the first system port whose name
//! contains it, both compared in lower case. Output ports whose send once
//! failed are marked lost and refuse further sends.

use vstd::prelude::*;
use vstd::string::StrSliceExecFns;

verus! {

/// The lower-case form of a string, as `str::to_lowercase` gives it.
pub uninterp spec fn lowercase(s: Seq<char>) -> Seq<char>;

/// `needle` occurs in `hay` as a contiguous run of characters.
pub open spec fn contains_run(hay: Seq<char>, needle: Seq<char>) -> bool {
    exists|i: int| 0 <= i && i + needle.len() <= hay.len() && #[trigger] hay.subrange(i, i + needle.len()) == needle
}

/// `str::to_lowercase`: the string with every character replaced by its
/// lower-case mapping. Claimed: the result is [`lowercase`] of the
/// argument, a function of the argument alone (the mapping is fixed by
/// Unicode, not by a locale).
#[verifier::external_body]
fn to_lower(s: &str) -> (r: String)
    ensures
        r@ == lowercase(s@),
{
    s.to_lowercase()
}

/// Whether `needle` occurs in `hay` as a contiguous run of characters,
/// as `str::contains` with a string pattern answers.
fn str_contains(hay: &str, needle: &str) -> (r: bool)
    ensures
        r == contains_run(hay@, needle@),
{
    let h = hay.unicode_len();
    let n = needle.unicode_len();
    if n > h {
        proof {
            assert forall|i: int| 0 <= i && i + needle@.len() <= hay@.len() implies #[trigger] hay@.subrange(
                i,
                i + needle@.len(),
            ) != needle@ by {}
        }
        return false;
    }
    let mut i: usize = 0;
    while i <= h - n
        invariant
            h == hay@.len(),
            n == needle@.len(),
            n <= h,
            i <= h - n + 1,
            forall|k: int| 0 <= k < i ==> #[trigger] hay@.subrange(k, k + n) != needle@,
        decreases h - n + 1 - i,
    {
        let mut j: usize = 0;
        let mut same = true;
        while j < n
            invariant
                h == hay@.len(),
                n == needle@.len(),
                i + n <= h,
                j <= n,
                same <==> forall|m: int| 0 <= m < j ==> hay@[i + m] == needle@[m],
            decreases n - j,
        {
            if hay.get_char(i + j) != needle.get_char(j) {
                same = false;
            }
            j += 1;
        }
        if same {
            assert(hay@.subrange(i as int, i + n) =~= needle@);
            return true;
        }
        assert(hay@.subrange(i as int, i + n) != needle@) by {
            let m = choose|m: int| 0 <= m < n && hay@[i + m] != needle@[m];
            assert(hay@.subrange(i as int, i + n)[m] == hay@[i + m]);
        }
        i += 1;
    }
    proof {
        assert forall|k: int| 0 <= k && k + needle@.len() <= hay@.len() implies #[trigger] hay@.subrange(
            k,
            k + needle@.len(),
        ) != needle@ by {
            assert(k < i);
        }
    }
    false
}

/// The port `name` matches the configured name `wanted`: the lower-case
/// port name contains the lower-case configured name.
pub open spec fn port_matches(name: Option<String>, wanted: Seq<char>) -> bool {
    name matches Some(n) && contains_run(lowercase(n@), lowercase(wanted))
}

/// The first name (among those that could be read) that contains
/// `needle`; `None` when none does.
pub fn first_containing(names: &Vec<Option<String>>, needle: &str) -> (r: Option<usize>)
    ensures
        match r {
            Some(i) => i < names@.len() && (names@[i as int] matches Some(n) && contains_run(
                n@,
                needle@,
            )) && forall|j: int|
                0 <= j < i ==> !(#[trigger] names@[j] matches Some(n) && contains_run(n@, needle@)),
            None => forall|j: int|
                0 <= j < names@.len() ==> !(#[trigger] names@[j] matches Some(n) && contains_run(
                    n@,
                    needle@,
                )),
        },
{
    let mut i: usize = 0;
    while i < names.len()
        invariant
            i <= names@.len(),
            forall|j: int|
                0 <= j < i ==> !(#[trigger] names@[j] matches Some(n) && contains_run(n@, needle@)),
        decreases names@.len() - i,
    {
        match &names[i] {
            Some(name) => {
                if str_contains(name.as_str(), needle) {
                    return Some(i);
                }
            },
            None => {},
        }
        i += 1;
    }
    None
}

/// Finds the port a configured name selects: the first port whose name
/// (when it could be read) contains the configured name, both in lower
/// case. `None` when no port matches.
pub fn find_port(names: &Vec<Option<String>>, wanted: &str) -> (r: Option<usize>)
    ensures
        match r {
            Some(i) => i < names@.len() && port_matches(names@[i as int], wanted@) && forall|j: int|
                0 <= j < i ==> !port_matches(#[trigger] names@[j], wanted@),
            None => forall|j: int| 0 <= j < names@.len() ==> !port_matches(#[trigger] names@[j], wanted@),
        },
{
    let target = to_lower(wanted);
    let mut lowered: Vec<Option<String>> = Vec::new();
    let mut i: usize = 0;
    while i < names.len()
        invariant
            i <= names@.len(),
            lowered@.len() == i,
            forall|j: int|
                0 <= j < i ==> match #[trigger] names@[j] {
                    Some(n) => lowered@[j] matches Some(l) && l@ == lowercase(n@),
                    None => lowered@[j] is None,
                },
        decreases names@.len() - i,
    {
        match &names[i] {
            Some(name) => lowered.push(Some(to_lower(name.as_str()))),
            None => lowered.push(None),
        }
        i += 1;
    }
    let r = first_containing(&lowered, target.as_str());
    proof {
        assert forall|j: int| 0 <= j < names@.len() implies port_matches(#[trigger] names@[j], wanted@)
            == (lowered@[j] matches Some(n) && contains_run(n@, target@)) by {
            match names@[j] {
                Some(n) => {},
                None => {},
            }
        }
    }
    r
}

/// Why a send to an output port was refused.
#[derive(Debug, Clone, Copy, PartialEq, Eq, Structural)]
pub enum SendRefusal {
    /// No port has this index.
    NoSuchPort,
    /// The port was marked lost after a failed send.
    PortLost,
}

/// Which output ports are still usable: once a send to a port fails, the
/// port is lost until the runtime restarts.
#[derive(Debug, Clone)]
pub struct PortHealth {
    lost: Vec<bool>,
}

impl PortHealth {
    /// Whether each port is lost, by index.
    pub closed spec fn spec_lost(&self) -> Seq<bool> {
        self.lost@
    }

    /// Health for `count` ports, none of them lost.
    pub fn new(count: usize) -> (h: Self)
        ensures
            h.spec_lost() == Seq::new(count as nat, |i: int| false),
    {
        let lost: Vec<bool> = vec![false; count];
        assert(lost@ =~= Seq::new(count as nat, |i: int| false));
        PortHealth { lost }
    }

    /// Checks whether a send to `port_index` may go ahead: it must name a
    /// port, and the port must not be lost.
    pub fn check_send(&self, port_index: u8) -> (r: Result<usize, SendRefusal>)
        ensures
            port_index >= self.spec_lost().len() ==> r == Err::<usize, SendRefusal>(SendRefusal::NoSuchPort),
            port_index < self.spec_lost().len() && self.spec_lost()[port_index as int] ==> r == Err::<
                usize,
                SendRefusal,
            >(SendRefusal::PortLost),
            port_index < self.spec_lost().len() && !self.spec_lost()[port_index as int] ==> r == Ok::<
                usize,
                SendRefusal,
            >(port_index as usize),
    {
        let idx = port_index as usize;
        if idx >= self.lost.len() {
            return Err(SendRefusal::NoSuchPort);
        }
        if self.lost[idx] {
            return Err(SendRefusal::PortLost);
        }
        Ok(idx)
    }

    /// Marks a port lost after a failed send; out-of-range indices change
    /// nothing.
    pub fn mark_lost(&mut self, port_index: usize)
        ensures
            port_index < old(self).spec_lost().len() ==> final(self).spec_lost() == old(
                self,
            ).spec_lost().update(port_index as int, true),
            port_index >= old(self).spec_lost().len() ==> final(self).spec_lost() == old(
                self,
            ).spec_lost(),
    {
        if port_index < self.lost.len() {
            self.lost.set(port_index, true);
        }
    }

    /// Whether the port is lost; an index without a port counts as lost.
    pub fn is_port_lost(&self, port_index: u8) -> (b: bool)
        ensures
            b == (port_index >= self.spec_lost().len() || self.spec_lost()[port_index as int]),
    {
        let idx = port_index as usize;
        if idx < self.lost.len() {
            self.lost[idx]
        } else {
            true
        }
    }
}

/// The lost flags after marking the ports in `marks`, in order, as
/// [`PortHealth::mark_lost`] does.
pub open spec fn after_marks(lost: Seq<bool>, marks: Seq<int>) -> Seq<bool>
    decreases marks.len(),
{
    if marks.len() == 0 {
        lost
    } else {
        let before = after_marks(lost, marks.drop_last());
        let q = marks.last();
        if 0 <= q < before.len() {
            before.update(q, true)
        } else {
            before
        }
    }
}

/// A lost port stays lost: whatever ports are marked afterwards, it is
/// still lost, so every later send to it is refused.
pub proof fn law_lost_port_stays_lost(lost: Seq<bool>, marks: Seq<int>, p: int)
    requires
        0 <= p < lost.len(),
        lost[p],
    ensures
        after_marks(lost, marks).len() == lost.len(),
        after_marks(lost, marks)[p],
    decreases marks.len(),
{
    if marks.len() > 0 {
        law_lost_port_stays_lost(lost, marks.drop_last(), p);
    }
}

} // verus!
