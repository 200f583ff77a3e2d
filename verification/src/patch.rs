//! Patch validation.
//!
//! A patch names module instances (kind and instance name) and the
//! cables between their ports. [`validate_patch`] checks it against the
//! catalog of registered module kinds and their port schemas:
//!
//! 1. all module kinds are registered;
//! 2. no instance name is used twice;
//! 3. every cable endpoint names an existing module and port, and the two
//!    ends carry the same value kind unless the cable has a transform;
//! 4. ports fed by several cables have a merge policy that allows it;
//! 5. no feedback cycle runs through the modules.
//!
//! The first failed check decides the error.

use vstd::prelude::*;

use crate::error::PatchError;
use crate::graph::{cycle_members, edges_within, on_cycle};
use crate::module::PortSchema;
use crate::names::{names_sorted, sort_names, views_of};
use crate::port::{merge_policy_allows, MergePolicy};

verus! {

/// A module instance of a patch, as validation sees it.
#[derive(Debug, Clone)]
pub struct ModuleDecl {
    /// The module kind name (e.g. `"vco"`).
    pub kind: String,
    /// The instance name (e.g. `"vco_1"`).
    pub instance_name: String,
}

/// A cable of a patch, as validation sees it.
#[derive(Debug)]
pub struct CableDecl {
    /// `(module_instance_name, port_name)` of the source.
    pub source: (String, String),
    /// `(module_instance_name, port_name)` of the target.
    pub target: (String, String),
    /// Whether the cable carries a signal transform.
    pub has_transform: bool,
}

/// The modules and cables of a patch.
#[derive(Debug)]
pub struct PatchGraph {
    /// The module instances.
    pub modules: Vec<ModuleDecl>,
    /// The cables between their ports.
    pub cables: Vec<CableDecl>,
}

/// A registered module kind and the ports it declares.
#[derive(Debug, Clone)]
pub struct KindEntry {
    /// The module kind name.
    pub kind: String,
    /// The ports the kind declares.
    pub port_schemas: Vec<PortSchema>,
}

/// The registered module kinds, as validation sees the registry.
#[derive(Debug, Clone)]
pub struct ModuleCatalog {
    /// One entry per registered kind.
    pub entries: Vec<KindEntry>,
}

// ── Lookups ───────────────────────────────────────────────────────

/// `i` is the first catalog entry of the given kind.
pub open spec fn is_first_kind(entries: Seq<KindEntry>, kind: Seq<char>, i: int) -> bool {
    &&& 0 <= i < entries.len()
    &&& entries[i].kind@ == kind
    &&& forall|j: int| 0 <= j < i ==> (#[trigger] entries[j]).kind@ != kind
}

/// The kind is registered in the catalog.
pub open spec fn kind_registered(cat: ModuleCatalog, kind: Seq<char>) -> bool {
    exists|i: int| 0 <= i < cat.entries@.len() && (#[trigger] cat.entries@[i]).kind@ == kind
}

/// The ports declared by the first catalog entry of the given kind.
pub open spec fn kind_ports(cat: ModuleCatalog, kind: Seq<char>) -> Seq<PortSchema> {
    cat.entries@[choose|i: int| is_first_kind(cat.entries@, kind, i)].port_schemas@
}

/// `i` is the first module with the given instance name.
pub open spec fn is_first_module(mods: Seq<ModuleDecl>, name: Seq<char>, i: int) -> bool {
    &&& 0 <= i < mods.len()
    &&& mods[i].instance_name@ == name
    &&& forall|j: int| 0 <= j < i ==> (#[trigger] mods[j]).instance_name@ != name
}

/// Some module has the given instance name.
pub open spec fn module_exists(g: PatchGraph, name: Seq<char>) -> bool {
    exists|i: int| 0 <= i < g.modules@.len() && (#[trigger] g.modules@[i]).instance_name@ == name
}

/// The index of the first module with the given instance name.
pub open spec fn module_index(g: PatchGraph, name: Seq<char>) -> int {
    choose|i: int| is_first_module(g.modules@, name, i)
}

/// `i` is the first port schema with the given name.
pub open spec fn is_first_port(ps: Seq<PortSchema>, name: Seq<char>, i: int) -> bool {
    &&& 0 <= i < ps.len()
    &&& ps[i].name@ == name
    &&& forall|j: int| 0 <= j < i ==> (#[trigger] ps[j]).name@ != name
}

/// Some port schema has the given name.
pub open spec fn port_exists(ps: Seq<PortSchema>, name: Seq<char>) -> bool {
    exists|i: int| 0 <= i < ps.len() && (#[trigger] ps[i]).name@ == name
}

/// The ports of the module with the given instance name.
pub open spec fn module_ports(g: PatchGraph, cat: ModuleCatalog, name: Seq<char>) -> Seq<PortSchema> {
    kind_ports(cat, g.modules@[module_index(g, name)].kind@)
}

/// The schema of a cable endpoint `(module, port)`.
pub open spec fn endpoint_schema(g: PatchGraph, cat: ModuleCatalog, ep: (String, String)) -> PortSchema {
    let ps = module_ports(g, cat, ep.0@);
    ps[choose|i: int| is_first_port(ps, ep.1@, i)]
}

/// The error an endpoint reference gives, if any.
pub open spec fn endpoint_error(g: PatchGraph, cat: ModuleCatalog, ep: (String, String)) -> Option<
    PatchError,
> {
    if !module_exists(g, ep.0@) {
        Some(PatchError::UnknownPort { module: ep.0, port: ep.1 })
    } else if !kind_registered(cat, g.modules@[module_index(g, ep.0@)].kind@) {
        Some(PatchError::UnknownModuleKind(g.modules@[module_index(g, ep.0@)].kind))
    } else if !port_exists(module_ports(g, cat, ep.0@), ep.1@) {
        Some(PatchError::UnknownPort { module: ep.0, port: ep.1 })
    } else {
        None
    }
}

/// The error the `c`-th cable gives in step 3, if any.
pub open spec fn cable_error(g: PatchGraph, cat: ModuleCatalog, c: int) -> Option<PatchError> {
    let cable = g.cables@[c];
    if endpoint_error(g, cat, cable.source) is Some {
        endpoint_error(g, cat, cable.source)
    } else if endpoint_error(g, cat, cable.target) is Some {
        endpoint_error(g, cat, cable.target)
    } else {
        let s = endpoint_schema(g, cat, cable.source);
        let t = endpoint_schema(g, cat, cable.target);
        if s.value_kind != t.value_kind && !cable.has_transform {
            Some(PatchError::KindMismatch { source_kind: s.value_kind, target_kind: t.value_kind })
        } else {
            None
        }
    }
}

/// Two cables end at the same port.
pub open spec fn same_target(a: CableDecl, b: CableDecl) -> bool {
    a.target.0@ == b.target.0@ && a.target.1@ == b.target.1@
}

/// Another cable ends at the same port as the `c`-th cable.
pub open spec fn target_shared(g: PatchGraph, c: int) -> bool {
    exists|d: int| 0 <= d < g.cables@.len() && d != c && same_target(#[trigger] g.cables@[d], g.cables@[c])
}

/// The error the `c`-th cable's target port gives in step 4, if any.
pub open spec fn merge_error(g: PatchGraph, cat: ModuleCatalog, c: int) -> Option<PatchError> {
    let cable = g.cables@[c];
    let s = endpoint_schema(g, cat, cable.target);
    if target_shared(g, c) && (s.merge_policy == MergePolicy::Reject || !merge_policy_allows(
        s.merge_policy,
        s.value_kind,
    )) {
        Some(
            PatchError::IllegalMerge {
                module: cable.target.0,
                port: cable.target.1,
                kind: s.value_kind,
                policy: s.merge_policy,
            },
        )
    } else {
        None
    }
}

/// The module graph of a patch: one edge per cable, from the source
/// module's index to the target module's index.
pub open spec fn patch_edges(g: PatchGraph) -> Seq<(usize, usize)> {
    Seq::new(
        g.cables@.len(),
        |c: int|
            (
                module_index(g, g.cables@[c].source.0@) as usize,
                module_index(g, g.cables@[c].target.0@) as usize,
            ),
    )
}

/// `ms` lists, in ascending order, the modules that lie on a cycle.
pub open spec fn is_cycle_member_list(n: int, edges: Seq<(usize, usize)>, ms: Seq<usize>) -> bool {
    &&& forall|i: int, j: int| 0 <= i < j < ms.len() ==> ms[i] < ms[j]
    &&& forall|v: usize| #[trigger] ms.contains(v) <==> v < n && on_cycle(edges, v as int)
}

/// The instance names of the listed modules.
pub open spec fn names_at(mods: Seq<ModuleDecl>, ms: Seq<usize>) -> Seq<Seq<char>> {
    ms.map_values(|i: usize| mods[i as int].instance_name@)
}

/// `names` reports the modules on cycles: their instance names, sorted.
pub open spec fn reports_cycle(mods: Seq<ModuleDecl>, edges: Seq<(usize, usize)>, names: Seq<String>) -> bool {
    &&& names_sorted(views_of(names))
    &&& exists|ms: Seq<usize>|
        is_cycle_member_list(mods.len() as int, edges, ms) && #[trigger] views_of(names).to_multiset()
            == names_at(mods, ms).to_multiset()
}

/// What validating `g` against `cat` returns: the error of the first
/// failing check, in the order of the checks, or `Ok(())`.
pub open spec fn validation_outcome(g: PatchGraph, cat: ModuleCatalog, r: Result<(), PatchError>) -> bool {
    let mods = g.modules@;
    let n = g.modules@.len() as int;
    let m = g.cables@.len() as int;
    if exists|i: int| 0 <= i < n && !kind_registered(cat, (#[trigger] mods[i]).kind@) {
        exists|i: int|
            0 <= i < n && !kind_registered(cat, (#[trigger] mods[i]).kind@) && (forall|j: int|
                0 <= j < i ==> kind_registered(cat, (#[trigger] mods[j]).kind@)) && r == Err::<
                (),
                PatchError,
            >(PatchError::UnknownModuleKind(mods[i].kind))
    } else if exists|i: int, j: int|
        0 <= j < i < n && (#[trigger] mods[j]).instance_name@ == (#[trigger] mods[i]).instance_name@ {
        exists|i: int|
            0 <= i < n && (exists|j: int|
                0 <= j < i && (#[trigger] mods[j]).instance_name@ == mods[i].instance_name@) && (
            forall|i2: int, j: int|
                0 <= j < i2 < i ==> (#[trigger] mods[j]).instance_name@ != (
                #[trigger] mods[i2]).instance_name@) && r == Err::<(), PatchError>(
                PatchError::DuplicateInstanceName(#[trigger] mods[i].instance_name),
            )
    } else if exists|c: int| 0 <= c < m && #[trigger] cable_error(g, cat, c) is Some {
        exists|c: int|
            0 <= c < m && #[trigger] cable_error(g, cat, c) is Some && (forall|d: int|
                0 <= d < c ==> #[trigger] cable_error(g, cat, d) is None) && r == Err::<(), PatchError>(
                cable_error(g, cat, c).unwrap(),
            )
    } else if exists|c: int| 0 <= c < m && #[trigger] merge_error(g, cat, c) is Some {
        exists|c: int|
            0 <= c < m && #[trigger] merge_error(g, cat, c) is Some && (forall|d: int|
                0 <= d < c ==> #[trigger] merge_error(g, cat, d) is None) && r == Err::<(), PatchError>(
                merge_error(g, cat, c).unwrap(),
            )
    } else if exists|v: int| 0 <= v < n && #[trigger] on_cycle(patch_edges(g), v) {
        r matches Err(PatchError::FeedbackCycle(names)) && reports_cycle(mods, patch_edges(g), names@)
    } else {
        r == Ok::<(), PatchError>(())
    }
}

// ── Executable lookups ────────────────────────────────────────────

/// Whether two string slices hold the same characters.
fn str_eq(a: &str, b: &str) -> (r: bool)
    ensures
        r == (a@ == b@),
{
    broadcast use vstd::utf8::encode_utf8_decode_utf8;

    let ab = a.as_bytes();
    let bb = b.as_bytes();
    if ab.len() != bb.len() {
        return false;
    }
    let mut i: usize = 0;
    while i < ab.len()
        invariant
            i <= ab@.len(),
            ab@.len() == bb@.len(),
            ab@ == vstd::utf8::encode_utf8(a@),
            bb@ == vstd::utf8::encode_utf8(b@),
            forall|j: int| 0 <= j < i ==> ab@[j] == bb@[j],
        decreases ab@.len() - i,
    {
        if ab[i] != bb[i] {
            return false;
        }
        i += 1;
    }
    assert(ab@ =~= bb@);
    assert(vstd::utf8::decode_utf8(ab@) == a@);
    true
}

/// The first catalog entry of the given kind.
fn find_kind(cat: &ModuleCatalog, kind: &String) -> (r: Option<usize>)
    ensures
        r matches Some(i) ==> is_first_kind(cat.entries@, kind@, i as int),
        r is None ==> !kind_registered(*cat, kind@),
{
    let mut i: usize = 0;
    while i < cat.entries.len()
        invariant
            i <= cat.entries@.len(),
            forall|j: int| 0 <= j < i ==> (#[trigger] cat.entries@[j]).kind@ != kind@,
        decreases cat.entries@.len() - i,
    {
        if cat.entries[i].kind == *kind {
            return Some(i);
        }
        i += 1;
    }
    None
}

/// The first module with the given instance name.
fn find_module(g: &PatchGraph, name: &String) -> (r: Option<usize>)
    ensures
        r matches Some(i) ==> is_first_module(g.modules@, name@, i as int),
        r is None ==> !module_exists(*g, name@),
{
    let mut i: usize = 0;
    while i < g.modules.len()
        invariant
            i <= g.modules@.len(),
            forall|j: int| 0 <= j < i ==> (#[trigger] g.modules@[j]).instance_name@ != name@,
        decreases g.modules@.len() - i,
    {
        if g.modules[i].instance_name == *name {
            return Some(i);
        }
        i += 1;
    }
    None
}

/// The first port schema with the given name.
fn find_port(ps: &Vec<PortSchema>, name: &String) -> (r: Option<usize>)
    ensures
        r matches Some(i) ==> is_first_port(ps@, name@, i as int),
        r is None ==> !port_exists(ps@, name@),
{
    let mut i: usize = 0;
    while i < ps.len()
        invariant
            i <= ps@.len(),
            forall|j: int| 0 <= j < i ==> (#[trigger] ps@[j]).name@ != name@,
        decreases ps@.len() - i,
    {
        if str_eq(ps[i].name, name.as_str()) {
            return Some(i);
        }
        i += 1;
    }
    None
}

proof fn lemma_first_module_unique(g: PatchGraph, name: Seq<char>, i: int)
    requires
        is_first_module(g.modules@, name, i),
    ensures
        module_index(g, name) == i,
{
    let k = module_index(g, name);
    assert(is_first_module(g.modules@, name, k));
    if k < i {
        assert(g.modules@[k].instance_name@ != name);
    }
    if i < k {
        assert(g.modules@[i].instance_name@ != name);
    }
}

proof fn lemma_first_kind_unique(cat: ModuleCatalog, kind: Seq<char>, i: int)
    requires
        is_first_kind(cat.entries@, kind, i),
    ensures
        (choose|k: int| is_first_kind(cat.entries@, kind, k)) == i,
{
    let k = choose|k: int| is_first_kind(cat.entries@, kind, k);
    assert(is_first_kind(cat.entries@, kind, k));
    if k < i {
        assert(cat.entries@[k].kind@ != kind);
    }
    if i < k {
        assert(cat.entries@[i].kind@ != kind);
    }
}

proof fn lemma_first_port_unique(ps: Seq<PortSchema>, name: Seq<char>, i: int)
    requires
        is_first_port(ps, name, i),
    ensures
        (choose|k: int| is_first_port(ps, name, k)) == i,
{
    let k = choose|k: int| is_first_port(ps, name, k);
    assert(is_first_port(ps, name, k));
    if k < i {
        assert(ps[k].name@ != name);
    }
    if i < k {
        assert(ps[i].name@ != name);
    }
}

/// Finds the schema of the port `port_name` on the module instance
/// `module_name`.
fn find_port_schema(g: &PatchGraph, cat: &ModuleCatalog, module_name: &String, port_name: &String) -> (r:
    Result<PortSchema, PatchError>)
    ensures
        match r {
            Ok(s) => endpoint_error(*g, *cat, (*module_name, *port_name)) is None && s
                == endpoint_schema(*g, *cat, (*module_name, *port_name)),
            Err(e) => endpoint_error(*g, *cat, (*module_name, *port_name)) == Some(e),
        },
{
    let ghost ep = (*module_name, *port_name);
    let mi = match find_module(g, module_name) {
        Some(mi) => mi,
        None => {
            return Err(PatchError::UnknownPort { module: module_name.clone(), port: port_name.clone() });
        },
    };
    proof {
        lemma_first_module_unique(*g, module_name@, mi as int);
    }
    let module = &g.modules[mi];
    let ki = match find_kind(cat, &module.kind) {
        Some(ki) => ki,
        None => {
            return Err(PatchError::UnknownModuleKind(module.kind.clone()));
        },
    };
    proof {
        lemma_first_kind_unique(*cat, module.kind@, ki as int);
    }
    let ps = &cat.entries[ki].port_schemas;
    match find_port(ps, port_name) {
        Some(pi) => {
            proof {
                lemma_first_port_unique(ps@, port_name@, pi as int);
            }
            Ok(ps[pi])
        },
        None => Err(PatchError::UnknownPort { module: module_name.clone(), port: port_name.clone() }),
    }
}

/// Checks that the port `port_name` exists on the module instance
/// `module_name`.
fn validate_port_ref(g: &PatchGraph, cat: &ModuleCatalog, module_name: &String, port_name: &String) -> (r:
    Result<(), PatchError>)
    ensures
        match r {
            Ok(_) => endpoint_error(*g, *cat, (*module_name, *port_name)) is None,
            Err(e) => endpoint_error(*g, *cat, (*module_name, *port_name)) == Some(e),
        },
{
    match find_port_schema(g, cat, module_name, port_name) {
        Ok(_) => Ok(()),
        Err(e) => Err(e),
    }
}

/// Every cable names existing modules at both ends.
pub open spec fn cable_modules_exist(g: PatchGraph) -> bool {
    forall|c: int|
        0 <= c < g.cables@.len() ==> module_exists(g, (#[trigger] g.cables@[c]).source.0@)
            && module_exists(g, g.cables@[c].target.0@)
}

/// No two modules share an instance name.
pub open spec fn instance_names_distinct(g: PatchGraph) -> bool {
    forall|i: int, j: int|
        0 <= j < i < g.modules@.len() ==> (#[trigger] g.modules@[j]).instance_name@ != (
        #[trigger] g.modules@[i]).instance_name@
}

/// The module-index graph of a patch whose cable endpoints all exist.
fn build_patch_edges(g: &PatchGraph) -> (edges: Vec<(usize, usize)>)
    requires
        cable_modules_exist(*g),
    ensures
        edges@ == patch_edges(*g),
        edges_within(edges@, g.modules@.len() as int),
{
    let mut edges: Vec<(usize, usize)> = Vec::new();
    let mut c: usize = 0;
    while c < g.cables.len()
        invariant
            c <= g.cables@.len(),
            cable_modules_exist(*g),
            edges@.len() == c,
            forall|d: int| 0 <= d < c ==> #[trigger] edges@[d] == patch_edges(*g)[d],
            edges_within(edges@, g.modules@.len() as int),
        decreases g.cables@.len() - c,
    {
        let cable = &g.cables[c];
        let si = find_module(g, &cable.source.0).unwrap();
        let ti = find_module(g, &cable.target.0).unwrap();
        proof {
            lemma_first_module_unique(*g, cable.source.0@, si as int);
            lemma_first_module_unique(*g, cable.target.0@, ti as int);
        }
        edges.push((si, ti));
        c += 1;
    }
    assert(edges@ =~= patch_edges(*g));
    edges
}

/// Checks the module graph of a patch for feedback cycles; cables from a
/// module to itself do not count.
///
/// Returns `Err(FeedbackCycle(names))` with the sorted instance names of
/// the modules that lie on a cycle.
pub fn check_patch_cycles(g: &PatchGraph) -> (r: Result<(), PatchError>)
    requires
        cable_modules_exist(*g),
        instance_names_distinct(*g),
    ensures
        match r {
            Ok(_) => forall|v: int| 0 <= v < g.modules@.len() ==> !#[trigger] on_cycle(patch_edges(*g), v),
            Err(e) => {
                &&& exists|v: int| 0 <= v < g.modules@.len() && #[trigger] on_cycle(patch_edges(*g), v)
                &&& e matches PatchError::FeedbackCycle(names) && reports_cycle(g.modules@, patch_edges(*g), names@)
            },
        },
{
    let edges = build_patch_edges(g);
    let members = cycle_members(g.modules.len(), &edges);
    if members.len() == 0 {
        proof {
            assert forall|v: int| 0 <= v < g.modules@.len() implies !#[trigger] on_cycle(patch_edges(*g), v) by {
                if on_cycle(patch_edges(*g), v) {
                    assert(members@.contains(v as usize));
                }
            }
        }
        return Ok(());
    }
    let names = find_patch_cycle_members(g, &members);
    let sorted = sort_names(&names);
    proof {
        let v = members@[0];
        assert(members@.contains(v));
        assert(on_cycle(patch_edges(*g), v as int));
        assert(is_cycle_member_list(g.modules@.len() as int, edges@, members@));
        assert(views_of(sorted@).to_multiset() == names_at(g.modules@, members@).to_multiset());
    }
    Err(PatchError::FeedbackCycle(sorted))
}

/// The instance names of the given modules, in the given order.
fn find_patch_cycle_members(g: &PatchGraph, members: &Vec<usize>) -> (names: Vec<String>)
    requires
        forall|i: int| 0 <= i < members@.len() ==> #[trigger] members@[i] < g.modules@.len(),
    ensures
        views_of(names@) == names_at(g.modules@, members@),
{
    let mut names: Vec<String> = Vec::new();
    let mut i: usize = 0;
    while i < members.len()
        invariant
            i <= members@.len(),
            forall|i: int| 0 <= i < members@.len() ==> #[trigger] members@[i] < g.modules@.len(),
            names@.len() == i,
            forall|k: int|
                0 <= k < i ==> (#[trigger] names@[k])@ == g.modules@[members@[k] as int].instance_name@,
        decreases members@.len() - i,
    {
        names.push(g.modules[members[i]].instance_name.clone());
        i += 1;
    }
    assert(views_of(names@) =~= names_at(g.modules@, members@));
    names
}

/// Step 3 for one cable: both endpoints exist, and their value kinds
/// agree unless the cable has a transform.
fn check_cable(g: &PatchGraph, cat: &ModuleCatalog, c: usize) -> (r: Result<(), PatchError>)
    requires
        c < g.cables@.len(),
    ensures
        match r {
            Ok(_) => cable_error(*g, *cat, c as int) is None,
            Err(e) => cable_error(*g, *cat, c as int) == Some(e),
        },
{
    let cable = &g.cables[c];
    validate_port_ref(g, cat, &cable.source.0, &cable.source.1)?;
    validate_port_ref(g, cat, &cable.target.0, &cable.target.1)?;
    let source_schema = find_port_schema(g, cat, &cable.source.0, &cable.source.1)?;
    let target_schema = find_port_schema(g, cat, &cable.target.0, &cable.target.1)?;
    if source_schema.value_kind != target_schema.value_kind && !cable.has_transform {
        return Err(
            PatchError::KindMismatch {
                source_kind: source_schema.value_kind,
                target_kind: target_schema.value_kind,
            },
        );
    }
    Ok(())
}

/// Step 4 for one cable: if another cable ends at the same port, the
/// port's merge policy must allow merging its value kind.
fn check_merge(g: &PatchGraph, cat: &ModuleCatalog, c: usize) -> (r: Result<(), PatchError>)
    requires
        c < g.cables@.len(),
        cable_error(*g, *cat, c as int) is None,
    ensures
        match r {
            Ok(_) => merge_error(*g, *cat, c as int) is None,
            Err(e) => merge_error(*g, *cat, c as int) == Some(e),
        },
{
    let m = g.cables.len();
    let cable = &g.cables[c];
    let mut shared = false;
    let mut d: usize = 0;
    while d < m
        invariant
            m == g.cables@.len(),
            c < m,
            d <= m,
            cable == g.cables@[c as int],
            shared <==> exists|d2: int|
                0 <= d2 < d && d2 != c && same_target(#[trigger] g.cables@[d2], g.cables@[c as int]),
        decreases m - d,
    {
        if d != c && g.cables[d].target.0 == cable.target.0 && g.cables[d].target.1
            == cable.target.1 {
            shared = true;
        }
        d += 1;
    }
    if shared {
        let schema = find_port_schema(g, cat, &cable.target.0, &cable.target.1)?;
        if schema.merge_policy == MergePolicy::Reject || !schema.merge_policy.is_valid_for(
            schema.value_kind,
        ) {
            return Err(
                PatchError::IllegalMerge {
                    module: cable.target.0.clone(),
                    port: cable.target.1.clone(),
                    kind: schema.value_kind,
                    policy: schema.merge_policy,
                },
            );
        }
    }
    Ok(())
}

/// Validates a patch against the catalog of registered module kinds.
///
/// The checks run in order and the first failure decides the error:
/// unregistered kind, duplicate instance name, bad cable endpoint or
/// mismatched value kinds (cable by cable), illegal merge on a port fed by
/// several cables (by the first such cable), and feedback cycle.
pub fn validate_patch(g: &PatchGraph, cat: &ModuleCatalog) -> (r: Result<(), PatchError>)
    ensures
        validation_outcome(*g, *cat, r),
{
    let ghost mods = g.modules@;
    let n = g.modules.len();
    let m = g.cables.len();
    // 1. Every module kind is registered.
    let mut i: usize = 0;
    while i < n
        invariant
            n == g.modules@.len(),
            mods == g.modules@,
            i <= n,
            forall|j: int| 0 <= j < i ==> kind_registered(*cat, (#[trigger] g.modules@[j]).kind@),
        decreases n - i,
    {
        if find_kind(cat, &g.modules[i].kind).is_none() {
            let r = Err(PatchError::UnknownModuleKind(g.modules[i].kind.clone()));
            assert(!kind_registered(*cat, mods[i as int].kind@));
            return r;
        }
        i += 1;
    }
    assert(!exists|i: int| 0 <= i < n && !kind_registered(*cat, (#[trigger] mods[i]).kind@));
    // 2. No instance name is used twice.
    let mut i: usize = 0;
    while i < n
        invariant
            n == g.modules@.len(),
            mods == g.modules@,
            i <= n,
            forall|j: int| 0 <= j < n ==> kind_registered(*cat, (#[trigger] g.modules@[j]).kind@),
            forall|i2: int, j: int|
                0 <= j < i2 < i ==> (#[trigger] g.modules@[j]).instance_name@ != (
                #[trigger] g.modules@[i2]).instance_name@,
        decreases n - i,
    {
        let mut j: usize = 0;
        while j < i
            invariant
                n == g.modules@.len(),
                mods == g.modules@,
                j <= i < n,
                forall|j: int| 0 <= j < n ==> kind_registered(*cat, (#[trigger] g.modules@[j]).kind@),
                forall|i2: int, j: int|
                    0 <= j < i2 < i ==> (#[trigger] g.modules@[j]).instance_name@ != (
                    #[trigger] g.modules@[i2]).instance_name@,
                forall|j2: int|
                    0 <= j2 < j ==> (#[trigger] g.modules@[j2]).instance_name@
                        != g.modules@[i as int].instance_name@,
            decreases i - j,
        {
            if g.modules[j].instance_name == g.modules[i].instance_name {
                let r = Err(PatchError::DuplicateInstanceName(g.modules[i].instance_name.clone()));
                proof {
                    assert(mods[j as int].instance_name@ == mods[i as int].instance_name@);
                    assert(exists|j2: int|
                        0 <= j2 < i && (#[trigger] mods[j2]).instance_name@
                            == mods[i as int].instance_name@);
                    assert(!exists|i: int| 0 <= i < n && !kind_registered(*cat, (#[trigger] mods[i]).kind@));
                    assert(r == Err::<(), PatchError>(
                        PatchError::DuplicateInstanceName(mods[i as int].instance_name),
                    ));
                    assert(forall|i2: int, j: int|
                        0 <= j < i2 < i ==> (#[trigger] mods[j]).instance_name@ != (
                        #[trigger] mods[i2]).instance_name@);
                }
                return r;
            }
            j += 1;
        }
        i += 1;
    }
    assert(!exists|i: int, j: int|
        0 <= j < i < n && (#[trigger] mods[j]).instance_name@ == (#[trigger] mods[i]).instance_name@);
    // 3. Cable endpoints exist and carry compatible value kinds.
    let mut c: usize = 0;
    while c < m
        invariant
            n == g.modules@.len(),
            mods == g.modules@,
            m == g.cables@.len(),
            c <= m,
            forall|i: int| 0 <= i < n ==> kind_registered(*cat, (#[trigger] mods[i]).kind@),
            forall|i2: int, j: int|
                0 <= j < i2 < n ==> (#[trigger] mods[j]).instance_name@ != (
                #[trigger] mods[i2]).instance_name@,
            forall|d: int| 0 <= d < c ==> #[trigger] cable_error(*g, *cat, d) is None,
        decreases m - c,
    {
        match check_cable(g, cat, c) {
            Ok(_) => {},
            Err(e) => {
                assert(cable_error(*g, *cat, c as int) is Some);
                return Err(e);
            },
        }
        c += 1;
    }
    assert(!exists|c: int| 0 <= c < m && #[trigger] cable_error(*g, *cat, c) is Some);
    // 4. Ports fed by several cables allow merging.
    let mut c: usize = 0;
    while c < m
        invariant
            n == g.modules@.len(),
            mods == g.modules@,
            m == g.cables@.len(),
            c <= m,
            forall|i: int| 0 <= i < n ==> kind_registered(*cat, (#[trigger] mods[i]).kind@),
            forall|i2: int, j: int|
                0 <= j < i2 < n ==> (#[trigger] mods[j]).instance_name@ != (
                #[trigger] mods[i2]).instance_name@,
            forall|d: int| 0 <= d < m ==> #[trigger] cable_error(*g, *cat, d) is None,
            forall|d: int| 0 <= d < c ==> #[trigger] merge_error(*g, *cat, d) is None,
        decreases m - c,
    {
        match check_merge(g, cat, c) {
            Ok(_) => {},
            Err(e) => {
                assert(merge_error(*g, *cat, c as int) is Some);
                return Err(e);
            },
        }
        c += 1;
    }
    assert(!exists|c: int| 0 <= c < m && #[trigger] merge_error(*g, *cat, c) is Some);
    // 5. No feedback cycles.
    assert(cable_modules_exist(*g)) by {
        assert forall|c: int| 0 <= c < g.cables@.len() implies module_exists(*g, (#[trigger] g.cables@[c]).source.0@)
            && module_exists(*g, g.cables@[c].target.0@) by {
            assert(cable_error(*g, *cat, c) is None);
        }
    }
    check_patch_cycles(g)?;
    Ok(())
}

// ── Laws ──────────────────────────────────────────────────────────

/// A merge is refused only where cables really merge: when validation
/// reports an illegal merge on `module::port`, two different cables end
/// at that very port (same target module and same target port). So a
/// patch in which no two cables share a target port never gets an
/// illegal-merge error.
pub proof fn law_merge_error_needs_shared_port(g: PatchGraph, cat: ModuleCatalog, r: Result<(), PatchError>)
    requires
        validation_outcome(g, cat, r),
    ensures
        r matches Err(PatchError::IllegalMerge { module, port, .. }) ==> exists|c: int, d: int|
            0 <= c < g.cables@.len() && 0 <= d < g.cables@.len() && c != d
                && (#[trigger] g.cables@[c]).target.0@ == module@ && g.cables@[c].target.1@ == port@
                && (#[trigger] g.cables@[d]).target.0@ == module@ && g.cables@[d].target.1@ == port@,
{
    let mods = g.modules@;
    let n = g.modules@.len() as int;
    let m = g.cables@.len() as int;
    if let Err(PatchError::IllegalMerge { module, port, .. }) = r {
        if exists|i: int| 0 <= i < n && !kind_registered(cat, (#[trigger] mods[i]).kind@) {
            assert(false);
        } else if exists|i: int, j: int|
            0 <= j < i < n && (#[trigger] mods[j]).instance_name@ == (#[trigger] mods[i]).instance_name@ {
            assert(false);
        } else if exists|c: int| 0 <= c < m && #[trigger] cable_error(g, cat, c) is Some {
            let c = choose|c: int|
                0 <= c < m && #[trigger] cable_error(g, cat, c) is Some && (forall|d: int|
                    0 <= d < c ==> #[trigger] cable_error(g, cat, d) is None) && r == Err::<(), PatchError>(
                    cable_error(g, cat, c).unwrap(),
                );
            assert(false);
        } else if exists|c: int| 0 <= c < m && #[trigger] merge_error(g, cat, c) is Some {
            let c = choose|c: int|
                0 <= c < m && #[trigger] merge_error(g, cat, c) is Some && (forall|d: int|
                    0 <= d < c ==> #[trigger] merge_error(g, cat, d) is None) && r == Err::<(), PatchError>(
                    merge_error(g, cat, c).unwrap(),
                );
            assert(target_shared(g, c));
            let d = choose|d: int|
                0 <= d < g.cables@.len() && d != c && same_target(#[trigger] g.cables@[d], g.cables@[c]);
            assert(g.cables@[c].target.0 == module);
            assert(g.cables@[c].target.1 == port);
            assert(g.cables@[d].target.0@ == module@ && g.cables@[d].target.1@ == port@);
        } else if exists|v: int| 0 <= v < n && #[trigger] on_cycle(patch_edges(g), v) {
            assert(false);
        } else {
            assert(false);
        }
    }
}

} // verus!
