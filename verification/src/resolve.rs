//! Joins one binary's dependency names against the system-library index,
//! classifying each as resolved to a path or unresolved.

use vstd::prelude::*;
use crate::index::{find_system_lib, lookup_spec, syslibs_view, Systemlib};
use crate::strutil::strings_view;

verus! {

/// Whether a dependency name was found in the index, and where.
#[derive(Debug, PartialEq, Eq)]
pub enum ResolveStatus {
    Resolved(String),
    Unresolved,
}

/// The resolution of one declared dependency of one binary.
#[derive(Debug, PartialEq, Eq)]
pub struct ResolutionRecord {
    pub name: String,
    pub status: ResolveStatus,
}

/// The mathematical content of a status: the resolved path, if any.
pub open spec fn status_view(s: ResolveStatus) -> Option<Seq<char>> {
    match s {
        ResolveStatus::Resolved(p) => Some(p@),
        ResolveStatus::Unresolved => None,
    }
}

/// The mathematical content of one record: the name and the optional path.
pub open spec fn record_view(r: ResolutionRecord) -> (Seq<char>, Option<Seq<char>>) {
    (r.name@, status_view(r.status))
}

/// The mathematical content of a record list, in order.
pub open spec fn records_view(rs: Seq<ResolutionRecord>) -> Seq<(Seq<char>, Option<Seq<char>>)> {
    rs.map_values(|r: ResolutionRecord| record_view(r))
}

/// What resolution yields: one record per dependency name, in input order,
/// pairing the name with the index's path for it, or with nothing where the
/// index lacks it.
pub open spec fn resolve_spec(deps: Seq<Seq<char>>, entries: Seq<(Seq<char>, Seq<char>)>) -> Seq<
    (Seq<char>, Option<Seq<char>>),
> {
    deps.map_values(|d: Seq<char>| (d, lookup_spec(entries, d)))
}

/// Resolves each declared dependency against the index: present names come
/// back Resolved with the index's path, absent ones Unresolved. Order and
/// duplicates of the input are kept, and nothing else is consulted.
pub fn resolve_deps(deps: &Vec<String>, system_libs: &[Systemlib]) -> (r: Vec<ResolutionRecord>)
    ensures
        r@.len() == deps@.len(),
        records_view(r@) == resolve_spec(strings_view(deps@), syslibs_view(system_libs@)),
{
    let ghost dv = strings_view(deps@);
    let ghost ev = syslibs_view(system_libs@);
    let mut out: Vec<ResolutionRecord> = Vec::new();
    let mut i: usize = 0;
    while i < deps.len()
        invariant
            i <= deps@.len(),
            dv == strings_view(deps@),
            ev == syslibs_view(system_libs@),
            out@.len() == i,
            forall|k: int| 0 <= k < i ==> records_view(out@)[k] == resolve_spec(dv, ev)[k],
        decreases deps@.len() - i,
    {
        let name = deps[i].clone();
        let status = match find_system_lib(system_libs, name.as_str()) {
            Some(p) => ResolveStatus::Resolved(p),
            None => ResolveStatus::Unresolved,
        };
        out.push(ResolutionRecord { name, status });
        i += 1;
    }
    proof {
        assert(records_view(out@) =~= resolve_spec(dv, ev));
    }
    out
}

/// Resolution is deterministic: it reads nothing but the dependency list and
/// the index, so two resolver outputs for the same dependency list and the
/// same index are the same record sequence.
pub proof fn lemma_resolve_idempotent(
    deps: Seq<Seq<char>>,
    entries: Seq<(Seq<char>, Seq<char>)>,
    r1: Seq<(Seq<char>, Option<Seq<char>>)>,
    r2: Seq<(Seq<char>, Option<Seq<char>>)>,
)
    requires
        r1 == resolve_spec(deps, entries),
        r2 == resolve_spec(deps, entries),
    ensures
        r1 == r2,
{
}

} // verus!
