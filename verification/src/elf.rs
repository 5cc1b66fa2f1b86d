//! Extracts the shared-library dependencies an ELF binary declares.
//!
//! The container parse itself is goblin's work; this module reduces its
//! result to plain values — each dynamic-section entry as its tag and its
//! resolved string-table name — and does the needed-library selection in
//! verified code.

use vstd::prelude::*;
use crate::strutil::strings_view;

verus! {

/// Tag of a dynamic-section entry that names a needed shared library.
pub const DT_NEEDED: u64 = 1;

/// One entry of an ELF dynamic section: its tag, and, where its value is a
/// valid offset into the dynamic string table, the string found there.
pub struct DynEntry {
    pub tag: u64,
    pub name: Option<String>,
}

/// The mathematical content of one dynamic entry.
pub open spec fn dyn_entry_view(e: DynEntry) -> (u64, Option<Seq<char>>) {
    (
        e.tag,
        match e.name {
            Some(s) => Some(s@),
            None => None,
        },
    )
}

/// The mathematical content of a dynamic-entry list, in order.
pub open spec fn dyn_entries_view(es: Seq<DynEntry>) -> Seq<(u64, Option<Seq<char>>)> {
    es.map_values(|e: DynEntry| dyn_entry_view(e))
}

/// The per-file failure of the extractor: the ELF container itself was
/// structurally invalid. A binary with no dynamic section is not an error.
#[derive(Debug)]
pub struct ExtractionError;

/// What goblin's ELF parse yields on a byte sequence, reduced to the parts
/// this library reads: nothing where the container is rejected as malformed,
/// `Some(None)` where it parses but holds no dynamic section, and
/// `Some(Some(entries))` where it holds one — each entry as its tag and its
/// resolved name. The parse is a function of the bytes alone.
pub uninterp spec fn elf_dyn_of(buf: Seq<u8>) -> Option<Option<Seq<(u64, Option<Seq<char>>)>>>;

#[verifier::external_type_specification]
#[verifier::external_body]
pub struct ExGoblinError(goblin::error::Error);

/// The wrapper's outcome reduced to the same shape `elf_dyn_of` has.
pub open spec fn parsed_view(r: Result<Option<Vec<DynEntry>>, goblin::error::Error>) -> Option<
    Option<Seq<(u64, Option<Seq<char>>)>>,
> {
    match r {
        Ok(Some(v)) => Some(Some(dyn_entries_view(v@))),
        Ok(None) => Some(None),
        Err(_) => None,
    }
}

/// Relies on goblin::elf::Elf::parse for the container parse and on
/// goblin::strtab::Strtab::get_at for the string-table lookup of each
/// dynamic entry's value; both read nothing but the given bytes.
#[verifier::external_body]
fn parse_dynamic(buf: &Vec<u8>) -> (r: Result<Option<Vec<DynEntry>>, goblin::error::Error>)
    ensures
        parsed_view(r) == elf_dyn_of(buf@),
{
    let elf = goblin::elf::Elf::parse(buf)?;
    Ok(
        elf.dynamic.as_ref().map(
            |d|
                d.dyns.iter().map(
                    |e| DynEntry {
                        tag: e.d_tag,
                        name: elf.dynstrtab.get_at(e.d_val as usize).map(|s| s.to_string()),
                    },
                ).collect(),
        ),
    )
}

/// The needed-library names among the dynamic entries from index `i` on:
/// those tagged `DT_NEEDED` whose name resolved, in on-disk order,
/// duplicates kept.
pub open spec fn needed_from(es: Seq<(u64, Option<Seq<char>>)>, i: int) -> Seq<Seq<char>>
    decreases es.len() - i,
{
    if i < 0 || i >= es.len() {
        Seq::empty()
    } else {
        let head = if es[i].0 == DT_NEEDED && es[i].1 is Some {
            seq![es[i].1.unwrap()]
        } else {
            Seq::<Seq<char>>::empty()
        };
        head + needed_from(es, i + 1)
    }
}

/// All needed-library names among the dynamic entries, in order.
pub open spec fn needed_of(es: Seq<(u64, Option<Seq<char>>)>) -> Seq<Seq<char>> {
    needed_from(es, 0)
}

/// The dependency list a byte sequence declares: its needed-library names
/// where it parses as ELF with a dynamic section, nothing otherwise.
pub open spec fn needed_names(buf: Seq<u8>) -> Seq<Seq<char>> {
    match elf_dyn_of(buf) {
        Some(Some(es)) => needed_of(es),
        _ => Seq::empty(),
    }
}

proof fn lemma_needed_from_all_needed(es: Seq<(u64, Option<Seq<char>>)>, i: int)
    requires
        0 <= i <= es.len(),
        forall|k: int| 0 <= k < es.len() ==> (#[trigger] es[k]).0 == DT_NEEDED && es[k].1 is Some,
    ensures
        needed_from(es, i) == es.subrange(i, es.len() as int).map_values(
            |e: (u64, Option<Seq<char>>)| e.1.unwrap(),
        ),
    decreases es.len() - i,
{
    let f = |e: (u64, Option<Seq<char>>)| e.1.unwrap();
    if i >= es.len() {
        assert(needed_from(es, i) =~= es.subrange(i, es.len() as int).map_values(f));
    } else {
        lemma_needed_from_all_needed(es, i + 1);
        assert(needed_from(es, i) =~= es.subrange(i, es.len() as int).map_values(f));
    }
}

/// Extraction keeps order and duplicates: where every dynamic entry is a
/// needed-library directive whose name resolved, the extracted list is
/// exactly those names, in on-disk order, each occurrence kept.
pub proof fn lemma_needed_keeps_order_and_duplicates(es: Seq<(u64, Option<Seq<char>>)>)
    requires
        forall|k: int| 0 <= k < es.len() ==> (#[trigger] es[k]).0 == DT_NEEDED && es[k].1 is Some,
    ensures
        needed_of(es) == es.map_values(|e: (u64, Option<Seq<char>>)| e.1.unwrap()),
{
    lemma_needed_from_all_needed(es, 0);
    assert(es.subrange(0, es.len() as int) =~= es);
}

/// Selects the needed-library names among the dynamic entries: exactly those
/// tagged `DT_NEEDED` whose name resolved, in order, duplicates kept. An
/// entry whose string-table offset did not resolve is skipped.
pub fn extract_needed(entries: &Vec<DynEntry>) -> (r: Vec<String>)
    ensures
        strings_view(r@) == needed_of(dyn_entries_view(entries@)),
{
    let ghost ev = dyn_entries_view(entries@);
    let mut out: Vec<String> = Vec::new();
    let mut i: usize = 0;
    while i < entries.len()
        invariant
            i <= entries@.len(),
            ev == dyn_entries_view(entries@),
            strings_view(out@) + needed_from(ev, i as int) == needed_of(ev),
        decreases entries@.len() - i,
    {
        let ghost before = out@;
        let e = &entries[i];
        if e.tag == DT_NEEDED {
            match &e.name {
                Some(n) => {
                    out.push(n.clone());
                    proof {
                        assert(strings_view(out@) =~= strings_view(before).push(n@));
                    }
                },
                None => {},
            }
        }
        proof {
            assert(strings_view(out@) + needed_from(ev, i as int + 1) =~= strings_view(before)
                + needed_from(ev, i as int));
        }
        i += 1;
    }
    proof {
        assert(strings_view(out@) =~= strings_view(out@) + needed_from(ev, i as int));
    }
    out
}

/// Parses one ELF file's contents and returns the ordered sequence of
/// declared dependency names, duplicates preserved. A file with no dynamic
/// section yields an empty list and no error; a structurally invalid
/// container yields an `ExtractionError`, and exactly then.
pub fn read_needed_deps(contents: &Vec<u8>) -> (r: Result<Vec<String>, ExtractionError>)
    ensures
        r is Ok <==> elf_dyn_of(contents@) is Some,
        r is Ok ==> strings_view(r->Ok_0@) == needed_names(contents@),
        elf_dyn_of(contents@) is Some && elf_dyn_of(contents@)->Some_0 is None ==> r is Ok
            && r->Ok_0@.len() == 0,
{
    match parse_dynamic(contents) {
        Err(_) => Err(ExtractionError),
        Ok(None) => {
            let empty: Vec<String> = Vec::new();
            proof {
                assert(strings_view(empty@) =~= Seq::<Seq<char>>::empty());
            }
            Ok(empty)
        },
        Ok(Some(entries)) => Ok(extract_needed(&entries)),
    }
}

} // verus!
