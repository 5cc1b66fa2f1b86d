//! Renders resolution results as text, or reduces them to one aggregate
//! success signal, and assembles the per-binary pipeline step.

use vstd::prelude::*;
use crate::elf::{elf_dyn_of, needed_names, read_needed_deps};
use crate::index::{syslibs_view, Systemlib};
use crate::resolve::{
    records_view, resolve_deps, resolve_spec, status_view, ResolutionRecord, ResolveStatus,
};

verus! {

/// What one scanned binary came to: its dependency resolutions, or the
/// failure to read them.
pub enum BinaryOutcome {
    Resolved(Vec<ResolutionRecord>),
    Failed,
}

/// Everything the report says about one binary.
pub struct BinaryReport {
    pub path: String,
    pub outcome: BinaryOutcome,
}

/// The mathematical content of an outcome: the record list, or nothing
/// where extraction failed.
pub open spec fn outcome_view(o: BinaryOutcome) -> Option<Seq<(Seq<char>, Option<Seq<char>>)>> {
    match o {
        BinaryOutcome::Resolved(records) => Some(records_view(records@)),
        BinaryOutcome::Failed => None,
    }
}

/// The mathematical content of one binary's report.
pub open spec fn report_view(r: BinaryReport) -> (
    Seq<char>,
    Option<Seq<(Seq<char>, Option<Seq<char>>)>>,
) {
    (r.path@, outcome_view(r.outcome))
}

/// The mathematical content of a report list, in order.
pub open spec fn reports_view(rs: Seq<BinaryReport>) -> Seq<
    (Seq<char>, Option<Seq<(Seq<char>, Option<Seq<char>>)>>),
> {
    rs.map_values(|r: BinaryReport| report_view(r))
}

/// The indented line for one dependency record: its name, then the resolved
/// path or the not-found mark.
pub open spec fn render_record_spec(rec: (Seq<char>, Option<Seq<char>>)) -> Seq<char> {
    match rec.1 {
        Some(p) => "  "@ + rec.0 + " => "@ + p + "\n"@,
        None => "  "@ + rec.0 + " => NOT FOUND\n"@,
    }
}

/// The lines for the records from index `i` on, in order.
pub open spec fn render_records_from(
    recs: Seq<(Seq<char>, Option<Seq<char>>)>,
    i: int,
) -> Seq<char>
    decreases recs.len() - i,
{
    if i < 0 || i >= recs.len() {
        Seq::empty()
    } else {
        render_record_spec(recs[i]) + render_records_from(recs, i + 1)
    }
}

/// The text block for one binary: its path on its own line, then one line
/// per record, or the single diagnostic line where extraction failed.
pub open spec fn render_binary_spec(
    rep: (Seq<char>, Option<Seq<(Seq<char>, Option<Seq<char>>)>>),
) -> Seq<char> {
    rep.0 + "\n"@ + match rep.1 {
        Some(recs) => render_records_from(recs, 0),
        None => "  ERROR: Could not read dependencies\n"@,
    }
}

/// The text blocks for the binaries from index `i` on, in order.
pub open spec fn render_report_from(
    reps: Seq<(Seq<char>, Option<Seq<(Seq<char>, Option<Seq<char>>)>>)>,
    i: int,
) -> Seq<char>
    decreases reps.len() - i,
{
    if i < 0 || i >= reps.len() {
        Seq::empty()
    } else {
        render_binary_spec(reps[i]) + render_report_from(reps, i + 1)
    }
}

/// The whole report's text, binaries in list order.
pub open spec fn render_report_spec(
    reps: Seq<(Seq<char>, Option<Seq<(Seq<char>, Option<Seq<char>>)>>)>,
) -> Seq<char> {
    render_report_from(reps, 0)
}

/// Appends the line for one record to the output.
fn render_record(rec: &ResolutionRecord, out: &mut String)
    ensures
        final(out)@ == old(out)@ + render_record_spec((rec.name@, status_view(rec.status))),
{
    out.append("  ");
    out.append(rec.name.as_str());
    match &rec.status {
        ResolveStatus::Resolved(p) => {
            out.append(" => ");
            out.append(p.as_str());
            out.append("\n");
            proof {
                assert(out@ =~= old(out)@ + ("  "@ + rec.name@ + " => "@ + p@ + "\n"@));
            }
        },
        ResolveStatus::Unresolved => {
            out.append(" => NOT FOUND\n");
            proof {
                assert(out@ =~= old(out)@ + ("  "@ + rec.name@ + " => NOT FOUND\n"@));
            }
        },
    }
}

/// Renders one binary's block of the report.
pub fn render_binary(rep: &BinaryReport) -> (r: String)
    ensures
        r@ == render_binary_spec(report_view(*rep)),
{
    let mut out = String::new();
    out.append(rep.path.as_str());
    out.append("\n");
    match &rep.outcome {
        BinaryOutcome::Resolved(records) => {
            let ghost rv = records_view(records@);
            let ghost prefix = out@;
            let mut i: usize = 0;
            while i < records.len()
                invariant
                    i <= records@.len(),
                    rv == records_view(records@),
                    out@ + render_records_from(rv, i as int) == prefix + render_records_from(
                        rv,
                        0,
                    ),
                decreases records@.len() - i,
            {
                let ghost before = out@;
                render_record(&records[i], &mut out);
                proof {
                    assert(out@ + render_records_from(rv, i as int + 1) =~= before
                        + render_records_from(rv, i as int));
                }
                i += 1;
            }
            proof {
                assert(out@ =~= out@ + render_records_from(rv, i as int));
                assert(out@ =~= render_binary_spec(report_view(*rep)));
            }
        },
        BinaryOutcome::Failed => {
            out.append("  ERROR: Could not read dependencies\n");
            proof {
                assert(out@ =~= render_binary_spec(report_view(*rep)));
            }
        },
    }
    out
}

/// Renders the whole report, one block per binary, in list order.
pub fn render_report(reports: &Vec<BinaryReport>) -> (r: String)
    ensures
        r@ == render_report_spec(reports_view(reports@)),
{
    let ghost rv = reports_view(reports@);
    let mut out = String::new();
    let mut i: usize = 0;
    while i < reports.len()
        invariant
            i <= reports@.len(),
            rv == reports_view(reports@),
            out@ + render_report_from(rv, i as int) == render_report_from(rv, 0),
        decreases reports@.len() - i,
    {
        let ghost before = out@;
        let block = render_binary(&reports[i]);
        out.append(block.as_str());
        proof {
            assert(out@ + render_report_from(rv, i as int + 1) =~= before + render_report_from(
                rv,
                i as int,
            ));
        }
        i += 1;
    }
    proof {
        assert(out@ =~= out@ + render_report_from(rv, i as int));
    }
    out
}

/// Whether every record of one binary resolved.
pub open spec fn records_all_resolved(recs: Seq<(Seq<char>, Option<Seq<char>>)>) -> bool {
    forall|j: int| 0 <= j < recs.len() ==> (#[trigger] recs[j]).1 is Some
}

/// Aggregate success: every binary was readable and every one of its
/// dependencies resolved.
pub open spec fn all_resolved_spec(
    reps: Seq<(Seq<char>, Option<Seq<(Seq<char>, Option<Seq<char>>)>>)>,
) -> bool {
    forall|i: int|
        0 <= i < reps.len() ==> (#[trigger] reps[i]).1 is Some && records_all_resolved(
            reps[i].1.unwrap(),
        )
}

/// Reduces the report to one signal: true exactly when every binary was
/// readable and every one of its dependencies resolved.
pub fn all_resolved(reports: &Vec<BinaryReport>) -> (r: bool)
    ensures
        r == all_resolved_spec(reports_view(reports@)),
{
    let ghost rv = reports_view(reports@);
    let mut i: usize = 0;
    while i < reports.len()
        invariant
            i <= reports@.len(),
            rv == reports_view(reports@),
            forall|k: int|
                0 <= k < i ==> (#[trigger] rv[k]).1 is Some && records_all_resolved(
                    rv[k].1.unwrap(),
                ),
        decreases reports@.len() - i,
    {
        match &reports[i].outcome {
            BinaryOutcome::Failed => {
                proof {
                    assert(rv[i as int].1 is None);
                }
                return false;
            },
            BinaryOutcome::Resolved(records) => {
                let ghost recs = records_view(records@);
                proof {
                    assert(rv[i as int].1 == Some(recs));
                }
                let mut j: usize = 0;
                while j < records.len()
                    invariant
                        i < reports@.len(),
                        rv == reports_view(reports@),
                        rv[i as int].1 == Some(recs),
                        j <= records@.len(),
                        recs == records_view(records@),
                        forall|k: int| 0 <= k < j ==> (#[trigger] recs[k]).1 is Some,
                    decreases records@.len() - j,
                {
                    match &records[j].status {
                        ResolveStatus::Unresolved => {
                            proof {
                                assert(recs[j as int].1 is None);
                                assert(rv[i as int].1 == Some(recs));
                                assert(!records_all_resolved(recs));
                            }
                            return false;
                        },
                        ResolveStatus::Resolved(_) => {},
                    }
                    j += 1;
                }
                proof {
                    assert(records_all_resolved(recs));
                    assert(rv[i as int].1 == Some(recs));
                }
            },
        }
        i += 1;
    }
    true
}

/// The outcome the pipeline owes one binary's bytes, given the index: the
/// resolution of each declared dependency, or nothing where the container
/// could not be read.
pub open spec fn audit_spec(buf: Seq<u8>, entries: Seq<(Seq<char>, Seq<char>)>) -> Option<
    Seq<(Seq<char>, Option<Seq<char>>)>,
> {
    if elf_dyn_of(buf) is Some {
        Some(resolve_spec(needed_names(buf), entries))
    } else {
        None
    }
}

/// Audits one binary: extracts the dependencies its bytes declare and
/// resolves each against the index. An extraction failure becomes the
/// binary's recorded outcome; it aborts nothing.
pub fn audit_binary(path: String, contents: &Vec<u8>, system_libs: &[Systemlib]) -> (r:
    BinaryReport)
    ensures
        r.path@ == path@,
        outcome_view(r.outcome) == audit_spec(contents@, syslibs_view(system_libs@)),
{
    let outcome = match read_needed_deps(contents) {
        Ok(deps) => BinaryOutcome::Resolved(resolve_deps(&deps, system_libs)),
        Err(_) => BinaryOutcome::Failed,
    };
    BinaryReport { path, outcome }
}

} // verus!
