use libdeps::report::{all_resolved, render_report, BinaryOutcome, BinaryReport};
use libdeps::resolve::{ResolutionRecord, ResolveStatus};

fn resolved_report() -> BinaryReport {
    BinaryReport {
        path: String::from("/opt/libs/a.so"),
        outcome: BinaryOutcome::Resolved(vec![
            ResolutionRecord {
                name: String::from("libc.so.6"),
                status: ResolveStatus::Resolved(String::from("/lib/libc.so.6")),
            },
            ResolutionRecord {
                name: String::from("libz.so.1"),
                status: ResolveStatus::Unresolved,
            },
        ]),
    }
}

#[test]
fn report_lines_rendered() {
    let text = render_report(&vec![resolved_report()]);
    assert_eq!(
        text,
        "/opt/libs/a.so\n  libc.so.6 => /lib/libc.so.6\n  libz.so.1 => NOT FOUND\n"
    );
}

#[test]
fn extraction_failure_rendered_as_diagnostic_line() {
    let report = BinaryReport {
        path: String::from("/opt/libs/broken.so"),
        outcome: BinaryOutcome::Failed,
    };
    let text = render_report(&vec![report]);
    assert_eq!(
        text,
        "/opt/libs/broken.so\n  ERROR: Could not read dependencies\n"
    );
}

#[test]
fn aggregate_fails_on_unresolved_dependency() {
    assert!(!all_resolved(&vec![resolved_report()]));
}

#[test]
fn aggregate_fails_on_unreadable_binary() {
    let report = BinaryReport {
        path: String::from("/opt/libs/broken.so"),
        outcome: BinaryOutcome::Failed,
    };
    assert!(!all_resolved(&vec![report]));
}

#[test]
fn aggregate_succeeds_when_everything_resolved() {
    let report = BinaryReport {
        path: String::from("/opt/libs/a.so"),
        outcome: BinaryOutcome::Resolved(vec![ResolutionRecord {
            name: String::from("libc.so.6"),
            status: ResolveStatus::Resolved(String::from("/lib/libc.so.6")),
        }]),
    };
    assert!(all_resolved(&vec![report]));
    assert!(all_resolved(&Vec::new()));
}
