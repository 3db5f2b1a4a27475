use ocr_batch::batch::{classify_target, Action, Batch, Candidate, Event, Report, TargetKind};
use ocr_batch::paths::FilePath;

fn path(components: &[&str]) -> FilePath {
    FilePath {
        absolute: false,
        components: components.iter().map(|c| c.to_string()).collect(),
    }
}

fn pdf_candidate(components: &[&str]) -> Candidate {
    Candidate { path: path(components), head: b"%PDF-1.4".to_vec() }
}

fn text_candidate(components: &[&str]) -> Candidate {
    Candidate { path: path(components), head: b"just some text".to_vec() }
}

#[test]
fn classify_follows_probe_order() {
    assert_eq!(classify_target(false, false, false), TargetKind::Missing);
    assert_eq!(classify_target(false, true, true), TargetKind::Missing);
    assert_eq!(classify_target(true, true, false), TargetKind::RegularFile);
    assert_eq!(classify_target(true, false, true), TargetKind::Directory);
    assert_eq!(classify_target(true, false, false), TargetKind::Other);
}

#[test]
fn missing_target_reports_not_found_and_finishes() {
    let mut batch = Batch::new(path(&["nowhere.pdf"]), false);
    assert_eq!(batch.action(), Action::Probe);
    let reports = batch.step(Event::Probed(TargetKind::Missing));
    assert_eq!(reports, vec![Report::NotFound]);
    assert_eq!(batch.action(), Action::Finish);
}

#[test]
fn special_target_reports_unsupported_and_finishes() {
    let mut batch = Batch::new(path(&["dev", "null"]), true);
    assert_eq!(batch.action(), Action::Probe);
    let reports = batch.step(Event::Probed(TargetKind::Other));
    assert_eq!(reports, vec![Report::Unsupported]);
    assert_eq!(batch.action(), Action::Finish);
}

#[test]
fn single_file_without_deletion() {
    let report_pdf = path(&["docs", "report.pdf"]);
    let mut batch = Batch::new(report_pdf.clone(), false);
    assert_eq!(batch.action(), Action::Probe);
    assert_eq!(batch.step(Event::Probed(TargetKind::RegularFile)), vec![]);
    assert_eq!(
        batch.action(),
        Action::Transform {
            input: report_pdf.clone(),
            output: path(&["docs", "removed-ocr", "report.pdf"]),
        }
    );
    let reports = batch.step(Event::Transformed(true));
    assert_eq!(reports, vec![Report::Processed(report_pdf)]);
    assert_eq!(batch.action(), Action::Finish);
}

#[test]
fn single_file_with_deletion() {
    let report_pdf = path(&["report.pdf"]);
    let mut batch = Batch::new(report_pdf.clone(), true);
    batch.step(Event::Probed(TargetKind::RegularFile));
    assert_eq!(
        batch.action(),
        Action::Transform {
            input: report_pdf.clone(),
            output: path(&["removed-ocr", "report.pdf"]),
        }
    );
    assert_eq!(
        batch.step(Event::Transformed(true)),
        vec![Report::Processed(report_pdf.clone())]
    );
    assert_eq!(batch.action(), Action::Remove(report_pdf.clone()));
    assert_eq!(batch.step(Event::Removed(true)), vec![Report::Deleted(report_pdf)]);
    assert_eq!(batch.action(), Action::Finish);
}

#[test]
fn single_file_failure_skips_deletion() {
    let report_pdf = path(&["report.pdf"]);
    let mut batch = Batch::new(report_pdf.clone(), true);
    batch.step(Event::Probed(TargetKind::RegularFile));
    let reports = batch.step(Event::Transformed(false));
    assert_eq!(reports, vec![Report::ProcessFailed(report_pdf)]);
    assert_eq!(batch.action(), Action::Finish);
}

#[test]
fn failed_deletion_is_reported_separately() {
    let report_pdf = path(&["report.pdf"]);
    let mut batch = Batch::new(report_pdf.clone(), true);
    batch.step(Event::Probed(TargetKind::RegularFile));
    assert_eq!(
        batch.step(Event::Transformed(true)),
        vec![Report::Processed(report_pdf.clone())]
    );
    assert_eq!(batch.action(), Action::Remove(report_pdf.clone()));
    assert_eq!(
        batch.step(Event::Removed(false)),
        vec![Report::DeleteFailed(report_pdf)]
    );
    assert_eq!(batch.action(), Action::Finish);
}

#[test]
fn directory_filters_by_content_not_extension() {
    // a.pdf carries the signature, b.txt carries it despite its name, and
    // c.pdf is a renamed text file; only the first two are confirmed.
    let target = path(&["scans"]);
    let mut batch = Batch::new(target, true);
    assert_eq!(batch.step(Event::Probed(TargetKind::Directory)), vec![]);
    assert_eq!(batch.action(), Action::Scan);
    let cands = vec![
        pdf_candidate(&["scans", "a.pdf"]),
        text_candidate(&["scans", "c.pdf"]),
        pdf_candidate(&["scans", "b.txt"]),
    ];
    assert_eq!(batch.step(Event::Scanned(cands)), vec![]);

    let a = path(&["scans", "a.pdf"]);
    let b = path(&["scans", "b.txt"]);
    assert_eq!(
        batch.action(),
        Action::Transform {
            input: a.clone(),
            output: path(&["scans", "removed-ocr", "a.pdf"]),
        }
    );
    assert_eq!(batch.step(Event::Transformed(true)), vec![Report::Processed(a.clone())]);
    assert_eq!(batch.action(), Action::Remove(a.clone()));
    assert_eq!(batch.step(Event::Removed(true)), vec![Report::Deleted(a)]);
    assert_eq!(
        batch.action(),
        Action::Transform {
            input: b.clone(),
            output: path(&["scans", "removed-ocr", "b.txt"]),
        }
    );
    assert_eq!(batch.step(Event::Transformed(true)), vec![Report::Processed(b.clone())]);
    assert_eq!(batch.action(), Action::Remove(b.clone()));
    assert_eq!(batch.step(Event::Removed(true)), vec![Report::Deleted(b)]);
    assert_eq!(batch.action(), Action::Finish);
}

#[test]
fn directory_with_no_confirmed_pdfs_finishes_quietly() {
    let mut batch = Batch::new(path(&["scans"]), false);
    batch.step(Event::Probed(TargetKind::Directory));
    let cands = vec![text_candidate(&["scans", "notes.txt"]), text_candidate(&["scans", "c.pdf"])];
    assert_eq!(batch.step(Event::Scanned(cands)), vec![]);
    assert_eq!(batch.action(), Action::Finish);
}

#[test]
fn empty_directory_finishes_quietly() {
    let mut batch = Batch::new(path(&["scans"]), true);
    batch.step(Event::Probed(TargetKind::Directory));
    assert_eq!(batch.step(Event::Scanned(vec![])), vec![]);
    assert_eq!(batch.action(), Action::Finish);
}

#[test]
fn failing_tool_deletes_nothing() {
    // Deletion is requested, but the tool fails on every file: both files
    // are reported as failed and no deletion is ever asked for.
    let mut batch = Batch::new(path(&["scans"]), true);
    batch.step(Event::Probed(TargetKind::Directory));
    let cands = vec![pdf_candidate(&["scans", "a.pdf"]), pdf_candidate(&["scans", "b.pdf"])];
    batch.step(Event::Scanned(cands));
    let mut failed = Vec::new();
    loop {
        match batch.action() {
            Action::Transform { .. } => {
                failed.extend(batch.step(Event::Transformed(false)));
            }
            Action::Remove(p) => panic!("deletion of {:?} requested after a failed transform", p),
            Action::Finish => break,
            other => panic!("unexpected action {:?}", other),
        }
    }
    assert_eq!(
        failed,
        vec![
            Report::ProcessFailed(path(&["scans", "a.pdf"])),
            Report::ProcessFailed(path(&["scans", "b.pdf"])),
        ]
    );
}

#[test]
fn per_file_failure_does_not_halt_the_batch() {
    let mut batch = Batch::new(path(&["scans"]), false);
    batch.step(Event::Probed(TargetKind::Directory));
    let cands = vec![pdf_candidate(&["scans", "a.pdf"]), pdf_candidate(&["scans", "b.pdf"])];
    batch.step(Event::Scanned(cands));
    assert_eq!(
        batch.step(Event::Transformed(false)),
        vec![Report::ProcessFailed(path(&["scans", "a.pdf"]))]
    );
    // The second file is still attempted.
    assert_eq!(
        batch.action(),
        Action::Transform {
            input: path(&["scans", "b.pdf"]),
            output: path(&["scans", "removed-ocr", "b.pdf"]),
        }
    );
    assert_eq!(
        batch.step(Event::Transformed(true)),
        vec![Report::Processed(path(&["scans", "b.pdf"]))]
    );
    assert_eq!(batch.action(), Action::Finish);
}

#[test]
fn confirmed_path_without_name_component_fails_structurally() {
    let mut batch = Batch::new(path(&["scans"]), false);
    batch.step(Event::Probed(TargetKind::Directory));
    let cands = vec![
        Candidate { path: path(&[]), head: b"%PDF-1.4".to_vec() },
        pdf_candidate(&["scans", "a.pdf"]),
    ];
    let reports = batch.step(Event::Scanned(cands));
    assert_eq!(reports, vec![Report::ProcessFailed(path(&[]))]);
    assert_eq!(
        batch.action(),
        Action::Transform {
            input: path(&["scans", "a.pdf"]),
            output: path(&["scans", "removed-ocr", "a.pdf"]),
        }
    );
}

#[test]
fn rerun_over_same_candidates_plans_same_transforms() {
    // Two runs that scan the same candidates ask for exactly the same
    // transforms to the same output locations.
    let run = || {
        let mut batch = Batch::new(path(&["scans"]), false);
        batch.step(Event::Probed(TargetKind::Directory));
        let cands = vec![
            pdf_candidate(&["scans", "a.pdf"]),
            text_candidate(&["scans", "skip.txt"]),
            pdf_candidate(&["scans", "sub", "b.pdf"]),
        ];
        batch.step(Event::Scanned(cands));
        let mut transforms = Vec::new();
        loop {
            match batch.action() {
                Action::Transform { input, output } => {
                    transforms.push((input, output));
                    batch.step(Event::Transformed(true));
                }
                Action::Finish => break,
                other => panic!("unexpected action {:?}", other),
            }
        }
        transforms
    };
    let first = run();
    let second = run();
    assert_eq!(first, second);
    assert_eq!(
        first,
        vec![
            (
                path(&["scans", "a.pdf"]),
                path(&["scans", "removed-ocr", "a.pdf"]),
            ),
            (
                path(&["scans", "sub", "b.pdf"]),
                path(&["scans", "sub", "removed-ocr", "b.pdf"]),
            ),
        ]
    );
}
