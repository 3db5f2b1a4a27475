//! The batch orchestrator as a state machine. The runner owns the
//! filesystem and the external tool; this module owns every decision. The
//! runner asks [`Batch::action`] what to do next, performs it, and hands the
//! observed result back through [`Batch::step`], which returns the status
//! reports owed for that step. Originals are only ever scheduled for
//! deletion after their transform step reported success and deletion was
//! requested.

use vstd::prelude::*;

use crate::paths::{FilePath, PathV, output_of};
use crate::sniff::is_pdf_head;

verus! {

/// What probing the target path found it to be.
#[derive(Clone, Copy, Debug, PartialEq, Eq)]
pub enum TargetKind {
    /// The path does not exist.
    Missing,
    /// The path is a regular file.
    RegularFile,
    /// The path is a directory.
    Directory,
    /// The path exists but is neither a regular file nor a directory.
    Other,
}

/// Where the batch stands between two events.
#[derive(Clone, Copy, Debug, PartialEq, Eq)]
pub enum Phase {
    /// Waiting to learn what the target path is.
    Probing,
    /// Waiting for the walk over the target directory.
    Scanning,
    /// Waiting for the transform outcome of the current file.
    Transforming,
    /// Waiting for the deletion outcome of the current original.
    Deleting,
    /// Every queued file has been handled.
    Done,
}

/// A regular file found by the walk, with the bytes read from its head.
#[derive(Debug)]
pub struct Candidate {
    pub path: FilePath,
    pub head: Vec<u8>,
}

/// The mathematical value of a [`Candidate`].
pub struct CandidateV {
    pub path: PathV,
    pub head: Seq<u8>,
}

impl DeepView for Candidate {
    type V = CandidateV;

    open spec fn deep_view(&self) -> CandidateV {
        CandidateV { path: self.path.deep_view(), head: self.head.deep_view() }
    }
}

/// What the runner observed: the outcome of the action it was asked for.
#[derive(Debug)]
pub enum Event {
    /// What kind of thing the target path is.
    Probed(TargetKind),
    /// The regular files under the target directory, each with its head bytes.
    Scanned(Vec<Candidate>),
    /// Whether the external tool processed the current file successfully.
    Transformed(bool),
    /// Whether the current original could be deleted.
    Removed(bool),
}

/// The mathematical value of an [`Event`].
pub enum EventV {
    Probed(TargetKind),
    Scanned(Seq<CandidateV>),
    Transformed(bool),
    Removed(bool),
}

impl DeepView for Event {
    type V = EventV;

    open spec fn deep_view(&self) -> EventV {
        match self {
            Event::Probed(k) => EventV::Probed(*k),
            Event::Scanned(cands) => EventV::Scanned(cands.deep_view()),
            Event::Transformed(ok) => EventV::Transformed(*ok),
            Event::Removed(ok) => EventV::Removed(*ok),
        }
    }
}

/// What the runner is asked to do next.
#[derive(Debug, PartialEq, Eq)]
pub enum Action {
    /// Find out whether the target exists and what it is.
    Probe,
    /// Walk the target directory and read the head of every regular file.
    Scan,
    /// Run the external tool on `input`, writing to `output`.
    Transform { input: FilePath, output: FilePath },
    /// Delete the given original.
    Remove(FilePath),
    /// Nothing is left to do.
    Finish,
}

/// The mathematical value of an [`Action`].
pub enum ActionV {
    Probe,
    Scan,
    Transform { input: PathV, output: PathV },
    Remove(PathV),
    Finish,
}

impl DeepView for Action {
    type V = ActionV;

    open spec fn deep_view(&self) -> ActionV {
        match self {
            Action::Probe => ActionV::Probe,
            Action::Scan => ActionV::Scan,
            Action::Transform { input, output } => ActionV::Transform {
                input: input.deep_view(),
                output: output.deep_view(),
            },
            Action::Remove(p) => ActionV::Remove(p.deep_view()),
            Action::Finish => ActionV::Finish,
        }
    }
}

/// One status line owed to the user.
#[derive(Debug, PartialEq, Eq)]
pub enum Report {
    /// The target path does not exist.
    NotFound,
    /// The target path is neither a regular file nor a directory.
    Unsupported,
    /// The file was processed into its output location.
    Processed(FilePath),
    /// The file could not be processed.
    ProcessFailed(FilePath),
    /// The original was deleted after successful processing.
    Deleted(FilePath),
    /// The original could not be deleted after successful processing.
    DeleteFailed(FilePath),
}

/// The mathematical value of a [`Report`].
pub enum ReportV {
    NotFound,
    Unsupported,
    Processed(PathV),
    ProcessFailed(PathV),
    Deleted(PathV),
    DeleteFailed(PathV),
}

impl DeepView for Report {
    type V = ReportV;

    open spec fn deep_view(&self) -> ReportV {
        match self {
            Report::NotFound => ReportV::NotFound,
            Report::Unsupported => ReportV::Unsupported,
            Report::Processed(p) => ReportV::Processed(p.deep_view()),
            Report::ProcessFailed(p) => ReportV::ProcessFailed(p.deep_view()),
            Report::Deleted(p) => ReportV::Deleted(p.deep_view()),
            Report::DeleteFailed(p) => ReportV::DeleteFailed(p.deep_view()),
        }
    }
}

/// The batch state: the target, the deletion flag, the confirmed PDF queue,
/// the position of the current file in it, and the phase.
pub struct Batch {
    pub delete: bool,
    pub target: FilePath,
    pub queue: Vec<FilePath>,
    pub next: usize,
    pub phase: Phase,
}

/// The mathematical value of a [`Batch`].
#[verifier::ext_equal]
pub struct BatchV {
    pub delete: bool,
    pub target: PathV,
    pub queue: Seq<PathV>,
    pub next: int,
    pub phase: Phase,
}

impl DeepView for Batch {
    type V = BatchV;

    open spec fn deep_view(&self) -> BatchV {
        BatchV {
            delete: self.delete,
            target: self.target.deep_view(),
            queue: self.queue.deep_view(),
            next: self.next as int,
            phase: self.phase,
        }
    }
}

/// How a freshly created batch looks.
pub open spec fn initial(target: PathV, delete: bool) -> BatchV {
    BatchV { delete, target, queue: Seq::empty(), next: 0, phase: Phase::Probing }
}

/// A queued path can be processed only when it has a final name component
/// (and with it a parent directory) from which its output location follows.
pub open spec fn processable(p: PathV) -> bool {
    p.parts.len() >= 1
}

/// The confirmed PDF set: the paths of the scanned candidates whose heads
/// carry the PDF signature, in traversal order.
pub open spec fn confirmed_paths(cands: Seq<CandidateV>) -> Seq<PathV>
    decreases cands.len(),
{
    if cands.len() == 0 {
        Seq::empty()
    } else if is_pdf_head(cands.last().head) {
        confirmed_paths(cands.drop_last()).push(cands.last().path)
    } else {
        confirmed_paths(cands.drop_last())
    }
}

/// The first position at or after `i` in the queue that can be processed,
/// or the position just past the end when none is left.
pub open spec fn advance_index(q: Seq<PathV>, i: int) -> int
    recommends
        0 <= i,
    decreases q.len() - i,
{
    if i < q.len() {
        if processable(q[i]) {
            i
        } else {
            advance_index(q, i + 1)
        }
    } else {
        i
    }
}

/// The failure reports owed for the unprocessable queue entries that are
/// stepped over on the way from `i` to `advance_index(q, i)`.
pub open spec fn advance_reports(q: Seq<PathV>, i: int) -> Seq<ReportV>
    recommends
        0 <= i,
    decreases q.len() - i,
{
    if i < q.len() && !processable(q[i]) {
        seq![ReportV::ProcessFailed(q[i])] + advance_reports(q, i + 1)
    } else {
        Seq::empty()
    }
}

/// The state after moving on to the first processable entry at or after `i`,
/// or to the end of the queue.
pub open spec fn advanced(pre: BatchV, i: int) -> BatchV {
    let j = advance_index(pre.queue, i);
    BatchV {
        next: j,
        phase: if j < pre.queue.len() {
            Phase::Transforming
        } else {
            Phase::Done
        },
        ..pre
    }
}

/// The state with nothing left to do.
pub open spec fn finished(pre: BatchV) -> BatchV {
    BatchV { phase: Phase::Done, ..pre }
}

/// The state whose queue has just been established.
pub open spec fn with_queue(pre: BatchV, q: Seq<PathV>) -> BatchV {
    BatchV { queue: q, ..pre }
}

/// Which events a state can consume: exactly the outcome of the action the
/// state asks for.
pub open spec fn fits(b: BatchV, ev: EventV) -> bool {
    match b.phase {
        Phase::Probing => ev is Probed,
        Phase::Scanning => ev is Scanned,
        Phase::Transforming => ev is Transformed,
        Phase::Deleting => ev is Removed,
        Phase::Done => false,
    }
}

/// The full transition relation of the batch: the state after consuming an
/// event, and the reports owed for that step.
pub open spec fn step_result(pre: BatchV, ev: EventV) -> (BatchV, Seq<ReportV>) {
    match ev {
        EventV::Probed(k) => match k {
            TargetKind::Missing => (finished(pre), seq![ReportV::NotFound]),
            TargetKind::Other => (finished(pre), seq![ReportV::Unsupported]),
            TargetKind::RegularFile => (
                advanced(with_queue(pre, seq![pre.target]), 0),
                advance_reports(seq![pre.target], 0),
            ),
            TargetKind::Directory => (BatchV { phase: Phase::Scanning, ..pre }, Seq::empty()),
        },
        EventV::Scanned(cands) => {
            let q = confirmed_paths(cands);
            (advanced(with_queue(pre, q), 0), advance_reports(q, 0))
        },
        EventV::Transformed(ok) => {
            let cur = pre.queue[pre.next];
            if ok && pre.delete {
                (BatchV { phase: Phase::Deleting, ..pre }, seq![ReportV::Processed(cur)])
            } else {
                let first = if ok {
                    ReportV::Processed(cur)
                } else {
                    ReportV::ProcessFailed(cur)
                };
                (
                    advanced(pre, pre.next + 1),
                    seq![first] + advance_reports(pre.queue, pre.next + 1),
                )
            }
        },
        EventV::Removed(ok) => {
            let cur = pre.queue[pre.next];
            let first = if ok {
                ReportV::Deleted(cur)
            } else {
                ReportV::DeleteFailed(cur)
            };
            (advanced(pre, pre.next + 1), seq![first] + advance_reports(pre.queue, pre.next + 1))
        },
    }
}

/// Well-formedness of a batch state.
pub open spec fn wf_v(b: BatchV) -> bool {
    &&& 0 <= b.next <= b.queue.len()
    &&& match b.phase {
        Phase::Probing | Phase::Scanning => b.next == 0 && b.queue.len() == 0,
        Phase::Transforming | Phase::Deleting => b.next < b.queue.len() && processable(
            b.queue[b.next],
        ),
        Phase::Done => b.next == b.queue.len(),
    }
}

/// The action a state asks its runner for.
pub open spec fn action_of(b: BatchV) -> ActionV {
    match b.phase {
        Phase::Probing => ActionV::Probe,
        Phase::Scanning => ActionV::Scan,
        Phase::Transforming => ActionV::Transform {
            input: b.queue[b.next],
            output: output_of(b.queue[b.next]),
        },
        Phase::Deleting => ActionV::Remove(b.queue[b.next]),
        Phase::Done => ActionV::Finish,
    }
}

/// Skipping unprocessable entries lands on a processable one (or past the
/// end), skips only unprocessable ones, and never moves backwards.
pub proof fn lemma_advance_index(q: Seq<PathV>, i: int)
    requires
        0 <= i <= q.len(),
    ensures
        i <= advance_index(q, i) <= q.len(),
        advance_index(q, i) < q.len() ==> processable(q[advance_index(q, i)]),
        forall|j: int| i <= j < advance_index(q, i) ==> !processable(q[j]),
    decreases q.len() - i,
{
    if i < q.len() && !processable(q[i]) {
        lemma_advance_index(q, i + 1);
    }
}

/// How the target's kind is decided, in the order the probes are made:
/// existence first, then regular file, then directory.
pub open spec fn classified(exists: bool, is_file: bool, is_dir: bool) -> TargetKind {
    if !exists {
        TargetKind::Missing
    } else if is_file {
        TargetKind::RegularFile
    } else if is_dir {
        TargetKind::Directory
    } else {
        TargetKind::Other
    }
}

/// Turn the runner's three probes of the target path into its kind.
pub fn classify_target(exists: bool, is_file: bool, is_dir: bool) -> (k: TargetKind)
    ensures
        k == classified(exists, is_file, is_dir),
{
    if !exists {
        TargetKind::Missing
    } else if is_file {
        TargetKind::RegularFile
    } else if is_dir {
        TargetKind::Directory
    } else {
        TargetKind::Other
    }
}

impl Batch {
    /// Well-formedness of the state; established by [`Batch::new`] and kept
    /// by [`Batch::step`].
    pub open spec fn wf(&self) -> bool {
        wf_v(self.deep_view())
    }

    /// A fresh batch over the given target, which has decided nothing yet.
    pub fn new(target: FilePath, delete: bool) -> (b: Batch)
        ensures
            b.deep_view() == initial(target.deep_view(), delete),
            b.wf(),
    {
        let b = Batch { delete, target, queue: Vec::new(), next: 0, phase: Phase::Probing };
        proof {
            assert(b.queue.deep_view() =~= Seq::<PathV>::empty());
        }
        b
    }

    /// What the runner should do next.
    pub fn action(&self) -> (a: Action)
        requires
            self.wf(),
        ensures
            a.deep_view() == action_of(self.deep_view()),
    {
        match self.phase {
            Phase::Probing => Action::Probe,
            Phase::Scanning => Action::Scan,
            Phase::Transforming => {
                let input = self.queue[self.next].clone();
                match input.output_path() {
                    Some(output) => Action::Transform { input, output },
                    None => {
                        proof {
                            assert(false);
                        }
                        Action::Finish
                    },
                }
            },
            Phase::Deleting => Action::Remove(self.queue[self.next].clone()),
            Phase::Done => Action::Finish,
        }
    }

    /// Move on to the first processable queue entry at or after `start`,
    /// reporting a processing failure for each entry stepped over, and end
    /// the batch when none is left.
    fn advance_from(&mut self, start: usize) -> (reports: Vec<Report>)
        requires
            start <= old(self).queue@.len(),
        ensures
            final(self).deep_view() == advanced(old(self).deep_view(), start as int),
            reports.deep_view() == advance_reports(old(self).deep_view().queue, start as int),
            final(self).wf(),
    {
        let ghost q = self.deep_view().queue;
        let mut reports: Vec<Report> = Vec::new();
        let mut i: usize = start;
        while i < self.queue.len() && self.queue[i].components.len() == 0
            invariant
                start <= i <= self.queue@.len(),
                *self == *old(self),
                q == self.deep_view().queue,
                advance_index(q, start as int) == advance_index(q, i as int),
                advance_reports(q, start as int) =~= reports.deep_view() + advance_reports(
                    q,
                    i as int,
                ),
            decreases self.queue@.len() - i,
        {
            let ghost reports0 = reports.deep_view();
            reports.push(Report::ProcessFailed(self.queue[i].clone()));
            proof {
                assert(reports.deep_view() =~= reports0.push(ReportV::ProcessFailed(q[i as int])));
                assert(advance_reports(q, start as int) =~= reports.deep_view() + advance_reports(
                    q,
                    i + 1,
                ));
            }
            i += 1;
        }
        if i < self.queue.len() {
            self.phase = Phase::Transforming;
        } else {
            self.phase = Phase::Done;
        }
        self.next = i;
        proof {
            assert(advance_reports(q, i as int) =~= Seq::<ReportV>::empty());
            assert(reports.deep_view() =~= advance_reports(q, start as int));
            assert(final(self).deep_view() =~= advanced(old(self).deep_view(), start as int));
        }
        reports
    }

    /// Consume the outcome of the action last asked for, decide what
    /// happens next, and return the status reports owed for this step.
    pub fn step(&mut self, event: Event) -> (reports: Vec<Report>)
        requires
            old(self).wf(),
            fits(old(self).deep_view(), event.deep_view()),
        ensures
            final(self).wf(),
            final(self).deep_view() == step_result(old(self).deep_view(), event.deep_view()).0,
            reports.deep_view() == step_result(old(self).deep_view(), event.deep_view()).1,
    {
        match event {
            Event::Probed(k) => match k {
                TargetKind::Missing => {
                    self.phase = Phase::Done;
                    let mut reports: Vec<Report> = Vec::new();
                    reports.push(Report::NotFound);
                    proof {
                        assert(reports.deep_view() =~= seq![ReportV::NotFound]);
                        assert(final(self).deep_view() =~= finished(old(self).deep_view()));
                    }
                    reports
                },
                TargetKind::Other => {
                    self.phase = Phase::Done;
                    let mut reports: Vec<Report> = Vec::new();
                    reports.push(Report::Unsupported);
                    proof {
                        assert(reports.deep_view() =~= seq![ReportV::Unsupported]);
                        assert(final(self).deep_view() =~= finished(old(self).deep_view()));
                    }
                    reports
                },
                TargetKind::RegularFile => {
                    let t = self.target.clone();
                    self.queue.push(t);
                    proof {
                        assert(self.deep_view().queue =~= seq![old(self).deep_view().target]);
                    }
                    self.advance_from(0)
                },
                TargetKind::Directory => {
                    self.phase = Phase::Scanning;
                    let reports: Vec<Report> = Vec::new();
                    proof {
                        assert(reports.deep_view() =~= Seq::<ReportV>::empty());
                    }
                    reports
                },
            },
            Event::Scanned(cands) => {
                let ghost cv = cands.deep_view();
                let mut i: usize = 0;
                while i < cands.len()
                    invariant
                        i <= cands@.len(),
                        cv == cands.deep_view(),
                        self.delete == old(self).delete,
                        self.target == old(self).target,
                        self.next == old(self).next,
                        self.phase == old(self).phase,
                        self.deep_view().queue =~= confirmed_paths(cv.subrange(0, i as int)),
                    decreases cands@.len() - i,
                {
                    let ghost queue0 = self.deep_view().queue;
                    let c = &cands[i];
                    proof {
                        assert(c.head.deep_view() =~= c.head@);
                        assert(cv.subrange(0, i + 1).drop_last() =~= cv.subrange(0, i as int));
                        assert(cv.subrange(0, i + 1).last() == cv[i as int]);
                    }
                    if crate::sniff::sniff_head(c.head.as_slice()) {
                        self.queue.push(c.path.clone());
                        proof {
                            assert(self.deep_view().queue =~= queue0.push(cv[i as int].path));
                        }
                    }
                    i += 1;
                }
                proof {
                    assert(cv.subrange(0, cv.len() as int) =~= cv);
                }
                self.advance_from(0)
            },
            Event::Transformed(ok) => {
                let cur = self.queue[self.next].clone();
                if ok && self.delete {
                    self.phase = Phase::Deleting;
                    let mut reports: Vec<Report> = Vec::new();
                    reports.push(Report::Processed(cur));
                    proof {
                        assert(reports.deep_view() =~= seq![
                            ReportV::Processed(
                                old(self).deep_view().queue[old(self).deep_view().next],
                            ),
                        ]);
                        assert(final(self).deep_view() =~= BatchV {
                            phase: Phase::Deleting,
                            ..old(self).deep_view()
                        });
                    }
                    reports
                } else {
                    let mut reports: Vec<Report> = Vec::new();
                    if ok {
                        reports.push(Report::Processed(cur));
                    } else {
                        reports.push(Report::ProcessFailed(cur));
                    }
                    let ghost first = reports.deep_view();
                    let n = self.queue.len();
                    let start = self.next + 1;
                    let mut more = self.advance_from(start);
                    let ghost morev = more.deep_view();
                    reports.append(&mut more);
                    proof {
                        assert(reports.deep_view() =~= first + morev);
                        assert(reports.deep_view() =~= step_result(
                            old(self).deep_view(),
                            event.deep_view(),
                        ).1);
                    }
                    reports
                }
            },
            Event::Removed(ok) => {
                let cur = self.queue[self.next].clone();
                let mut reports: Vec<Report> = Vec::new();
                if ok {
                    reports.push(Report::Deleted(cur));
                } else {
                    reports.push(Report::DeleteFailed(cur));
                }
                let ghost first = reports.deep_view();
                let n = self.queue.len();
                let start = self.next + 1;
                let mut more = self.advance_from(start);
                let ghost morev = more.deep_view();
                reports.append(&mut more);
                proof {
                    assert(reports.deep_view() =~= first + morev);
                    assert(reports.deep_view() =~= step_result(
                        old(self).deep_view(),
                        event.deep_view(),
                    ).1);
                }
                reports
            },
        }
    }
}

} // verus!
