//! Laws of the batch machine: what holds of whole runs, not just of single
//! steps. A run is a sequence of events fed to the machine from some state;
//! the lemmas here pin down the reports and the transform invocations of
//! complete runs.

use vstd::prelude::*;

use crate::batch::{
    advance_index, advance_reports, confirmed_paths, fits, initial, lemma_advance_index,
    processable, step_result, wf_v, BatchV, CandidateV, EventV, ReportV, TargetKind,
};
use crate::paths::PathV;
use crate::sniff::is_pdf_head;

verus! {

/// The state after feeding the whole event sequence.
pub open spec fn run_state(pre: BatchV, evs: Seq<EventV>) -> BatchV
    decreases evs.len(),
{
    if evs.len() == 0 {
        pre
    } else {
        run_state(step_result(pre, evs[0]).0, evs.drop_first())
    }
}

/// All the reports of the run, in the order they were owed.
pub open spec fn run_reports(pre: BatchV, evs: Seq<EventV>) -> Seq<ReportV>
    decreases evs.len(),
{
    if evs.len() == 0 {
        Seq::empty()
    } else {
        step_result(pre, evs[0]).1 + run_reports(step_result(pre, evs[0]).0, evs.drop_first())
    }
}

/// A run is valid when every event answers the action its state asked for.
pub open spec fn valid_run(pre: BatchV, evs: Seq<EventV>) -> bool
    decreases evs.len(),
{
    evs.len() == 0 || (fits(pre, evs[0]) && valid_run(step_result(pre, evs[0]).0, evs.drop_first()))
}

/// Every step of a valid run keeps the state well-formed.
pub proof fn lemma_step_wf(pre: BatchV, ev: EventV)
    requires
        wf_v(pre),
        fits(pre, ev),
    ensures
        wf_v(step_result(pre, ev).0),
{
    match ev {
        EventV::Probed(k) => match k {
            TargetKind::Missing | TargetKind::Other => {},
            TargetKind::RegularFile => {
                lemma_advance_index(seq![pre.target], 0);
            },
            TargetKind::Directory => {},
        },
        EventV::Scanned(cands) => {
            lemma_advance_index(confirmed_paths(cands), 0);
        },
        EventV::Transformed(ok) => {
            if !(ok && pre.delete) {
                lemma_advance_index(pre.queue, pre.next + 1);
            }
        },
        EventV::Removed(_) => {
            lemma_advance_index(pre.queue, pre.next + 1);
        },
    }
}

/// Deletion of an original is only ever scheduled right after its transform
/// step reported success, and only when deletion was requested; the file
/// about to be deleted is exactly the one just processed.
pub proof fn lemma_delete_needs_success(pre: BatchV, ev: EventV)
    requires
        wf_v(pre),
        fits(pre, ev),
    ensures
        step_result(pre, ev).0.phase is Deleting ==> {
            &&& pre.phase is Transforming
            &&& pre.delete
            &&& ev == EventV::Transformed(true)
            &&& step_result(pre, ev).0.next == pre.next
            &&& step_result(pre, ev).0.queue == pre.queue
        },
{
    match ev {
        EventV::Probed(k) => match k {
            TargetKind::Missing | TargetKind::Other | TargetKind::Directory => {},
            TargetKind::RegularFile => {
                lemma_advance_index(seq![pre.target], 0);
            },
        },
        EventV::Scanned(cands) => {
            lemma_advance_index(confirmed_paths(cands), 0);
        },
        EventV::Transformed(ok) => {
            if !(ok && pre.delete) {
                lemma_advance_index(pre.queue, pre.next + 1);
            }
        },
        EventV::Removed(_) => {
            lemma_advance_index(pre.queue, pre.next + 1);
        },
    }
}

/// How many scanned candidates carry the PDF signature.
pub open spec fn count_pdf(cands: Seq<CandidateV>) -> nat
    decreases cands.len(),
{
    if cands.len() == 0 {
        0
    } else if is_pdf_head(cands.last().head) {
        count_pdf(cands.drop_last()) + 1
    } else {
        count_pdf(cands.drop_last())
    }
}

/// The member of the confirmed PDF set at position `k` is the path of some
/// candidate whose head carries the signature.
pub open spec fn member_from_candidate(cands: Seq<CandidateV>, k: int) -> bool {
    exists|i: int|
        0 <= i < cands.len() && is_pdf_head(#[trigger] cands[i].head) && cands[i].path
            == confirmed_paths(cands)[k]
}

/// The confirmed PDF set has exactly one member per candidate whose head
/// carries the signature: every member comes from such a candidate, and
/// every such candidate's path is a member.
pub proof fn lemma_confirmed_members(cands: Seq<CandidateV>)
    ensures
        confirmed_paths(cands).len() == count_pdf(cands),
        forall|k: int|
            0 <= k < confirmed_paths(cands).len() ==> #[trigger] member_from_candidate(cands, k),
        forall|i: int|
            0 <= i < cands.len() && is_pdf_head(#[trigger] cands[i].head) ==> confirmed_paths(
                cands,
            ).contains(cands[i].path),
    decreases cands.len(),
{
    if cands.len() == 0 {
    } else {
        let rest = cands.drop_last();
        let conf = confirmed_paths(cands);
        let confr = confirmed_paths(rest);
        lemma_confirmed_members(rest);
        assert forall|k: int| 0 <= k < conf.len() implies member_from_candidate(cands, k) by {
            if k < confr.len() {
                assert(member_from_candidate(rest, k));
                let i = choose|i: int|
                    0 <= i < rest.len() && is_pdf_head(#[trigger] rest[i].head) && rest[i].path
                        == confirmed_paths(rest)[k];
                assert(cands[i] == rest[i]);
                assert(conf[k] == confr[k]);
                assert(0 <= i < cands.len() && is_pdf_head(cands[i].head) && cands[i].path
                    == conf[k]);
            } else {
                let i = cands.len() - 1;
                assert(0 <= i < cands.len() && is_pdf_head(cands[i].head) && cands[i].path
                    == conf[k]);
            }
        }
        assert forall|i: int|
            0 <= i < cands.len() && is_pdf_head(#[trigger] cands[i].head) implies conf.contains(
            cands[i].path,
        ) by {
            if i < cands.len() - 1 {
                assert(cands[i] == rest[i]);
                assert(confr.contains(rest[i].path));
                let k = choose|k: int| 0 <= k < confr.len() && confr[k] == rest[i].path;
                assert(conf[k] == cands[i].path);
            } else {
                assert(conf[conf.len() - 1] == cands[i].path);
            }
        }
    }
}

} // verus!

verus! {

/// The reports of a complete run over `q` from entry `i` on in which the
/// external tool failed on every file: one failure line per entry, in order.
pub open spec fn failed_reports(q: Seq<PathV>, i: int) -> Seq<ReportV>
    decreases q.len() - i,
{
    if i < q.len() {
        seq![ReportV::ProcessFailed(q[i])] + failed_reports(q, i + 1)
    } else {
        Seq::empty()
    }
}

/// The reports of a complete run over `q` from entry `i` on in which the
/// tool and every deletion succeeded and deletion was requested: each
/// processable entry is processed and then deleted; an entry without an
/// output location still fails.
pub open spec fn success_reports(q: Seq<PathV>, i: int) -> Seq<ReportV>
    decreases q.len() - i,
{
    if i < q.len() {
        (if processable(q[i]) {
            seq![ReportV::Processed(q[i]), ReportV::Deleted(q[i])]
        } else {
            seq![ReportV::ProcessFailed(q[i])]
        }) + success_reports(q, i + 1)
    } else {
        Seq::empty()
    }
}

/// In every event of the run the external tool reported failure.
pub open spec fn all_transforms_fail(evs: Seq<EventV>) -> bool {
    forall|i: int|
        0 <= i < evs.len() ==> ((#[trigger] evs[i]) matches EventV::Transformed(ok) ==> !ok)
}

/// In every event of the run the external tool and every deletion succeeded.
pub open spec fn all_outcomes_succeed(evs: Seq<EventV>) -> bool {
    forall|i: int|
        0 <= i < evs.len() ==> {
            &&& ((#[trigger] evs[i]) matches EventV::Transformed(ok) ==> ok)
            &&& (evs[i] matches EventV::Removed(ok) ==> ok)
        }
}

proof fn lemma_all_fail_drop_first(evs: Seq<EventV>)
    requires
        evs.len() >= 1,
        all_transforms_fail(evs),
    ensures
        all_transforms_fail(evs.drop_first()),
{
    assert forall|i: int|
        0 <= i < evs.drop_first().len() implies ((#[trigger] evs.drop_first()[i]) matches
        EventV::Transformed(ok) ==> !ok) by {
        assert(evs.drop_first()[i] == evs[i + 1]);
    }
}

proof fn lemma_all_succeed_drop_first(evs: Seq<EventV>)
    requires
        evs.len() >= 1,
        all_outcomes_succeed(evs),
    ensures
        all_outcomes_succeed(evs.drop_first()),
{
    assert forall|i: int| 0 <= i < evs.drop_first().len() implies {
        &&& ((#[trigger] evs.drop_first()[i]) matches EventV::Transformed(ok) ==> ok)
        &&& (evs.drop_first()[i] matches EventV::Removed(ok) ==> ok)
    } by {
        assert(evs.drop_first()[i] == evs[i + 1]);
    }
}

/// Skipping the unprocessable entries first and then failing on the rest
/// reports the same as failing on everything from `i` on.
proof fn lemma_advance_then_failed(q: Seq<PathV>, i: int)
    requires
        0 <= i <= q.len(),
    ensures
        advance_reports(q, i) + failed_reports(q, advance_index(q, i)) =~= failed_reports(q, i),
    decreases q.len() - i,
{
    if i < q.len() && !processable(q[i]) {
        lemma_advance_then_failed(q, i + 1);
        assert((seq![ReportV::ProcessFailed(q[i])] + advance_reports(q, i + 1)) + failed_reports(
            q,
            advance_index(q, i + 1),
        ) =~= seq![ReportV::ProcessFailed(q[i])] + (advance_reports(q, i + 1) + failed_reports(
            q,
            advance_index(q, i + 1),
        )));
    } else {
        assert(advance_reports(q, i) + failed_reports(q, i) =~= failed_reports(q, i));
    }
}

/// The same for a run in which every outcome succeeds: an unprocessable
/// entry is reported as failed either way.
proof fn lemma_advance_then_success(q: Seq<PathV>, i: int)
    requires
        0 <= i <= q.len(),
    ensures
        advance_reports(q, i) + success_reports(q, advance_index(q, i)) =~= success_reports(q, i),
    decreases q.len() - i,
{
    if i < q.len() && !processable(q[i]) {
        lemma_advance_then_success(q, i + 1);
        assert((seq![ReportV::ProcessFailed(q[i])] + advance_reports(q, i + 1)) + success_reports(
            q,
            advance_index(q, i + 1),
        ) =~= seq![ReportV::ProcessFailed(q[i])] + (advance_reports(q, i + 1) + success_reports(
            q,
            advance_index(q, i + 1),
        )));
    } else {
        assert(advance_reports(q, i) + success_reports(q, i) =~= success_reports(q, i));
    }
}

/// From a state whose queue is established, a complete run in which the
/// tool fails on every file reports exactly one failure per remaining
/// queued file, in order, and consumes nothing but transform outcomes: no
/// deletion is ever asked for and none is reported.
pub proof fn lemma_failing_tool_reports(pre: BatchV, evs: Seq<EventV>)
    requires
        wf_v(pre),
        valid_run(pre, evs),
        all_transforms_fail(evs),
        pre.phase is Transforming || pre.phase is Done,
        run_state(pre, evs).phase is Done,
    ensures
        run_reports(pre, evs) =~= failed_reports(pre.queue, pre.next),
        forall|i: int| 0 <= i < evs.len() ==> (#[trigger] evs[i]) is Transformed,
    decreases evs.len(),
{
    let q = pre.queue;
    if pre.phase is Done {
        assert(evs.len() == 0);
    } else {
        assert(evs.len() > 0);
        let ev = evs[0];
        let rest = evs.drop_first();
        assert(ev is Transformed);
        match ev {
            EventV::Transformed(ok) => {
                assert(!ok);
                let s1 = step_result(pre, ev).0;
                lemma_step_wf(pre, ev);
                lemma_advance_index(q, pre.next + 1);
                lemma_all_fail_drop_first(evs);
                assert(run_state(s1, rest).phase is Done);
                lemma_failing_tool_reports(s1, rest);
                lemma_advance_then_failed(q, pre.next + 1);
                assert((seq![ReportV::ProcessFailed(q[pre.next])] + advance_reports(
                    q,
                    pre.next + 1,
                )) + run_reports(s1, rest) =~= seq![ReportV::ProcessFailed(q[pre.next])] + (
                advance_reports(q, pre.next + 1) + failed_reports(q, advance_index(
                    q,
                    pre.next + 1,
                ))));
                assert(forall|i: int|
                    0 <= i < rest.len() ==> (#[trigger] rest[i]) is Transformed);
                assert forall|i: int| 0 <= i < evs.len() implies (#[trigger] evs[i])
                    is Transformed by {
                    if i > 0 {
                        assert(evs[i] == rest[i - 1]);
                    }
                }
            },
            _ => {},
        }
    }
}

/// From a state whose queue is established and whose deletion flag is set,
/// a complete run in which the tool and every deletion succeed reports, for
/// each remaining processable file in order, that it was processed and then
/// that its original was deleted.
pub proof fn lemma_succeeding_tool_reports(pre: BatchV, evs: Seq<EventV>)
    requires
        wf_v(pre),
        valid_run(pre, evs),
        all_outcomes_succeed(evs),
        pre.delete,
        pre.phase is Transforming || pre.phase is Done,
        run_state(pre, evs).phase is Done,
    ensures
        run_reports(pre, evs) =~= success_reports(pre.queue, pre.next),
    decreases evs.len(),
{
    let q = pre.queue;
    if pre.phase is Done {
        assert(evs.len() == 0);
    } else {
        assert(evs.len() > 0);
        let ev = evs[0];
        let rest = evs.drop_first();
        assert(ev is Transformed);
        match ev {
            EventV::Transformed(ok) => {
                assert(ok);
                let s1 = step_result(pre, ev).0;
                assert(s1.phase is Deleting);
                lemma_step_wf(pre, ev);
                lemma_all_succeed_drop_first(evs);
                assert(valid_run(s1, rest));
                assert(run_state(s1, rest) == run_state(pre, evs));
                assert(rest.len() > 0);
                let ev1 = rest[0];
                let rest2 = rest.drop_first();
                assert(fits(s1, ev1));
                assert(ev1 is Removed);
                match ev1 {
                    EventV::Removed(rok) => {
                        assert(rok);
                        let s2 = step_result(s1, ev1).0;
                        lemma_step_wf(s1, ev1);
                        lemma_advance_index(q, pre.next + 1);
                        lemma_all_succeed_drop_first(rest);
                        assert(valid_run(s2, rest2));
                        assert(run_state(s2, rest2).phase is Done);
                        lemma_succeeding_tool_reports(s2, rest2);
                        lemma_advance_then_success(q, pre.next + 1);
                        let r0 = step_result(pre, ev).1;
                        let r1 = step_result(s1, ev1).1;
                        let tailr = run_reports(s2, rest2);
                        assert(run_reports(pre, evs) == r0 + run_reports(s1, rest));
                        assert(run_reports(s1, rest) == r1 + tailr);
                        assert(r0 == seq![ReportV::Processed(q[pre.next])]);
                        assert(r1 == seq![ReportV::Deleted(q[pre.next])] + advance_reports(
                            q,
                            pre.next + 1,
                        ));
                        assert(tailr =~= success_reports(q, advance_index(q, pre.next + 1)));
                        assert(success_reports(q, pre.next) =~= seq![
                            ReportV::Processed(q[pre.next]),
                            ReportV::Deleted(q[pre.next]),
                        ] + success_reports(q, pre.next + 1));
                        assert(run_reports(pre, evs) =~= success_reports(q, pre.next));
                    },
                    _ => {},
                }
            },
            _ => {},
        }
    }
}

} // verus!

verus! {

/// The inputs handed to the external tool over a run, in order: one per
/// visit to a transforming state (each such visit asks for exactly one
/// transform and consumes its outcome).
pub open spec fn transform_inputs(pre: BatchV, evs: Seq<EventV>) -> Seq<PathV>
    decreases evs.len(),
{
    if evs.len() == 0 {
        Seq::empty()
    } else {
        (if pre.phase is Transforming {
            seq![pre.queue[pre.next]]
        } else {
            Seq::<PathV>::empty()
        }) + transform_inputs(step_result(pre, evs[0]).0, evs.drop_first())
    }
}

/// The processable queue entries from `i` on, in order.
pub open spec fn good_paths(q: Seq<PathV>, i: int) -> Seq<PathV>
    decreases q.len() - i,
{
    if i < q.len() {
        if processable(q[i]) {
            seq![q[i]] + good_paths(q, i + 1)
        } else {
            good_paths(q, i + 1)
        }
    } else {
        Seq::empty()
    }
}

/// Entries skipped on the way to the next processable one contribute
/// nothing processable.
proof fn lemma_good_paths_advance(q: Seq<PathV>, i: int)
    requires
        0 <= i <= q.len(),
    ensures
        good_paths(q, i) =~= good_paths(q, advance_index(q, i)),
    decreases q.len() - i,
{
    if i < q.len() && !processable(q[i]) {
        lemma_good_paths_advance(q, i + 1);
    }
}

/// From a state whose queue is established, a complete run hands the tool
/// exactly the remaining processable queued files, in order, whatever the
/// per-file outcomes and whether deletion was requested.
pub proof fn lemma_transform_inputs(pre: BatchV, evs: Seq<EventV>)
    requires
        wf_v(pre),
        valid_run(pre, evs),
        run_state(pre, evs).phase is Done,
        pre.phase is Transforming || pre.phase is Deleting || pre.phase is Done,
    ensures
        transform_inputs(pre, evs) =~= if pre.phase is Deleting {
            good_paths(pre.queue, pre.next + 1)
        } else {
            good_paths(pre.queue, pre.next)
        },
    decreases evs.len(),
{
    let q = pre.queue;
    if pre.phase is Done {
        assert(evs.len() == 0);
    } else {
        assert(evs.len() > 0);
        let ev = evs[0];
        let rest = evs.drop_first();
        let s1 = step_result(pre, ev).0;
        lemma_step_wf(pre, ev);
        assert(valid_run(s1, rest));
        assert(run_state(s1, rest) == run_state(pre, evs));
        lemma_transform_inputs(s1, rest);
        if pre.phase is Transforming {
            match ev {
                EventV::Transformed(ok) => {
                    if ok && pre.delete {
                        assert(s1.phase is Deleting && s1.next == pre.next && s1.queue == q);
                        assert(good_paths(q, pre.next) =~= seq![q[pre.next]] + good_paths(
                            q,
                            pre.next + 1,
                        ));
                    } else {
                        lemma_advance_index(q, pre.next + 1);
                        lemma_good_paths_advance(q, pre.next + 1);
                        assert(good_paths(q, pre.next) =~= seq![q[pre.next]] + good_paths(
                            q,
                            pre.next + 1,
                        ));
                    }
                },
                _ => {},
            }
        } else {
            match ev {
                EventV::Removed(_) => {
                    lemma_advance_index(q, pre.next + 1);
                    lemma_good_paths_advance(q, pre.next + 1);
                },
                _ => {},
            }
        }
    }
}

} // verus!

verus! {

/// If the external tool fails on every file of a directory run, nothing is
/// ever deleted: the machine consumes only transform outcomes after the
/// scan (so it never asks for a deletion), and the reports are exactly one
/// failure line per confirmed PDF, in traversal order.
pub proof fn lemma_failing_tool_directory(
    target: PathV,
    delete: bool,
    cands: Seq<CandidateV>,
    evs: Seq<EventV>,
)
    requires
        evs.len() >= 2,
        evs[0] == EventV::Probed(TargetKind::Directory),
        evs[1] == EventV::Scanned(cands),
        valid_run(initial(target, delete), evs),
        all_transforms_fail(evs),
        run_state(initial(target, delete), evs).phase is Done,
    ensures
        run_reports(initial(target, delete), evs) =~= failed_reports(confirmed_paths(cands), 0),
        forall|i: int| 2 <= i < evs.len() ==> (#[trigger] evs[i]) is Transformed,
{
    let b0 = initial(target, delete);
    let q = confirmed_paths(cands);
    let s1 = step_result(b0, evs[0]).0;
    let rest1 = evs.drop_first();
    assert(rest1[0] == evs[1]);
    let s2 = step_result(s1, evs[1]).0;
    let rest2 = rest1.drop_first();
    assert(wf_v(b0));
    lemma_step_wf(b0, evs[0]);
    assert(valid_run(s1, rest1));
    lemma_step_wf(s1, evs[1]);
    assert(valid_run(s2, rest2));
    assert(run_state(b0, evs) == run_state(s1, rest1));
    assert(run_state(s1, rest1) == run_state(s2, rest2));
    lemma_all_fail_drop_first(evs);
    lemma_all_fail_drop_first(rest1);
    lemma_advance_index(q, 0);
    lemma_failing_tool_reports(s2, rest2);
    lemma_advance_then_failed(q, 0);
    assert(s2.queue == q && s2.next == advance_index(q, 0));
    assert(run_reports(b0, evs) == step_result(b0, evs[0]).1 + run_reports(s1, rest1));
    assert(run_reports(s1, rest1) == step_result(s1, evs[1]).1 + run_reports(s2, rest2));
    assert(step_result(b0, evs[0]).1 == Seq::<ReportV>::empty());
    assert(step_result(s1, evs[1]).1 == advance_reports(q, 0));
    assert(run_reports(b0, evs) =~= failed_reports(q, 0));
    assert forall|i: int| 2 <= i < evs.len() implies (#[trigger] evs[i]) is Transformed by {
        assert(evs[i] == rest2[i - 2]);
    }
}

/// The same for a single-file run: when the tool fails, the one queued file
/// is reported as failed and no deletion is ever asked for.
pub proof fn lemma_failing_tool_single_file(
    target: PathV,
    delete: bool,
    evs: Seq<EventV>,
)
    requires
        evs.len() >= 1,
        evs[0] == EventV::Probed(TargetKind::RegularFile),
        valid_run(initial(target, delete), evs),
        all_transforms_fail(evs),
        run_state(initial(target, delete), evs).phase is Done,
    ensures
        run_reports(initial(target, delete), evs) =~= failed_reports(seq![target], 0),
        forall|i: int| 1 <= i < evs.len() ==> (#[trigger] evs[i]) is Transformed,
{
    let b0 = initial(target, delete);
    let q = seq![target];
    let s1 = step_result(b0, evs[0]).0;
    let rest1 = evs.drop_first();
    assert(wf_v(b0));
    lemma_step_wf(b0, evs[0]);
    assert(valid_run(s1, rest1));
    assert(run_state(s1, rest1) == run_state(b0, evs));
    lemma_all_fail_drop_first(evs);
    lemma_advance_index(q, 0);
    lemma_failing_tool_reports(s1, rest1);
    lemma_advance_then_failed(q, 0);
    assert(s1.queue == q && s1.next == advance_index(q, 0));
    assert(run_reports(b0, evs) == step_result(b0, evs[0]).1 + run_reports(s1, rest1));
    assert(step_result(b0, evs[0]).1 == advance_reports(q, 0));
    assert(run_reports(b0, evs) =~= failed_reports(q, 0));
    assert forall|i: int| 1 <= i < evs.len() implies (#[trigger] evs[i]) is Transformed by {
        assert(evs[i] == rest1[i - 1]);
    }
}

/// If deletion is requested and the tool and every deletion succeed, a
/// directory run processes every confirmed PDF that has an output location
/// and then deletes its original, in traversal order.
pub proof fn lemma_succeeding_tool_directory(
    target: PathV,
    cands: Seq<CandidateV>,
    evs: Seq<EventV>,
)
    requires
        evs.len() >= 2,
        evs[0] == EventV::Probed(TargetKind::Directory),
        evs[1] == EventV::Scanned(cands),
        valid_run(initial(target, true), evs),
        all_outcomes_succeed(evs),
        run_state(initial(target, true), evs).phase is Done,
    ensures
        run_reports(initial(target, true), evs) =~= success_reports(confirmed_paths(cands), 0),
{
    let b0 = initial(target, true);
    let q = confirmed_paths(cands);
    let s1 = step_result(b0, evs[0]).0;
    let rest1 = evs.drop_first();
    assert(rest1[0] == evs[1]);
    let s2 = step_result(s1, evs[1]).0;
    let rest2 = rest1.drop_first();
    assert(wf_v(b0));
    lemma_step_wf(b0, evs[0]);
    assert(valid_run(s1, rest1));
    lemma_step_wf(s1, evs[1]);
    assert(valid_run(s2, rest2));
    assert(run_state(b0, evs) == run_state(s1, rest1));
    assert(run_state(s1, rest1) == run_state(s2, rest2));
    lemma_all_succeed_drop_first(evs);
    lemma_all_succeed_drop_first(rest1);
    lemma_advance_index(q, 0);
    assert(s2.delete);
    lemma_succeeding_tool_reports(s2, rest2);
    lemma_advance_then_success(q, 0);
    assert(s2.queue == q && s2.next == advance_index(q, 0));
    assert(run_reports(b0, evs) == step_result(b0, evs[0]).1 + run_reports(s1, rest1));
    assert(run_reports(s1, rest1) == step_result(s1, evs[1]).1 + run_reports(s2, rest2));
    assert(step_result(b0, evs[0]).1 == Seq::<ReportV>::empty());
    assert(step_result(s1, evs[1]).1 == advance_reports(q, 0));
    assert(run_reports(b0, evs) =~= success_reports(q, 0));
}

/// The same for a single-file run with deletion requested: when the tool
/// and the deletion succeed, the file is processed and then its original is
/// deleted.
pub proof fn lemma_succeeding_tool_single_file(target: PathV, evs: Seq<EventV>)
    requires
        evs.len() >= 1,
        evs[0] == EventV::Probed(TargetKind::RegularFile),
        valid_run(initial(target, true), evs),
        all_outcomes_succeed(evs),
        run_state(initial(target, true), evs).phase is Done,
    ensures
        run_reports(initial(target, true), evs) =~= success_reports(seq![target], 0),
{
    let b0 = initial(target, true);
    let q = seq![target];
    let s1 = step_result(b0, evs[0]).0;
    let rest1 = evs.drop_first();
    assert(wf_v(b0));
    lemma_step_wf(b0, evs[0]);
    assert(valid_run(s1, rest1));
    assert(run_state(s1, rest1) == run_state(b0, evs));
    lemma_all_succeed_drop_first(evs);
    lemma_advance_index(q, 0);
    lemma_succeeding_tool_reports(s1, rest1);
    lemma_advance_then_success(q, 0);
    assert(s1.queue == q && s1.next == advance_index(q, 0));
    assert(run_reports(b0, evs) == step_result(b0, evs[0]).1 + run_reports(s1, rest1));
    assert(step_result(b0, evs[0]).1 == advance_reports(q, 0));
    assert(run_reports(b0, evs) =~= success_reports(q, 0));
}

/// Which files a directory run hands to the external tool is a function of
/// the scanned candidates alone: exactly the confirmed PDFs that have an
/// output location, in traversal order, whatever the target, the deletion
/// flag and the per-file outcomes. Each transform writes to the output
/// location derived from its input, so a rerun that scans the same
/// candidates writes to exactly the same locations.
pub proof fn lemma_directory_plan(
    target: PathV,
    delete: bool,
    cands: Seq<CandidateV>,
    evs: Seq<EventV>,
)
    requires
        evs.len() >= 2,
        evs[0] == EventV::Probed(TargetKind::Directory),
        evs[1] == EventV::Scanned(cands),
        valid_run(initial(target, delete), evs),
        run_state(initial(target, delete), evs).phase is Done,
    ensures
        transform_inputs(initial(target, delete), evs) =~= good_paths(confirmed_paths(cands), 0),
{
    let b0 = initial(target, delete);
    let q = confirmed_paths(cands);
    let s1 = step_result(b0, evs[0]).0;
    let rest1 = evs.drop_first();
    assert(rest1[0] == evs[1]);
    let s2 = step_result(s1, evs[1]).0;
    let rest2 = rest1.drop_first();
    assert(wf_v(b0));
    lemma_step_wf(b0, evs[0]);
    assert(valid_run(s1, rest1));
    lemma_step_wf(s1, evs[1]);
    assert(valid_run(s2, rest2));
    assert(run_state(b0, evs) == run_state(s1, rest1));
    assert(run_state(s1, rest1) == run_state(s2, rest2));
    lemma_advance_index(q, 0);
    lemma_transform_inputs(s2, rest2);
    lemma_good_paths_advance(q, 0);
    assert(transform_inputs(b0, evs) == transform_inputs(s1, rest1));
    assert(transform_inputs(s1, rest1) == transform_inputs(s2, rest2));
    assert(transform_inputs(b0, evs) =~= good_paths(q, 0));
}

/// Idempotence of the plan: two complete directory runs that scan the same
/// candidates transform exactly the same files, in the same order, into the
/// same output locations, whatever their targets, deletion flags and
/// per-file outcomes were. Without deletion, a second run over an unchanged
/// directory therefore overwrites the same outputs rather than producing
/// new ones.
pub proof fn lemma_rerun_same_plan(
    t1: PathV,
    d1: bool,
    evs1: Seq<EventV>,
    t2: PathV,
    d2: bool,
    evs2: Seq<EventV>,
    cands: Seq<CandidateV>,
)
    requires
        evs1.len() >= 2,
        evs1[0] == EventV::Probed(TargetKind::Directory),
        evs1[1] == EventV::Scanned(cands),
        valid_run(initial(t1, d1), evs1),
        run_state(initial(t1, d1), evs1).phase is Done,
        evs2.len() >= 2,
        evs2[0] == EventV::Probed(TargetKind::Directory),
        evs2[1] == EventV::Scanned(cands),
        valid_run(initial(t2, d2), evs2),
        run_state(initial(t2, d2), evs2).phase is Done,
    ensures
        transform_inputs(initial(t1, d1), evs1) =~= transform_inputs(initial(t2, d2), evs2),
{
    lemma_directory_plan(t1, d1, cands, evs1);
    lemma_directory_plan(t2, d2, cands, evs2);
}

} // verus!
