//! Properties of the state machine that hold of every input, stated once and
//! proved for all callers: the operation lifecycle around the `operating`
//! flag, the batch eviction and boundedness of the two rolling logs, and the
//! shape of the filtered index view.

use vstd::prelude::*;

use crate::app::{
    event_step, filtered_indices_spec, push_log_spec, push_op_log_spec, AppEventView, AppView,
    ModeView, LOG_CAP, LOG_EVICT, OP_LOG_CAP, OP_LOG_EVICT,
};

verus! {

/// An operation started and then ended under the same title: `operating` is
/// off before (by assumption), on strictly between the two events, and off
/// again after, with the percentage cleared by the end event.
pub proof fn lemma_operation_lifecycle(s: AppView, title: Seq<char>)
    requires
        !s.operating,
    ensures
        event_step(s, AppEventView::OpStart(title)).operating,
        !event_step(event_step(s, AppEventView::OpStart(title)), AppEventView::OpEnd(
            title,
        )).operating,
        event_step(event_step(s, AppEventView::OpStart(title)), AppEventView::OpEnd(
            title,
        )).operation_percent is None,
{
}

/// The log tail after the lines are pushed in order.
pub open spec fn push_log_all(logs: Seq<Seq<char>>, lines: Seq<Seq<char>>) -> Seq<Seq<char>>
    decreases lines.len(),
{
    if lines.len() == 0 {
        logs
    } else {
        push_log_spec(push_log_all(logs, lines.drop_last()), lines.last())
    }
}

/// A tail within its capacity grows without eviction.
proof fn lemma_push_log_all_no_evict(lines: Seq<Seq<char>>)
    requires
        lines.len() <= LOG_CAP,
    ensures
        push_log_all(Seq::empty(), lines) == lines,
    decreases lines.len(),
{
    if lines.len() == 0 {
        assert(push_log_all(Seq::empty(), lines) =~~= lines);
    } else {
        lemma_push_log_all_no_evict(lines.drop_last());
        assert(lines.drop_last().push(lines.last()) =~~= lines);
    }
}

/// Log-tail eviction: pushing 301 lines into the empty tail keeps exactly the
/// newest 201 of them — the hundred oldest leave in one batch — so the tail
/// stays within its capacity of 300 and still ends with the newest line.
pub proof fn lemma_log_tail_eviction(lines: Seq<Seq<char>>)
    requires
        lines.len() == LOG_CAP + 1,
    ensures
        push_log_all(Seq::empty(), lines) == lines.skip(LOG_EVICT as int),
        push_log_all(Seq::empty(), lines).len() <= LOG_CAP,
        push_log_all(Seq::empty(), lines).last() == lines.last(),
{
    lemma_push_log_all_no_evict(lines.drop_last());
    assert(lines.drop_last().push(lines.last()) =~~= lines);
    assert(push_log_all(Seq::empty(), lines) == lines.skip(LOG_EVICT as int));
}

/// An operation log and its scroll offset after the lines are pushed in
/// order.
pub open spec fn push_op_log_all(logs: Seq<Seq<char>>, scroll: int, lines: Seq<Seq<char>>) -> (
    Seq<Seq<char>>,
    int,
)
    decreases lines.len(),
{
    if lines.len() == 0 {
        (logs, scroll)
    } else {
        let prev = push_op_log_all(logs, scroll, lines.drop_last());
        push_op_log_spec(prev.0, prev.1, lines.last())
    }
}

/// An operation log within its capacity grows without eviction and leaves the
/// scroll offset alone.
proof fn lemma_push_op_log_all_no_evict(scroll: int, lines: Seq<Seq<char>>)
    requires
        lines.len() <= OP_LOG_CAP,
    ensures
        push_op_log_all(Seq::empty(), scroll, lines) == (lines, scroll),
    decreases lines.len(),
{
    if lines.len() == 0 {
        assert(push_op_log_all(Seq::empty(), scroll, lines).0 =~~= lines);
    } else {
        lemma_push_op_log_all_no_evict(scroll, lines.drop_last());
        assert(lines.drop_last().push(lines.last()) =~~= lines);
    }
}

/// Operation-log eviction: pushing 2001 lines into an empty operation log
/// keeps exactly the newest 1501 — the five hundred oldest leave in one
/// batch — so the log stays within its capacity of 2000, and the scroll
/// offset is re-clamped to not exceed the new length.
pub proof fn lemma_operation_log_eviction(lines: Seq<Seq<char>>, scroll: int)
    requires
        lines.len() == OP_LOG_CAP + 1,
    ensures
        push_op_log_all(Seq::empty(), scroll, lines).0 == lines.skip(OP_LOG_EVICT as int),
        push_op_log_all(Seq::empty(), scroll, lines).0.len() <= OP_LOG_CAP,
        push_op_log_all(Seq::empty(), scroll, lines).1 <= push_op_log_all(
            Seq::empty(),
            scroll,
            lines,
        ).0.len(),
        scroll <= push_op_log_all(Seq::empty(), scroll, lines).0.len() ==> push_op_log_all(
            Seq::empty(),
            scroll,
            lines,
        ).1 == scroll,
{
    lemma_push_op_log_all_no_evict(scroll, lines.drop_last());
    assert(lines.drop_last().push(lines.last()) =~~= lines);
}

/// The filtered view of the available column is always well formed: every
/// index points into the list, and the indices are strictly increasing, so
/// matches keep their original order.
pub proof fn lemma_filtered_indices_valid(names: Seq<Seq<char>>, filter: Seq<char>)
    ensures
        forall|k: int|
            0 <= k < filtered_indices_spec(names, filter).len() ==> 0 <= #[trigger] filtered_indices_spec(
                names,
                filter,
            )[k] < names.len(),
        forall|k: int, l: int|
            0 <= k < l < filtered_indices_spec(names, filter).len()
                ==> filtered_indices_spec(names, filter)[k] < filtered_indices_spec(
                names,
                filter,
            )[l],
    decreases names.len(),
{
    if names.len() > 0 {
        lemma_filtered_indices_valid(names.drop_last(), filter);
        let rec = filtered_indices_spec(names.drop_last(), filter);
        let cur = filtered_indices_spec(names, filter);
        if crate::strutil::contains_seq(names.last(), filter) {
            assert(cur == rec.push(names.len() - 1));
            assert forall|k: int| 0 <= k < cur.len() implies 0 <= #[trigger] cur[k] < names.len() by {
                if k < rec.len() {
                    assert(cur[k] == rec[k]);
                    assert(0 <= rec[k] < names.drop_last().len());
                } else {
                    assert(cur[k] == names.len() - 1);
                }
            }
            assert forall|k: int, l: int| 0 <= k < l < cur.len() implies #[trigger] cur[k] < #[trigger] cur[l] by {
                if l < rec.len() {
                    assert(cur[k] == rec[k] && cur[l] == rec[l]);
                } else {
                    assert(cur[l] == names.len() - 1);
                    assert(cur[k] == rec[k]);
                    assert(rec[k] < names.drop_last().len());
                }
            }
        } else {
            assert(cur == rec);
        }
    }
}

/// The rolling log tail never outgrows its capacity: every event preserves
/// the bound, so memory stays bounded however fast the workers post.
pub proof fn lemma_event_step_log_bound(s: AppView, ev: AppEventView)
    requires
        s.logs.len() <= LOG_CAP,
    ensures
        event_step(s, ev).logs.len() <= LOG_CAP,
{
}

/// An operation's own log never outgrows its capacity either: every event
/// preserves the bound.
pub proof fn lemma_event_step_op_log_bound(s: AppView, ev: AppEventView)
    requires
        s.mode matches ModeView::Operation { logs, .. } ==> logs.len() <= OP_LOG_CAP,
    ensures
        event_step(s, ev).mode matches ModeView::Operation { logs, .. } ==> logs.len()
            <= OP_LOG_CAP,
{
}

} // verus!
