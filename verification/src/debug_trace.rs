//! Editor debug event buffer: numbered events, of which the most recent
//! `MAX_EDITOR_DEBUG_EVENTS` are kept.

use vstd::prelude::*;
use crate::text_format::to_owned_string;

verus! {

pub const MAX_EDITOR_DEBUG_EVENTS: usize = 240;

pub struct EditorDebugField {
    pub key: String,
    pub value: String,
}

pub struct EditorDebugTraceEvent {
    pub seq: u64,
    pub node: String,
    pub action: String,
    pub details: Vec<EditorDebugField>,
}

/// The buffer: the number the next event gets and the kept events, oldest
/// first.
pub struct EditorDebugTraceState {
    pub next_seq: u64,
    pub events: Vec<EditorDebugTraceEvent>,
}

impl EditorDebugField {
    pub fn duplicate(&self) -> (f: Self)
        ensures
            f == *self,
    {
        EditorDebugField { key: self.key.clone(), value: self.value.clone() }
    }
}

impl EditorDebugTraceEvent {
    pub fn duplicate(&self) -> (e: Self)
        ensures
            e.seq == self.seq,
            e.node == self.node,
            e.action == self.action,
            e.details@ == self.details@,
    {
        let mut details: Vec<EditorDebugField> = Vec::new();
        let mut i: usize = 0;
        while i < self.details.len()
            invariant
                i <= self.details.len(),
                details@ == self.details@.take(i as int),
            decreases self.details.len() - i,
        {
            details.push(self.details[i].duplicate());
            assert(self.details@.take(i as int).push(self.details@[i as int])
                =~= self.details@.take(i + 1));
            i = i + 1;
        }
        assert(self.details@.take(self.details.len() as int) =~= self.details@);
        assert(details@ =~= self.details@);
        EditorDebugTraceEvent {
            seq: self.seq,
            node: self.node.clone(),
            action: self.action.clone(),
            details,
        }
    }
}

pub fn editor_debug_field(key: &str, value: &str) -> (f: EditorDebugField)
    ensures
        f.key@ == key@,
        f.value@ == value@,
{
    EditorDebugField { key: to_owned_string(key), value: to_owned_string(value) }
}

/// The last `n` elements of `s` (all of `s` when it is shorter).
pub open spec fn keep_last<T>(s: Seq<T>, n: int) -> Seq<T> {
    if s.len() <= n {
        s
    } else {
        s.skip(s.len() - n)
    }
}

/// The kept events are numbered consecutively and the last of them is
/// numbered just below `next_seq`.
pub open spec fn numbered_consecutively(events: Seq<EditorDebugTraceEvent>, next_seq: int) -> bool {
    forall|i: int| 0 <= i < events.len() ==> #[trigger] events[i].seq + (events.len() - i) == next_seq
}

impl EditorDebugTraceState {
    /// At most `MAX_EDITOR_DEBUG_EVENTS` events are kept, and while the
    /// numbers have not run out they are numbered consecutively, the newest
    /// just below `next_seq`.
    pub open spec fn wf(&self) -> bool {
        &&& self.events.len() <= MAX_EDITOR_DEBUG_EVENTS
        &&& self.next_seq < u64::MAX ==> numbered_consecutively(self.events@, self.next_seq as int)
    }

    pub fn new() -> (s: Self)
        ensures
            s.next_seq == 0,
            s.events@.len() == 0,
            s.wf(),
            numbered_consecutively(s.events@, s.next_seq as int),
    {
        EditorDebugTraceState { next_seq: 0, events: Vec::new() }
    }
}

/// Records an event numbered with the next sequence number (which then
/// advances, saturating), keeping only the most recent events.
pub fn record_editor_debug_event(
    trace: &mut EditorDebugTraceState,
    node: &str,
    action: &str,
    details: Vec<EditorDebugField>,
)
    requires
        old(trace).wf(),
    ensures
        final(trace).wf(),
        final(trace).next_seq == if old(trace).next_seq == u64::MAX {
            u64::MAX
        } else {
            (old(trace).next_seq + 1) as u64
        },
        final(trace).events@.len() <= MAX_EDITOR_DEBUG_EVENTS,
        exists|e: EditorDebugTraceEvent|
            {
                &&& e.seq == old(trace).next_seq
                &&& e.node@ == node@
                &&& e.action@ == action@
                &&& e.details == details
                &&& final(trace).events@ == keep_last(
                    old(trace).events@.push(e),
                    MAX_EDITOR_DEBUG_EVENTS as int,
                )
            },
{
    let seq = trace.next_seq;
    trace.next_seq = trace.next_seq.saturating_add(1);
    let event = EditorDebugTraceEvent {
        seq,
        node: to_owned_string(node),
        action: to_owned_string(action),
        details,
    };
    let ghost e = event;
    let ghost pushed = old(trace).events@.push(e);
    trace.events.push(event);
    while trace.events.len() > MAX_EDITOR_DEBUG_EVENTS
        invariant
            trace.next_seq == (if old(trace).next_seq == u64::MAX {
                u64::MAX
            } else {
                (old(trace).next_seq + 1) as u64
            }),
            trace.events@.len() <= pushed.len(),
            trace.events@.len() >= MAX_EDITOR_DEBUG_EVENTS || trace.events@.len() == pushed.len(),
            trace.events@ == pushed.skip(pushed.len() - trace.events@.len()),
        decreases trace.events.len(),
    {
        let ghost before = trace.events@;
        trace.events.remove(0);
        assert(trace.events@ =~= pushed.skip(pushed.len() - trace.events@.len()));
    }
    assert(trace.events@ =~= keep_last(pushed, MAX_EDITOR_DEBUG_EVENTS as int));
    proof {
        if old(trace).next_seq < u64::MAX {
            recording_keeps_consecutive_numbers(old(trace).events@, old(trace).next_seq, e);
        }
    }
    assert({
        &&& e.seq == old(trace).next_seq
        &&& e.node@ == node@
        &&& e.action@ == action@
        &&& e.details == details
        &&& trace.events@ == keep_last(old(trace).events@.push(e), MAX_EDITOR_DEBUG_EVENTS as int)
    });
}

/// A copy of the kept events, oldest first.
pub fn resolve_editor_debug_trace(trace: &EditorDebugTraceState) -> (events: Vec<
    EditorDebugTraceEvent,
>)
    requires
        trace.wf(),
    ensures
        events@.len() == trace.events@.len(),
        events@.len() <= MAX_EDITOR_DEBUG_EVENTS,
        trace.next_seq < u64::MAX ==> forall|i: int|
            0 < i < events@.len() ==> (#[trigger] events@[i]).seq == events@[i - 1].seq + 1,
        trace.next_seq < u64::MAX && events@.len() > 0 ==> events@.last().seq + 1
            == trace.next_seq,
        forall|i: int|
            0 <= i < events@.len() ==> {
                &&& #[trigger] events@[i].seq == trace.events@[i].seq
                &&& events@[i].node == trace.events@[i].node
                &&& events@[i].action == trace.events@[i].action
                &&& events@[i].details@ == trace.events@[i].details@
            },
{
    let mut events: Vec<EditorDebugTraceEvent> = Vec::new();
    let mut i: usize = 0;
    while i < trace.events.len()
        invariant
            i <= trace.events.len(),
            events@.len() == i,
            forall|k: int|
                0 <= k < i ==> {
                    &&& #[trigger] events@[k].seq == trace.events@[k].seq
                    &&& events@[k].node == trace.events@[k].node
                    &&& events@[k].action == trace.events@[k].action
                    &&& events@[k].details@ == trace.events@[k].details@
                },
        decreases trace.events.len() - i,
    {
        events.push(trace.events[i].duplicate());
        i = i + 1;
    }
    events
}

/// Recording keeps the buffer bounded and the newest event last.
pub proof fn recorded_event_is_newest(
    before: Seq<EditorDebugTraceEvent>,
    e: EditorDebugTraceEvent,
)
    requires
        before.len() <= MAX_EDITOR_DEBUG_EVENTS,
    ensures
        keep_last(before.push(e), MAX_EDITOR_DEBUG_EVENTS as int).len() <= MAX_EDITOR_DEBUG_EVENTS,
        keep_last(before.push(e), MAX_EDITOR_DEBUG_EVENTS as int).last() == e,
        before.len() < MAX_EDITOR_DEBUG_EVENTS ==> keep_last(
            before.push(e),
            MAX_EDITOR_DEBUG_EVENTS as int,
        ) == before.push(e),
{
}

/// While the numbers have not run out, recording an event keeps the kept
/// events numbered consecutively: each kept event is numbered one above the
/// one before it, and the newest one just below the next number.
pub proof fn recording_keeps_consecutive_numbers(
    before: Seq<EditorDebugTraceEvent>,
    next_seq: u64,
    e: EditorDebugTraceEvent,
)
    requires
        numbered_consecutively(before, next_seq as int),
        e.seq == next_seq,
        next_seq < u64::MAX,
    ensures
        numbered_consecutively(
            keep_last(before.push(e), MAX_EDITOR_DEBUG_EVENTS as int),
            next_seq + 1,
        ),
        forall|i: int|
            0 < i < keep_last(before.push(e), MAX_EDITOR_DEBUG_EVENTS as int).len() ==> (#[trigger] keep_last(
                before.push(e),
                MAX_EDITOR_DEBUG_EVENTS as int,
            )[i]).seq == keep_last(before.push(e), MAX_EDITOR_DEBUG_EVENTS as int)[i - 1].seq + 1,
{
    let pushed = before.push(e);
    assert(numbered_consecutively(pushed, next_seq + 1)) by {
        assert forall|i: int| 0 <= i < pushed.len() implies #[trigger] pushed[i].seq + (pushed.len()
            - i) == next_seq + 1 by {
            if i < before.len() {
                assert(pushed[i] == before[i]);
            }
        }
    }
    let kept = keep_last(pushed, MAX_EDITOR_DEBUG_EVENTS as int);
    assert forall|i: int| 0 <= i < kept.len() implies #[trigger] kept[i].seq + (kept.len() - i)
        == next_seq + 1 by {
        if pushed.len() > MAX_EDITOR_DEBUG_EVENTS {
            let d = pushed.len() - MAX_EDITOR_DEBUG_EVENTS;
            assert(kept[i] == pushed[i + d]);
        }
    }
    assert forall|i: int| 0 < i < kept.len() implies (#[trigger] kept[i]).seq == kept[i - 1].seq
        + 1 by {
        assert(kept[i].seq + (kept.len() - i) == next_seq + 1);
        assert(kept[i - 1].seq + (kept.len() - (i - 1)) == next_seq + 1);
    }
}

} // verus!
