//! Structured tracing: levels, fields and events, a dispatch point that
//! filters events by level before handing them to a pluggable subscriber, and
//! spans that emit a `.begin` event when opened and an `.end` event (with the
//! result and the elapsed milliseconds) when finished or aborted.
//!
//! The registry is an explicit value here; the process-wide registry that the
//! application keeps is one such value.

use vstd::prelude::*;
use crate::text_format::{concat_str, decimal, decimal_string, to_owned_string};

verus! {

/// Severity levels, ordered from most to least verbose.
#[derive(Clone, Copy, PartialEq, Eq, Structural, Debug)]
pub enum TraceLevel {
    Info,
    Debug,
    Trace,
}

impl TraceLevel {
    pub open spec fn rank(self) -> int {
        match self {
            TraceLevel::Info => 1,
            TraceLevel::Debug => 2,
            TraceLevel::Trace => 3,
        }
    }

    /// The numeric rank of the level (1 for `Info` up to 3 for `Trace`).
    pub fn rank_value(&self) -> (r: u8)
        ensures
            r == self.rank(),
    {
        match self {
            TraceLevel::Info => 1,
            TraceLevel::Debug => 2,
            TraceLevel::Trace => 3,
        }
    }
}

/// An event at `level` passes a registry whose maximum level is `max_level`.
pub open spec fn spec_level_enabled(max_level: TraceLevel, level: TraceLevel) -> bool {
    level.rank() <= max_level.rank()
}

pub fn level_enabled(max_level: TraceLevel, level: TraceLevel) -> (b: bool)
    ensures
        b == spec_level_enabled(max_level, level),
{
    level.rank_value() <= max_level.rank_value()
}

/// A structured trace field value.
pub struct TraceField {
    pub key: String,
    pub value: String,
}

impl TraceField {
    pub fn new(key: &str, value: &str) -> (f: Self)
        ensures
            f.key@ == key@,
            f.value@ == value@,
    {
        TraceField { key: to_owned_string(key), value: to_owned_string(value) }
    }

    pub fn duplicate(&self) -> (f: Self)
        ensures
            f == *self,
    {
        TraceField { key: self.key.clone(), value: self.value.clone() }
    }
}

/// Convenience builder for a field.
pub fn field(key: &str, value: &str) -> (f: TraceField)
    ensures
        f.key@ == key@,
        f.value@ == value@,
{
    TraceField::new(key, value)
}

/// Copies a list of fields.
pub fn clone_fields(fields: &Vec<TraceField>) -> (out: Vec<TraceField>)
    ensures
        out@ == fields@,
{
    let mut out: Vec<TraceField> = Vec::new();
    let mut i: usize = 0;
    while i < fields.len()
        invariant
            i <= fields.len(),
            out@ == fields@.take(i as int),
        decreases fields.len() - i,
    {
        out.push(fields[i].duplicate());
        assert(fields@.take(i as int).push(fields@[i as int]) =~= fields@.take(i + 1));
        i = i + 1;
    }
    assert(fields@.take(fields.len() as int) =~= fields@);
    out
}

/// A structured trace event.
pub struct TraceEvent {
    pub level: TraceLevel,
    pub node: String,
    pub action: String,
    pub fields: Vec<TraceField>,
}

/// Pluggable backend for trace events.
pub trait TraceSubscriber {
    /// What this subscriber's `on_event` guarantees of an event it was
    /// handed: each implementation may say what taking an event in means for
    /// it; by default it promises nothing more than having been called.
    open spec fn received(&self, event: TraceEventView) -> bool {
        true
    }

    fn on_event(&self, event: &TraceEvent)
        ensures
            self.received(event_view(*event)),
    ;
}

/// Subscriber that drops every event.
pub struct NoOpSubscriber;

impl TraceSubscriber for NoOpSubscriber {
    fn on_event(&self, _event: &TraceEvent) {
    }
}

/// The registry: the maximum level that is emitted and the installed
/// subscriber, if any.
pub struct TraceRegistry<S> {
    pub max_level: TraceLevel,
    pub subscriber: Option<S>,
}

impl<S> TraceRegistry<S> {
    /// A registry that emits every level and has no subscriber.
    pub fn new() -> (r: Self)
        ensures
            r.max_level == TraceLevel::Trace,
            r.subscriber is None,
    {
        TraceRegistry { max_level: TraceLevel::Trace, subscriber: None }
    }
}

/// Installs a subscriber (replacing any previous one); `None` reverts to
/// dropping all events.
pub fn set_subscriber<S>(registry: &mut TraceRegistry<S>, subscriber: Option<S>)
    ensures
        final(registry).subscriber == subscriber,
        final(registry).max_level == old(registry).max_level,
{
    registry.subscriber = subscriber;
}

/// Sets the maximum level to emit; events above it are dropped.
pub fn set_max_level<S>(registry: &mut TraceRegistry<S>, level: TraceLevel)
    ensures
        final(registry).max_level == level,
        final(registry).subscriber == old(registry).subscriber,
{
    registry.max_level = level;
}

/// An event as plain values: level, node, action and the (key, value) pairs
/// of its fields.
pub type TraceEventView = (TraceLevel, Seq<char>, Seq<char>, Seq<(Seq<char>, Seq<char>)>);

pub open spec fn event_view(e: TraceEvent) -> TraceEventView {
    (e.level, e.node@, e.action@, field_views(e.fields@))
}

/// Hands the event made of `level`, `node`, `action` and `fields` to the
/// subscriber when its level passes. Returns whether it was handed over and,
/// as a ghost value, the event the subscriber received (`None` when it
/// received none).
pub fn emit<S: TraceSubscriber>(
    registry: &TraceRegistry<S>,
    level: TraceLevel,
    node: String,
    action: String,
    fields: Vec<TraceField>,
) -> (out: (bool, Ghost<Option<TraceEventView>>))
    ensures
        out.0 == (spec_level_enabled(registry.max_level, level) && registry.subscriber is Some),
        out.0 ==> out.1@ == Some((level, node@, action@, field_views(fields@))),
        out.0 ==> registry.subscriber.unwrap().received((level, node@, action@, field_views(fields@))),
        !out.0 ==> out.1@ is None,
{
    if !level_enabled(registry.max_level, level) {
        return (false, Ghost(None));
    }
    let event = TraceEvent { level, node, action, fields };
    match &registry.subscriber {
        Some(sub) => {
            let ghost handed = event_view(event);
            sub.on_event(&event);
            (true, Ghost(Some(handed)))
        },
        None => (false, Ghost(None)),
    }
}

/// A span: emits `<action>.begin` when opened and `<action>.end` when
/// finished or aborted. Times are milliseconds on a clock of the caller.
pub struct TraceSpan {
    pub level: TraceLevel,
    pub node: String,
    pub action: String,
    pub fields: Vec<TraceField>,
    pub start_ms: u64,
    pub finished: bool,
}

/// The fields of an `.end` event: the span's fields, then `result`, then
/// `elapsedMs`, then the extra fields.
pub open spec fn end_fields(
    fields: Seq<TraceField>,
    result: Seq<char>,
    elapsed: nat,
    extra: Seq<TraceField>,
) -> Seq<(Seq<char>, Seq<char>)> {
    field_views(fields).push((seq!['r', 'e', 's', 'u', 'l', 't'], result)).push(
        (seq!['e', 'l', 'a', 'p', 's', 'e', 'd', 'M', 's'], decimal(elapsed)),
    ) + field_views(extra)
}

pub open spec fn field_views(fields: Seq<TraceField>) -> Seq<(Seq<char>, Seq<char>)> {
    fields.map_values(|f: TraceField| (f.key@, f.value@))
}

pub open spec fn elapsed_ms(start_ms: u64, now_ms: u64) -> nat {
    if now_ms >= start_ms {
        (now_ms - start_ms) as nat
    } else {
        0
    }
}

impl TraceSpan {
    /// Opens a span and emits its `.begin` event.
    pub fn begin<S: TraceSubscriber>(
        registry: &TraceRegistry<S>,
        level: TraceLevel,
        node: &str,
        action: &str,
        fields: Vec<TraceField>,
        start_ms: u64,
    ) -> (out: (Self, Ghost<Option<TraceEventView>>))
        ensures
            out.0.level == level,
            out.0.node@ == node@,
            out.0.action@ == action@,
            out.0.fields@ == fields@,
            out.0.start_ms == start_ms,
            !out.0.finished,
            out.1@ == if spec_level_enabled(registry.max_level, level)
                && registry.subscriber is Some {
                Some(
                    (
                        level,
                        node@,
                        action@ + seq!['.', 'b', 'e', 'g', 'i', 'n'],
                        field_views(fields@),
                    ),
                )
            } else {
                None
            },
            out.1@ is Some ==> registry.subscriber.unwrap().received(out.1@.unwrap()),
    {
        let event = Self::begin_event(level, node, action, &fields);
        let (_, handed) = emit(registry, event.level, event.node, event.action, event.fields);
        let span = TraceSpan {
            level,
            node: to_owned_string(node),
            action: to_owned_string(action),
            fields,
            start_ms,
            finished: false,
        };
        (span, handed)
    }

    /// The `.begin` event of a span.
    pub fn begin_event(level: TraceLevel, node: &str, action: &str, fields: &Vec<TraceField>) -> (e:
        TraceEvent)
        ensures
            e.level == level,
            e.node@ == node@,
            e.action@ == action@ + seq!['.', 'b', 'e', 'g', 'i', 'n'],
            e.fields@ == fields@,
    {
        proof {
            reveal_strlit(".begin");
        }
        TraceEvent {
            level,
            node: to_owned_string(node),
            action: concat_str(action, ".begin"),
            fields: clone_fields(fields),
        }
    }

    /// The `.end` event of this span at time `now_ms`.
    pub fn end_event(&self, result: &str, extra: &Vec<TraceField>, now_ms: u64) -> (e: TraceEvent)
        ensures
            e.level == self.level,
            e.node@ == self.node@,
            e.action@ == self.action@ + seq!['.', 'e', 'n', 'd'],
            field_views(e.fields@) == end_fields(
                self.fields@,
                result@,
                elapsed_ms(self.start_ms, now_ms),
                extra@,
            ),
    {
        proof {
            reveal_strlit(".end");
            reveal_strlit("result");
            reveal_strlit("elapsedMs");
        }
        let mut fields = clone_fields(&self.fields);
        let ghost base = fields@;
        let elapsed = now_ms.saturating_sub(self.start_ms);
        let elapsed_text = decimal_string(elapsed);
        fields.push(field("result", result));
        fields.push(field("elapsedMs", elapsed_text.as_str()));
        let ghost mid = fields@;
        let mut i: usize = 0;
        while i < extra.len()
            invariant
                i <= extra.len(),
                fields@ == mid + extra@.take(i as int),
            decreases extra.len() - i,
        {
            fields.push(extra[i].duplicate());
            assert(extra@.take(i as int).push(extra@[i as int]) =~= extra@.take(i + 1));
            i = i + 1;
        }
        assert(extra@.take(extra.len() as int) =~= extra@);
        let ghost ef = end_fields(
            self.fields@,
            result@,
            elapsed_ms(self.start_ms, now_ms),
            extra@,
        );
        assert(elapsed_text@ == decimal(elapsed_ms(self.start_ms, now_ms)));
        assert(field_views(fields@).len() == ef.len());
        assert forall|k: int| 0 <= k < ef.len() implies #[trigger] field_views(fields@)[k] == ef[k] by {
            let n = base.len() as int;
            if k < n {
                assert(fields@[k] == self.fields@[k]);
            } else if k == n {
            } else if k == n + 1 {
            } else {
                assert(fields@[k] == extra@[k - n - 2]);
            }
        }
        assert(field_views(fields@) =~= end_fields(
            self.fields@,
            result@,
            elapsed_ms(self.start_ms, now_ms),
            extra@,
        ));
        TraceEvent {
            level: self.level,
            node: self.node.clone(),
            action: concat_str(self.action.as_str(), ".end"),
            fields,
        }
    }

    /// Closes the span with `result` and emits its `.end` event.
    pub fn finish<S: TraceSubscriber>(
        self,
        registry: &TraceRegistry<S>,
        result: &str,
        extra: Vec<TraceField>,
        now_ms: u64,
    ) -> (out: (bool, Ghost<Option<TraceEventView>>))
        ensures
            out.0 == (spec_level_enabled(registry.max_level, self.level)
                && registry.subscriber is Some),
            out.1@ == if out.0 {
                Some(
                    (
                        self.level,
                        self.node@,
                        self.action@ + seq!['.', 'e', 'n', 'd'],
                        end_fields(
                            self.fields@,
                            result@,
                            elapsed_ms(self.start_ms, now_ms),
                            extra@,
                        ),
                    ),
                )
            } else {
                None
            },
            out.0 ==> registry.subscriber.unwrap().received(out.1@.unwrap()),
    {
        let event = self.end_event(result, &extra, now_ms);
        emit(registry, event.level, event.node, event.action, event.fields)
    }

    /// Closes a span that was not finished: emits its `.end` event with the
    /// result `aborted`. A finished span emits nothing.
    pub fn abort<S: TraceSubscriber>(&mut self, registry: &TraceRegistry<S>, now_ms: u64) -> (out: (
        bool,
        Ghost<Option<TraceEventView>>,
    ))
        ensures
            final(self).finished,
            final(self).level == old(self).level,
            final(self).node == old(self).node,
            final(self).action == old(self).action,
            final(self).fields == old(self).fields,
            final(self).start_ms == old(self).start_ms,
            out.0 == (!old(self).finished && spec_level_enabled(
                registry.max_level,
                old(self).level,
            ) && registry.subscriber is Some),
            out.1@ == if out.0 {
                Some(
                    (
                        old(self).level,
                        old(self).node@,
                        old(self).action@ + seq!['.', 'e', 'n', 'd'],
                        end_fields(
                            old(self).fields@,
                            seq!['a', 'b', 'o', 'r', 't', 'e', 'd'],
                            elapsed_ms(old(self).start_ms, now_ms),
                            Seq::empty(),
                        ),
                    ),
                )
            } else {
                None
            },
            out.0 ==> registry.subscriber.unwrap().received(out.1@.unwrap()),
    {
        if self.finished {
            return (false, Ghost(None));
        }
        self.finished = true;
        proof {
            reveal_strlit("aborted");
            assert("aborted"@ =~= seq!['a', 'b', 'o', 'r', 't', 'e', 'd']);
        }
        let no_extra: Vec<TraceField> = Vec::new();
        assert(no_extra@ =~= Seq::<TraceField>::empty());
        let event = self.end_event("aborted", &no_extra, now_ms);
        emit(registry, event.level, event.node, event.action, event.fields)
    }
}

} // verus!
