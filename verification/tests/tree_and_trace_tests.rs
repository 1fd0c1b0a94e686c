use std::cell::RefCell;

use pdf_viewer_core::debug_trace::{
    editor_debug_field, record_editor_debug_event, resolve_editor_debug_trace,
    EditorDebugTraceState, MAX_EDITOR_DEBUG_EVENTS,
};
use pdf_viewer_core::lca::{find_lca_in_tree, find_path_to_node, SemanticNode};
use pdf_viewer_core::trace::{
    emit, field, level_enabled, set_max_level, set_subscriber, TraceEvent, TraceLevel,
    TraceRegistry, TraceSpan, TraceSubscriber,
};

fn tree() -> SemanticNode {
    let mut a = SemanticNode::new("a".to_string());
    a.add_child(SemanticNode::new("c".to_string()));
    a.add_child(SemanticNode::new("d".to_string()));
    let mut root = SemanticNode::new("root".to_string());
    root.add_child(a);
    root.add_child(SemanticNode::new("b".to_string()));
    root
}

#[test]
fn lowest_common_ancestor() {
    let root = tree();
    assert_eq!(find_lca_in_tree(&root, "c", "d"), Some("a".to_string()));
    assert_eq!(find_lca_in_tree(&root, "c", "b"), Some("root".to_string()));
    assert_eq!(find_lca_in_tree(&root, "a", "d"), Some("a".to_string()));
    assert_eq!(find_lca_in_tree(&root, "c", "zz"), Some("c".to_string()));
    assert_eq!(find_lca_in_tree(&root, "yy", "zz"), None);
}

#[test]
fn path_to_node() {
    let root = tree();
    let mut path = vec!["prefix".to_string()];
    assert!(find_path_to_node(&root, "d", &mut path));
    assert_eq!(path, vec!["prefix", "root", "a", "d"]);

    let mut missing = vec!["prefix".to_string()];
    assert!(!find_path_to_node(&root, "zz", &mut missing));
    assert_eq!(missing, vec!["prefix"]);
}

struct Recorder {
    events: RefCell<Vec<(String, Vec<(String, String)>)>>,
}

impl TraceSubscriber for Recorder {
    fn on_event(&self, event: &TraceEvent) {
        self.events.borrow_mut().push((
            format!("{}/{}", event.node, event.action),
            event
                .fields
                .iter()
                .map(|f| (f.key.clone(), f.value.clone()))
                .collect(),
        ));
    }
}

#[test]
fn levels_filter_events() {
    assert!(level_enabled(TraceLevel::Debug, TraceLevel::Info));
    assert!(level_enabled(TraceLevel::Debug, TraceLevel::Debug));
    assert!(!level_enabled(TraceLevel::Debug, TraceLevel::Trace));

    let mut registry: TraceRegistry<Recorder> = TraceRegistry::new();
    assert!(!emit(&registry, TraceLevel::Info, "n".to_string(), "a".to_string(), vec![]).0);
    set_subscriber(&mut registry, Some(Recorder { events: RefCell::new(Vec::new()) }));
    set_max_level(&mut registry, TraceLevel::Info);
    assert!(emit(&registry, TraceLevel::Info, "n".to_string(), "a".to_string(), vec![]).0);
    assert!(!emit(&registry, TraceLevel::Debug, "n".to_string(), "b".to_string(), vec![]).0);
    let recorded = registry.subscriber.as_ref().unwrap().events.borrow().clone();
    assert_eq!(recorded.len(), 1);
    assert_eq!(recorded[0].0, "n/a");
}

#[test]
fn span_emits_begin_and_end_with_elapsed_time() {
    let mut registry: TraceRegistry<Recorder> = TraceRegistry::new();
    set_subscriber(&mut registry, Some(Recorder { events: RefCell::new(Vec::new()) }));
    let (span, _) = TraceSpan::begin(
        &registry,
        TraceLevel::Info,
        "editor",
        "commit",
        vec![field("id", "p1")],
        1000,
    );
    assert!(span.finish(&registry, "ok", vec![field("n", "2")], 1250).0);
    let recorded = registry.subscriber.as_ref().unwrap().events.borrow().clone();
    assert_eq!(recorded.len(), 2);
    assert_eq!(recorded[0].0, "editor/commit.begin");
    assert_eq!(recorded[1].0, "editor/commit.end");
    let end_fields: Vec<(&str, &str)> =
        recorded[1].1.iter().map(|(k, v)| (k.as_str(), v.as_str())).collect();
    assert_eq!(
        end_fields,
        vec![("id", "p1"), ("result", "ok"), ("elapsedMs", "250"), ("n", "2")]
    );
}

#[test]
fn aborted_span_ends_once() {
    let mut registry: TraceRegistry<Recorder> = TraceRegistry::new();
    set_subscriber(&mut registry, Some(Recorder { events: RefCell::new(Vec::new()) }));
    let (mut span, _) = TraceSpan::begin(&registry, TraceLevel::Debug, "n", "work", vec![], 50);
    assert!(span.abort(&registry, 20).0);
    assert!(!span.abort(&registry, 30).0);
    let recorded = registry.subscriber.as_ref().unwrap().events.borrow().clone();
    assert_eq!(recorded.len(), 2);
    assert_eq!(recorded[1].1[0], ("result".to_string(), "aborted".to_string()));
    assert_eq!(recorded[1].1[1], ("elapsedMs".to_string(), "0".to_string()));
}

#[test]
fn debug_buffer_keeps_the_most_recent_events() {
    let mut trace = EditorDebugTraceState::new();
    for i in 0..(MAX_EDITOR_DEBUG_EVENTS + 10) {
        record_editor_debug_event(
            &mut trace,
            "node",
            "action",
            vec![editor_debug_field("i", &i.to_string())],
        );
    }
    let events = resolve_editor_debug_trace(&trace);
    assert_eq!(events.len(), MAX_EDITOR_DEBUG_EVENTS);
    assert_eq!(events[0].seq, 10);
    assert_eq!(events.last().unwrap().seq, (MAX_EDITOR_DEBUG_EVENTS + 9) as u64);
    assert_eq!(events.last().unwrap().details[0].value, (MAX_EDITOR_DEBUG_EVENTS + 9).to_string());
    assert_eq!(trace.next_seq, (MAX_EDITOR_DEBUG_EVENTS + 10) as u64);
}

#[test]
fn kept_debug_events_are_numbered_consecutively() {
    let mut trace = EditorDebugTraceState::new();
    for _ in 0..(MAX_EDITOR_DEBUG_EVENTS + 37) {
        record_editor_debug_event(&mut trace, "node", "action", Vec::new());
    }
    let events = resolve_editor_debug_trace(&trace);
    assert_eq!(events.len(), MAX_EDITOR_DEBUG_EVENTS);
    for i in 1..events.len() {
        assert_eq!(events[i].seq, events[i - 1].seq + 1);
    }
    assert_eq!(events.last().unwrap().seq + 1, trace.next_seq);
}

#[test]
fn lca_is_the_deepest_node_holding_both_ids() {
    let mut x = SemanticNode::new("x".to_string());
    x.add_child(SemanticNode::new("p".to_string()));
    x.add_child(SemanticNode::new("q".to_string()));
    let mut mid = SemanticNode::new("mid".to_string());
    mid.add_child(SemanticNode::new("other".to_string()));
    mid.add_child(x);
    let mut root = SemanticNode::new("root".to_string());
    root.add_child(mid);
    root.add_child(SemanticNode::new("tail".to_string()));
    assert_eq!(find_lca_in_tree(&root, "p", "q"), Some("x".to_string()));
    assert_eq!(find_lca_in_tree(&root, "p", "tail"), Some("root".to_string()));
    assert_eq!(find_lca_in_tree(&root, "other", "q"), Some("mid".to_string()));
}
