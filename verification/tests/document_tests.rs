use livedoc::document::LiveDocument;
use livedoc::id::{Id, LiveNodePtr};
use livedoc::node::{LiveError, LiveErrorKind, LiveNode, LiveValue, TokenId, TokenWithSpan};
use livedoc::span::Span;
use livedoc::id::LiveFileId;

fn token_doc() -> LiveDocument {
    // a source document carrying one token, so patches have a span to report
    let mut d = LiveDocument::new();
    d.tokens.push(TokenWithSpan {
        span: Span::new(LiveFileId::index(1), 10, 14),
        text_start: 0,
        text_count: 0,
    });
    d
}

fn class_value(class: Id, node_start: u32, node_count: u32) -> LiveValue {
    LiveValue::Class { class, node_start, node_count }
}

fn node(id: Id, value: LiveValue) -> LiveNode {
    LiveNode { id, token_id: TokenId { token_id: 0 }, value }
}

#[test]
fn push_node_and_get_level_len_grow_the_tree() {
    let mut d = LiveDocument::new();
    assert_eq!(d.get_level_len(0), 0);
    assert_eq!(d.get_level_len(2), 0);
    assert_eq!(d.nodes.len(), 3);
    d.push_node(0, node(Id::from_str("a"), LiveValue::Bool(true)));
    assert_eq!(d.get_level_len(0), 1);
    assert_eq!(d.nodes[0][0].value, LiveValue::Bool(true));
}

#[test]
fn create_multi_id_interns_a_segment_run() {
    let mut d = LiveDocument::new();
    let a = Id::from_str("a");
    let b = Id::from_str("b");
    let first = d.create_multi_id(&[a, b]);
    assert_eq!(first, Id::multi(0, 2));
    let second = d.create_multi_id(&[b]);
    assert_eq!(second, Id::multi(2, 1));
    assert_eq!(d.multi_ids, vec![a, b, b]);
}

#[test]
fn token_id_to_span_reads_the_token_pool() {
    let d = token_doc();
    let span = d.token_id_to_span(TokenId { token_id: 0 });
    assert_eq!(span.start(), 10);
    assert_eq!(span.end(), 14);
    assert_eq!(span.live_file_id().to_index(), 1);
}

#[test]
fn fetch_crate_module_substitutes_the_placeholder() {
    let mut d = LiveDocument::new();
    let outer = Id::from_str("my_app");
    let module = Id::from_str("widgets");
    let use_id = d.create_multi_id(&[Id::from_str("crate"), module]);
    let cm = d.fetch_crate_module(use_id, outer);
    assert_eq!(cm.0, outer);
    assert_eq!(cm.1, module);
}

#[test]
fn fetch_crate_module_passes_other_crates_through() {
    let mut d = LiveDocument::new();
    let outer = Id::from_str("my_app");
    let dep = Id::from_str("render");
    let module = Id::from_str("shaders");
    let use_id = d.create_multi_id(&[dep, module]);
    let cm = d.fetch_crate_module(use_id, outer);
    assert_eq!(cm.0, dep);
    assert_eq!(cm.1, module);
}

#[test]
fn restart_from_keeps_pools_and_drops_nodes() {
    let mut source = LiveDocument::new();
    source.multi_ids.push(Id::from_str("a"));
    source.strings.push('G');
    source.tokens.push(TokenWithSpan {
        span: Span::new(LiveFileId::index(0), 0, 1),
        text_start: 0,
        text_count: 1,
    });
    let mut d = LiveDocument::new();
    d.get_level_len(1);
    d.push_node(0, node(Id::from_str("x"), LiveValue::Int(3)));
    d.restart_from(&source);
    assert_eq!(d.nodes.len(), 2);
    assert!(d.nodes[0].is_empty());
    assert!(d.nodes[1].is_empty());
    assert_eq!(d.multi_ids, source.multi_ids);
    assert_eq!(d.strings, source.strings);
    assert_eq!(d.tokens, source.tokens);
    assert!(d.scopes.is_empty());
}

#[test]
fn scan_resolves_a_nested_path() {
    let mut d = LiveDocument::new();
    d.get_level_len(2);
    let frame = Id::from_str("Frame");
    let walk = Id::from_str("walk");
    let button = Id::from_str("button");
    let button_class = Id::from_str("Button");
    let label = Id::from_str("label");
    d.push_node(0, node(frame, class_value(frame, 0, 2)));
    d.push_node(1, node(walk, LiveValue::Int(10)));
    d.push_node(1, node(button, class_value(button_class, 0, 1)));
    d.strings.push('G');
    d.strings.push('o');
    d.push_node(2, node(label, LiveValue::String { string_start: 0, string_count: 2 }));
    assert_eq!(
        d.scan_for_multi(&[frame, button, label]),
        Some(LiveNodePtr { level: 2, index: 0 })
    );
    assert_eq!(
        d.scan_for_multi(&[frame, walk]),
        Some(LiveNodePtr { level: 1, index: 0 })
    );
    assert_eq!(d.scan_for_multi(&[frame]), Some(LiveNodePtr { level: 0, index: 0 }));
    assert_eq!(d.scan_for_multi(&[button]), None);
    assert_eq!(d.scan_for_multi(&[frame, label]), None);
    assert_eq!(d.scan_for_multi(&[]), None);
}

#[test]
fn scan_fails_when_an_intermediate_is_a_scalar() {
    let mut d = LiveDocument::new();
    let a = Id::from_str("a");
    let b = Id::from_str("b");
    d.push_node(0, node(a, LiveValue::Int(1)));
    assert_eq!(d.scan_for_multi(&[a, b]), None);
}

#[test]
fn scan_for_expand_reports_how_resolution_failed() {
    let mut d = LiveDocument::new();
    d.get_level_len(1);
    let a = Id::from_str("a");
    let b = Id::from_str("b");
    let c = Id::from_str("c");
    d.push_node(0, node(a, class_value(a, 0, 1)));
    d.push_node(1, node(b, LiveValue::Int(1)));
    // the first segment is already resolved: the walk starts in `a`'s
    // child slice and scans the trailing segments
    let path = vec![a, b];
    let found = d.scan_for_multi_for_expand(1, 0, 1, 0, 2, &path);
    assert_eq!(found, Ok(LiveNodePtr { level: 1, index: 0 }));
    let missing = d.scan_for_multi_for_expand(1, 0, 1, 0, 2, &vec![a, c]);
    assert_eq!(missing, Err(LiveErrorKind::PathNotFound));
    let through_scalar = d.scan_for_multi_for_expand(1, 0, 1, 0, 3, &vec![a, b, c]);
    assert_eq!(through_scalar, Err(LiveErrorKind::PathNotObject));
}

#[test]
fn single_write_appends_then_overwrites_in_place() {
    let source = token_doc();
    let mut d = LiveDocument::new();
    let x = Id::from_str("x");
    let first = d.write_or_add_node(0, 0, 0, &source, &node(x, LiveValue::Int(1)));
    assert_eq!(first, Ok(Some(0)));
    assert_eq!(d.nodes[0].len(), 1);
    // overwrite keeps the position and replaces the payload
    let second = d.write_or_add_node(0, 0, 1, &source, &node(x, LiveValue::Int(2)));
    assert_eq!(second, Ok(None));
    assert_eq!(d.nodes[0].len(), 1);
    assert_eq!(d.nodes[0][0].value, LiveValue::Int(2));
    assert_eq!(d.scan_for_multi(&[x]), Some(LiveNodePtr { level: 0, index: 0 }));
}

#[test]
fn writing_an_identical_node_twice_changes_nothing() {
    let source = token_doc();
    let mut d = LiveDocument::new();
    let x = Id::from_str("x");
    let n = node(x, LiveValue::Int(7));
    assert_eq!(d.write_or_add_node(0, 0, 0, &source, &n), Ok(Some(0)));
    let before = d.nodes.clone();
    let pointer_before = d.scan_for_multi(&[x]);
    assert_eq!(d.write_or_add_node(0, 0, 1, &source, &n), Ok(None));
    assert_eq!(d.nodes, before);
    assert_eq!(d.scan_for_multi(&[x]), pointer_before);
    assert_eq!(d.nodes[0][0].value, LiveValue::Int(7));
}

#[test]
fn empty_key_always_appends() {
    let source = token_doc();
    let mut d = LiveDocument::new();
    let n = node(Id::empty(), LiveValue::Int(1));
    assert_eq!(d.write_or_add_node(0, 0, 0, &source, &n), Ok(Some(0)));
    assert_eq!(d.write_or_add_node(0, 0, 1, &source, &n), Ok(Some(1)));
    assert_eq!(d.nodes[0].len(), 2);
}

#[test]
fn structural_append_creates_one_child_under_an_empty_class() {
    let mut source = token_doc();
    let a = Id::from_str("a");
    let b = Id::from_str("b");
    let path = source.create_multi_id(&[a, b]);
    let mut d = LiveDocument::new();
    d.get_level_len(1);
    d.push_node(0, node(a, class_value(a, 0, 0)));
    let r = d.write_or_add_node(0, 0, 1, &source, &node(path, LiveValue::Int(5)));
    assert_eq!(r, Ok(None));
    // exactly one child was created and the parent's count went up by one
    assert_eq!(d.nodes[1].len(), 1);
    assert_eq!(d.nodes[0][0].value, class_value(a, 0, 1));
    // the new path resolves to it, under the final segment's id
    assert_eq!(d.scan_for_multi(&[a, b]), Some(LiveNodePtr { level: 1, index: 0 }));
    assert_eq!(d.nodes[1][0].id, b);
    assert_eq!(d.nodes[1][0].value, LiveValue::Int(5));
    // the previously resolvable path still resolves unchanged
    assert_eq!(d.scan_for_multi(&[a]), Some(LiveNodePtr { level: 0, index: 0 }));
}

#[test]
fn structural_append_relocates_a_run_with_later_siblings() {
    let mut source = token_doc();
    let a = Id::from_str("a");
    let c = Id::from_str("c");
    let x = Id::from_str("x");
    let y = Id::from_str("y");
    let z = Id::from_str("z");
    let path = source.create_multi_id(&[a, z]);
    let mut d = LiveDocument::new();
    d.get_level_len(1);
    d.push_node(0, node(a, class_value(a, 0, 1)));
    d.push_node(0, node(c, class_value(c, 1, 1)));
    d.push_node(1, node(x, LiveValue::Int(1)));
    d.push_node(1, node(y, LiveValue::Int(2)));
    // a's child run does not end the level, so it moves to the end
    let r = d.write_or_add_node(0, 0, 2, &source, &node(path, LiveValue::Int(3)));
    assert_eq!(r, Ok(None));
    assert_eq!(d.nodes[0][0].value, class_value(a, 2, 2));
    assert_eq!(d.nodes[1].len(), 4);
    assert_eq!(d.scan_for_multi(&[a, x]), Some(LiveNodePtr { level: 1, index: 2 }));
    assert_eq!(d.scan_for_multi(&[a, z]), Some(LiveNodePtr { level: 1, index: 3 }));
    // paths through the untouched sibling keep their pointers
    assert_eq!(d.scan_for_multi(&[c, y]), Some(LiveNodePtr { level: 1, index: 1 }));
}

#[test]
fn path_overwrite_patches_the_final_segment_in_place() {
    let mut source = token_doc();
    let a = Id::from_str("a");
    let b = Id::from_str("b");
    let path = source.create_multi_id(&[a, b]);
    let mut d = LiveDocument::new();
    d.get_level_len(1);
    d.push_node(0, node(a, class_value(a, 0, 1)));
    d.push_node(1, node(b, LiveValue::Int(1)));
    let r = d.write_or_add_node(0, 0, 1, &source, &node(path, LiveValue::Int(9)));
    assert_eq!(r, Ok(None));
    assert_eq!(d.nodes[1].len(), 1);
    assert_eq!(d.nodes[1][0].id, b);
    assert_eq!(d.nodes[1][0].value, LiveValue::Int(9));
}

#[test]
fn path_through_a_scalar_reports_path_not_object() {
    let mut source = token_doc();
    let a = Id::from_str("a");
    let b = Id::from_str("b");
    let path = source.create_multi_id(&[a, b]);
    let mut d = LiveDocument::new();
    d.push_node(0, node(a, LiveValue::Int(1)));
    let r = d.write_or_add_node(0, 0, 1, &source, &node(path, LiveValue::Int(2)));
    let expected = LiveError {
        span: source.token_id_to_span(TokenId { token_id: 0 }),
        kind: LiveErrorKind::PathNotObject,
        path,
    };
    assert_eq!(r, Err(expected));
}

#[test]
fn missing_first_segment_reports_path_not_found() {
    let mut source = token_doc();
    let a = Id::from_str("a");
    let b = Id::from_str("b");
    let path = source.create_multi_id(&[a, b]);
    let mut d = LiveDocument::new();
    let r = d.write_or_add_node(0, 0, 0, &source, &node(path, LiveValue::Int(2)));
    assert_eq!(
        r.unwrap_err().kind,
        LiveErrorKind::PathNotFound
    );
}

#[test]
fn number_and_node_ptr_keys_are_invalid() {
    let source = token_doc();
    let mut d = LiveDocument::new();
    let r = d.write_or_add_node(0, 0, 0, &source, &node(Id::number(5), LiveValue::Int(1)));
    assert_eq!(r.unwrap_err().kind, LiveErrorKind::InvalidIdTag);
    let ptr_id = Id::node_ptr(LiveFileId::index(0), LiveNodePtr { level: 0, index: 0 });
    let r2 = d.write_or_add_node(0, 0, 0, &source, &node(ptr_id, LiveValue::Int(1)));
    assert_eq!(r2.unwrap_err().kind, LiveErrorKind::InvalidIdTag);
}

#[test]
fn an_empty_path_is_an_internal_inconsistency() {
    let source = token_doc();
    let mut d = LiveDocument::new();
    let r = d.write_or_add_node(0, 0, 0, &source, &node(Id::multi(0, 0), LiveValue::Int(1)));
    assert_eq!(r.unwrap_err().kind, LiveErrorKind::InternalInconsistency);
}
