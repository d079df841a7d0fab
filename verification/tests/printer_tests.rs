use livedoc::document::LiveDocument;
use livedoc::id::{Id, LiveNodePtr};
use livedoc::node::{LiveNode, LiveScopeItem, LiveScopeTarget, LiveValue, TokenId, TokenWithSpan};
use livedoc::printer::IdFmt;
use livedoc::registry::IdMap;
use livedoc::span::Span;
use livedoc::id::LiveFileId;
use livedoc::node::{LiveError, LiveErrorKind};

fn node(id: Id, value: LiveValue) -> LiveNode {
    LiveNode { id, token_id: TokenId { token_id: 0 }, value }
}

fn registry_with(names: &[&str]) -> IdMap {
    let mut registry = IdMap::new();
    for name in names {
        registry.add(name);
    }
    registry
}

#[test]
fn frame_tree_renders_and_resolves_end_to_end() {
    // Frame { walk: 10, button: Button { label: "Go" } }, pushed level by
    // level in source order
    let mut d = LiveDocument::new();
    d.get_level_len(2);
    let frame = Id::from_str("Frame");
    let walk = Id::from_str("walk");
    let button = Id::from_str("button");
    let button_class = Id::from_str("Button");
    let label = Id::from_str("label");
    d.push_node(0, node(frame, LiveValue::Class { class: frame, node_start: 0, node_count: 2 }));
    d.push_node(1, node(walk, LiveValue::Int(10)));
    d.push_node(
        1,
        node(button, LiveValue::Class { class: button_class, node_start: 0, node_count: 1 }),
    );
    d.strings.push('G');
    d.strings.push('o');
    d.push_node(2, node(label, LiveValue::String { string_start: 0, string_count: 2 }));

    // the full path resolves to the String node holding "Go"
    let ptr = d.scan_for_multi(&[frame, button, label]).expect("resolves");
    assert_eq!(ptr, LiveNodePtr { level: 2, index: 0 });
    assert_eq!(
        d.nodes[2][0].value,
        LiveValue::String { string_start: 0, string_count: 2 }
    );

    // the renderer switches to one-child-per-line form at the root, whose
    // button child is composite, and keeps the all-scalar button body on
    // one line
    let registry = registry_with(&["Frame", "walk", "button", "Button", "label"]);
    let text = d.to_text(&registry);
    assert_eq!(
        text,
        "Frame:Frame {\n    walk:10\n    button:Button {label:\"Go\"}\n}"
    );
}

#[test]
fn all_scalar_class_renders_on_one_line() {
    let mut d = LiveDocument::new();
    d.get_level_len(1);
    let a = Id::from_str("a");
    let x = Id::from_str("x");
    let y = Id::from_str("y");
    d.push_node(0, node(a, LiveValue::Class { class: a, node_start: 0, node_count: 2 }));
    d.push_node(1, node(x, LiveValue::Int(1)));
    d.push_node(1, node(y, LiveValue::Bool(true)));
    let registry = registry_with(&["a", "x", "y"]);
    assert_eq!(d.to_text(&registry), "a:a {x:1, y:true}");
}

#[test]
fn scalars_render_literally() {
    let mut d = LiveDocument::new();
    let flag = Id::from_str("flag");
    let count = Id::from_str("count");
    d.push_node(0, node(flag, LiveValue::Bool(false)));
    d.push_node(0, node(count, LiveValue::Int(-42)));
    d.push_node(0, node(Id::empty(), LiveValue::Int(7)));
    let registry = registry_with(&["flag", "count"]);
    assert_eq!(d.to_text(&registry), "flag:false\ncount:-42\n7");
}

#[test]
fn bit_pattern_scalars_render_as_hex() {
    let mut d = LiveDocument::new();
    let w = Id::from_str("w");
    let tint = Id::from_str("tint");
    d.push_node(0, node(w, LiveValue::Float { bits: 0x3ff0000000000000 }));
    d.push_node(0, node(tint, LiveValue::Color { rgba: 0x0000ff80 }));
    d.push_node(
        0,
        node(Id::empty(), LiveValue::Vec2 { x_bits: 0x10, y_bits: 0 }),
    );
    let registry = registry_with(&["w", "tint"]);
    assert_eq!(
        d.to_text(&registry),
        "w:0x3ff0000000000000\ntint:#0000ff80\nvec2(0x10, 0x0)"
    );
}

#[test]
fn arrays_objects_and_calls_render_with_their_brackets() {
    let mut d = LiveDocument::new();
    d.get_level_len(1);
    let items = Id::from_str("items");
    let pairs = Id::from_str("pairs");
    let call = Id::from_str("call");
    let f = Id::from_str("f");
    d.push_node(0, node(items, LiveValue::Array { node_start: 0, node_count: 2 }));
    d.push_node(0, node(pairs, LiveValue::Object { node_start: 2, node_count: 4 }));
    d.push_node(0, node(call, LiveValue::Call { target: f, node_start: 6, node_count: 2 }));
    for v in 1..9i64 {
        d.push_node(1, node(Id::empty(), LiveValue::Int(v)));
    }
    let registry = registry_with(&["items", "pairs", "call", "f"]);
    assert_eq!(
        d.to_text(&registry),
        "items:[1, 2]\npairs:{3:4, 5:6}\ncall:f(7, 8)"
    );
}

#[test]
fn fn_nodes_reemit_their_tokens_and_scopes() {
    let mut d = LiveDocument::new();
    let draw = Id::from_str("draw");
    let dx = Id::from_str("dx");
    for c in "(x)->x".chars() {
        d.strings.push(c);
    }
    d.tokens.push(TokenWithSpan {
        span: Span::new(LiveFileId::index(0), 0, 3),
        text_start: 0,
        text_count: 3,
    });
    d.tokens.push(TokenWithSpan {
        span: Span::new(LiveFileId::index(0), 3, 6),
        text_start: 3,
        text_count: 3,
    });
    d.scopes.push(LiveScopeItem {
        id: dx,
        target: LiveScopeTarget::Local { node_ptr: LiveNodePtr { level: 0, index: 0 } },
    });
    d.push_node(
        0,
        node(
            draw,
            LiveValue::Fn { token_start: 0, token_count: 2, scope_start: 0, scope_count: 1 },
        ),
    );
    let registry = registry_with(&["draw", "dx"]);
    assert_eq!(d.to_text(&registry), "fn draw(x)->x\"dx:[local]\"");
}

#[test]
fn use_nodes_render_their_crate_path() {
    let mut d = LiveDocument::new();
    let widgets = Id::from_str("widgets");
    let button = Id::from_str("button");
    d.push_node(0, node(widgets, LiveValue::Use { crate_module: button }));
    let registry = registry_with(&["widgets", "button"]);
    assert_eq!(d.to_text(&registry), "use widgets::button");
}

#[test]
fn id_values_render_through_the_registry() {
    let mut d = LiveDocument::new();
    let kind = Id::from_str("kind");
    let solid = Id::from_str("solid");
    d.push_node(0, node(kind, LiveValue::Id(solid)));
    d.push_node(0, node(Id::empty(), LiveValue::Id(Id::number(12))));
    let registry = registry_with(&["kind", "solid"]);
    assert_eq!(d.to_text(&registry), "kind:solid\n12");
}

#[test]
fn unregistered_single_ids_render_their_hash() {
    let d = {
        let mut d = LiveDocument::new();
        d.push_node(0, node(Id::from_str("walk"), LiveValue::Bool(true)));
        d
    };
    let registry = IdMap::new();
    assert_eq!(d.to_text(&registry), "IdNotFound 27e2b9c6647fa006:true");
}

#[test]
fn id_fmt_joins_multi_segments() {
    let mut d = LiveDocument::new();
    let a = Id::from_str("a");
    let b = Id::from_str("b");
    let path = d.create_multi_id(&[a, b]);
    let registry = registry_with(&["a", "b"]);
    assert_eq!(IdFmt::dot(&d.multi_ids, path).to_text(&registry), "a.b");
    assert_eq!(IdFmt::col(&d.multi_ids, path).to_text(&registry), "a::b");
    assert_eq!(IdFmt::dot(&d.multi_ids, a).to_text(&registry), "a");
    assert_eq!(
        IdFmt::col(&d.multi_ids, Id::empty()).to_text(&registry),
        "IdEmpty"
    );
}

#[test]
fn node_ptr_ids_render_their_address() {
    let d = LiveDocument::new();
    let registry = IdMap::new();
    let id = Id::node_ptr(LiveFileId::index(2), LiveNodePtr { level: 1, index: 7 });
    assert_eq!(
        IdFmt::col(&d.multi_ids, id).to_text(&registry),
        "NodePtr{file:2, level:1, index:7}"
    );
}

#[test]
fn error_messages_name_the_dotted_path() {
    let mut d = LiveDocument::new();
    let a = Id::from_str("a");
    let b = Id::from_str("b");
    let path = d.create_multi_id(&[a, b]);
    let registry = registry_with(&["a", "b"]);
    let error = LiveError {
        span: Span::new(LiveFileId::index(0), 3, 7),
        kind: LiveErrorKind::PathNotObject,
        path,
    };
    assert_eq!(
        error.message(&d.multi_ids, &registry),
        "Setting property a.b is not an object path"
    );
    let missing = LiveError { kind: LiveErrorKind::PathNotFound, ..error };
    assert_eq!(missing.message(&d.multi_ids, &registry), "Cannot find class a.b");
    assert_eq!(error.span.start(), 3);
    assert_eq!(error.span.end(), 7);
}
