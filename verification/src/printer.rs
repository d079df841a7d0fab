//! Textual rendering of identifiers and documents back to concrete
//! syntax, for diagnostics. Scalars print literally; composites print as
//! `Name { child, ... }`, switching from one compact line to
//! one-child-per-line indentation whenever any child is itself a
//! composite. Resolution and upsert never consult the renderer.
//!
//! Floating-point, color and vector payloads are stored by this core as
//! raw bit patterns, and render as hexadecimal bit patterns; their
//! decimal float form belongs to the embedding runtime that owns the
//! float types.

use vstd::prelude::*;
use vstd::string::StringExecFns;
use crate::id::{Id, IdType, spec_classify, empty_word};
use crate::registry::IdMap;
use crate::document::{LiveDocument, levels_wf};
use crate::node::{LiveNode, LiveValue, LiveScopeTarget, CrateModule, spec_is_simple, LiveError,
    LiveErrorKind};

verus! {

/// The character of one digit value below sixteen.
pub open spec fn digit_char(d: nat) -> char {
    if d == 0 {
        '0'
    } else if d == 1 {
        '1'
    } else if d == 2 {
        '2'
    } else if d == 3 {
        '3'
    } else if d == 4 {
        '4'
    } else if d == 5 {
        '5'
    } else if d == 6 {
        '6'
    } else if d == 7 {
        '7'
    } else if d == 8 {
        '8'
    } else if d == 9 {
        '9'
    } else if d == 10 {
        'a'
    } else if d == 11 {
        'b'
    } else if d == 12 {
        'c'
    } else if d == 13 {
        'd'
    } else if d == 14 {
        'e'
    } else {
        'f'
    }
}

/// The decimal digits of a number, most significant first.
pub open spec fn dec_seq(v: nat) -> Seq<char>
    decreases v,
{
    if v < 10 {
        seq![digit_char(v)]
    } else {
        dec_seq(v / 10).push(digit_char(v % 10))
    }
}

/// The decimal digits of a signed number, with a leading minus sign when
/// it is negative.
pub open spec fn dec_seq_int(v: int) -> Seq<char> {
    if v < 0 {
        seq!['-'] + dec_seq((-v) as nat)
    } else {
        dec_seq(v as nat)
    }
}

/// The lowercase hexadecimal digits of a number, most significant first.
pub open spec fn hex_seq(v: nat) -> Seq<char>
    decreases v,
{
    if v < 16 {
        seq![digit_char(v)]
    } else {
        hex_seq(v / 16).push(digit_char(v % 16))
    }
}

/// The lowercase hexadecimal digits of a number, zero-padded to a fixed
/// width, most significant first.
pub open spec fn hex_fixed(v: nat, width: nat) -> Seq<char>
    decreases width,
{
    if width == 0 {
        Seq::empty()
    } else {
        hex_fixed(v / 16, (width - 1) as nat).push(digit_char(v % 16))
    }
}

/// Four spaces of indentation per tree depth.
pub open spec fn indent_seq(depth: nat) -> Seq<char>
    decreases depth,
{
    if depth == 0 {
        Seq::empty()
    } else {
        "    "@ + indent_seq((depth - 1) as nat)
    }
}

/// The text of one id on its own: a Single id prints its interned text,
/// or a marker with its hash when the registry does not know it; a
/// Number prints its value, Empty and NodePtr print marker forms, and a
/// Multi prints its pool slice.
pub open spec fn render_id(reg: Map<u64, Seq<char>>, id: Id) -> Seq<char> {
    match spec_classify(id) {
        IdType::Multi { index, count } => "MultiId "@ + dec_seq(index as nat) + " "@ + dec_seq(
            count as nat,
        ),
        IdType::Single(_) => if reg.contains_key(id.0) {
            reg[id.0]
        } else {
            "IdNotFound "@ + hex_seq(id.0 as nat)
        },
        IdType::Number(v) => dec_seq(v as nat),
        IdType::Empty => "IdEmpty"@,
        IdType::NodePtr { file_id, ptr } => "NodePtr{file:"@ + dec_seq(file_id.0 as nat)
            + ", level:"@ + dec_seq(ptr.level as nat) + ", index:"@ + dec_seq(ptr.index as nat)
            + "}"@,
    }
}

/// The first `k` segments of a pool run starting at `index`, each
/// rendered on its own, joined by `sep`.
pub open spec fn seg_join(
    multi_ids: Seq<Id>,
    reg: Map<u64, Seq<char>>,
    index: int,
    k: int,
    sep: Seq<char>,
) -> Seq<char>
    decreases k,
{
    if k <= 0 {
        Seq::empty()
    } else if k == 1 {
        render_id(reg, multi_ids[index])
    } else {
        seg_join(multi_ids, reg, index, k - 1, sep) + sep + render_id(reg, multi_ids[index + k
            - 1])
    }
}

/// The text of an id as a path: a Multi id prints its segments joined by
/// `.` or `::`, any other id prints as itself.
pub open spec fn render_id_fmt(
    multi_ids: Seq<Id>,
    reg: Map<u64, Seq<char>>,
    id: Id,
    is_dot: bool,
) -> Seq<char> {
    match spec_classify(id) {
        IdType::Multi { index, count } => seg_join(
            multi_ids,
            reg,
            index as int,
            count as int,
            if is_dot {
                "."@
            } else {
                "::"@
            },
        ),
        _ => render_id(reg, id),
    }
}

/// A Multi id's pool slice lies within the pool it will be rendered
/// from.
pub open spec fn id_pool_wf(pool_len: int, id: Id) -> bool {
    match spec_classify(id) {
        IdType::Multi { index, count } => index + count <= pool_len,
        _ => true,
    }
}

/// Appends one character. Relies on `String::push`: the string grows by
/// exactly that character.
#[verifier::external_body]
fn push_char(out: &mut String, c: char)
    ensures
        final(out)@ == old(out)@.push(c),
{
    out.push(c);
}

/// The character of one digit value below sixteen.
fn digit(d: u64) -> (r: char)
    requires
        d < 16,
    ensures
        r == digit_char(d as nat),
{
    if d == 0 {
        '0'
    } else if d == 1 {
        '1'
    } else if d == 2 {
        '2'
    } else if d == 3 {
        '3'
    } else if d == 4 {
        '4'
    } else if d == 5 {
        '5'
    } else if d == 6 {
        '6'
    } else if d == 7 {
        '7'
    } else if d == 8 {
        '8'
    } else if d == 9 {
        '9'
    } else if d == 10 {
        'a'
    } else if d == 11 {
        'b'
    } else if d == 12 {
        'c'
    } else if d == 13 {
        'd'
    } else if d == 14 {
        'e'
    } else {
        'f'
    }
}

/// Appends the decimal digits of `v`.
fn push_dec(out: &mut String, v: u64)
    ensures
        final(out)@ == old(out)@ + dec_seq(v as nat),
    decreases v,
{
    if v < 10 {
        push_char(out, digit(v));
        proof {
            assert(old(out)@ + dec_seq(v as nat) =~= old(out)@.push(digit_char(v as nat)));
        }
    } else {
        push_dec(out, v / 10);
        push_char(out, digit(v % 10));
        proof {
            assert(old(out)@ + dec_seq(v as nat) =~= (old(out)@ + dec_seq((v / 10) as nat)).push(
                digit_char((v % 10) as nat),
            ));
        }
    }
}

/// Appends the decimal digits of a signed `v`, minus sign first.
fn push_dec_signed(out: &mut String, v: i64)
    ensures
        final(out)@ == old(out)@ + dec_seq_int(v as int),
{
    if v < 0 {
        out.append("-");
        let m: u64 = (-(v as i128)) as u64;
        push_dec(out, m);
        proof {
            reveal_strlit("-");
            assert(m as int == -(v as int));
            assert(old(out)@ + dec_seq_int(v as int) =~= (old(out)@ + "-"@) + dec_seq(
                m as nat,
            ));
        }
    } else {
        push_dec(out, v as u64);
    }
}

/// Appends the lowercase hexadecimal digits of `v`.
fn push_hex(out: &mut String, v: u64)
    ensures
        final(out)@ == old(out)@ + hex_seq(v as nat),
    decreases v,
{
    if v < 16 {
        push_char(out, digit(v));
        proof {
            assert(old(out)@ + hex_seq(v as nat) =~= old(out)@.push(digit_char(v as nat)));
        }
    } else {
        push_hex(out, v / 16);
        push_char(out, digit(v % 16));
        proof {
            assert(old(out)@ + hex_seq(v as nat) =~= (old(out)@ + hex_seq((v / 16) as nat)).push(
                digit_char((v % 16) as nat),
            ));
        }
    }
}

/// Appends `width` lowercase hexadecimal digits of `v`, zero-padded.
fn push_hex_fixed(out: &mut String, v: u64, width: usize)
    ensures
        final(out)@ == old(out)@ + hex_fixed(v as nat, width as nat),
    decreases width,
{
    if width == 0 {
        proof {
            assert(old(out)@ + hex_fixed(v as nat, 0) =~= old(out)@);
        }
    } else {
        push_hex_fixed(out, v / 16, width - 1);
        push_char(out, digit(v % 16));
        proof {
            assert(old(out)@ + hex_fixed(v as nat, width as nat) =~= (old(out)@ + hex_fixed(
                (v / 16) as nat,
                (width - 1) as nat,
            )).push(digit_char((v % 16) as nat)));
        }
    }
}

/// Appends four spaces per depth step.
fn push_indent(out: &mut String, depth: usize)
    ensures
        final(out)@ == old(out)@ + indent_seq(depth as nat),
    decreases depth,
{
    if depth > 0 {
        out.append("    ");
        push_indent(out, depth - 1);
        proof {
            assert(old(out)@ + indent_seq(depth as nat) =~= (old(out)@ + "    "@) + indent_seq(
                (depth - 1) as nat,
            ));
        }
    } else {
        proof {
            assert(old(out)@ + indent_seq(0) =~= old(out)@);
        }
    }
}

/// Appends the text of one id on its own.
fn push_id_text(out: &mut String, registry: &IdMap, id: Id)
    ensures
        final(out)@ == old(out)@ + render_id(registry@, id),
{
    match id.to_type() {
        IdType::Multi { index, count } => {
            out.append("MultiId ");
            push_dec(out, index as u64);
            out.append(" ");
            push_dec(out, count as u64);
        },
        IdType::Single(_) => {
            match registry.interned_text(id) {
                Option::Some(text) => {
                    let text_copy = text.clone();
                    out.append(text_copy.as_str());
                },
                Option::None => {
                    out.append("IdNotFound ");
                    push_hex(out, id.0);
                },
            }
        },
        IdType::Number(v) => {
            push_dec(out, v);
        },
        IdType::Empty => {
            out.append("IdEmpty");
        },
        IdType::NodePtr { file_id, ptr } => {
            out.append("NodePtr{file:");
            push_dec(out, file_id.0 as u64);
            out.append(", level:");
            push_dec(out, ptr.level as u64);
            out.append(", index:");
            push_dec(out, ptr.index as u64);
            out.append("}");
        },
    }
}

/// Appends the text of an id as a dotted or `::`-separated path.
fn push_id_fmt(out: &mut String, multi_ids: &Vec<Id>, registry: &IdMap, id: Id, is_dot: bool)
    requires
        id_pool_wf(multi_ids@.len() as int, id),
    ensures
        final(out)@ == old(out)@ + render_id_fmt(multi_ids@, registry@, id, is_dot),
{
    match id.to_type() {
        IdType::Multi { index, count } => {
            let ghost sep: Seq<char> = if is_dot {
                "."@
            } else {
                "::"@
            };
            let pool_len = multi_ids.len();
            let mut k: usize = 0;
            while k < count
                invariant
                    pool_len == multi_ids@.len(),
                    index + count <= multi_ids@.len(),
                    k <= count,
                    spec_classify(id) == (IdType::Multi { index, count }),
                    sep == if is_dot {
                        "."@
                    } else {
                        "::"@
                    },
                    out@ == old(out)@ + seg_join(
                        multi_ids@,
                        registry@,
                        index as int,
                        k as int,
                        sep,
                    ),
                decreases count - k,
            {
                if k > 0 {
                    if is_dot {
                        out.append(".");
                    } else {
                        out.append("::");
                    }
                }
                push_id_text(out, registry, multi_ids[index + k]);
                k = k + 1;
                proof {
                    assert(out@ =~= old(out)@ + seg_join(
                        multi_ids@,
                        registry@,
                        index as int,
                        k as int,
                        sep,
                    ));
                }
            }
            proof {
                if count == 0 {
                    assert(out@ =~= old(out)@ + render_id_fmt(multi_ids@, registry@, id, is_dot));
                }
            }
        },
        _ => {
            push_id_text(out, registry, id);
        },
    }
}

/// A path-rendering view of one id over a shared segment pool, joining a
/// Multi id's segments with dots or double colons.
pub struct IdFmt<'a> {
    pub multi_ids: &'a Vec<Id>,
    pub is_dot: bool,
    pub id: Id,
}

impl<'a> IdFmt<'a> {
    /// Renders the id's segments joined by dots.
    pub fn dot(multi_ids: &'a Vec<Id>, id: Id) -> (r: Self)
        ensures
            r.multi_ids == multi_ids,
            r.is_dot == true,
            r.id == id,
    {
        Self { multi_ids, is_dot: true, id }
    }

    /// Renders the id's segments joined by double colons.
    pub fn col(multi_ids: &'a Vec<Id>, id: Id) -> (r: Self)
        ensures
            r.multi_ids == multi_ids,
            r.is_dot == false,
            r.id == id,
    {
        Self { multi_ids, is_dot: false, id }
    }

    /// The rendered text of this id.
    pub fn to_text(&self, registry: &IdMap) -> (r: String)
        requires
            id_pool_wf(self.multi_ids@.len() as int, self.id),
        ensures
            r@ == render_id_fmt(self.multi_ids@, registry@, self.id, self.is_dot),
    {
        let mut out = String::new();
        push_id_fmt(&mut out, self.multi_ids, registry, self.id, self.is_dot);
        proof {
            assert(Seq::<char>::empty() + render_id_fmt(
                self.multi_ids@,
                registry@,
                self.id,
                self.is_dot,
            ) =~= render_id_fmt(self.multi_ids@, registry@, self.id, self.is_dot));
        }
        out
    }
}


/// The id-and-colon prefix of a named node; an Empty key prints no
/// prefix.
pub open spec fn prefix_seq(multi_ids: Seq<Id>, reg: Map<u64, Seq<char>>, id: Id) -> Seq<char> {
    if !empty_word(id.0) {
        render_id_fmt(multi_ids, reg, id, true) + ":"@
    } else {
        Seq::empty()
    }
}

/// Every node of the addressed run carries a scalar payload.
pub open spec fn all_simple(nodes: Seq<LiveNode>, start: int, count: int) -> bool {
    forall|k: int| 0 <= k < count ==> spec_is_simple((#[trigger] nodes[start + k]).value)
}

/// The rendered text of the scope target of one captured scope entry.
pub open spec fn render_scope_target(reg: Map<u64, Seq<char>>, target: LiveScopeTarget) -> Seq<
    char,
> {
    match target {
        LiveScopeTarget::Local { .. } => "[local]"@,
        LiveScopeTarget::Use { crate_module, .. } => match crate_module {
            CrateModule(crate_id, module_id) => render_id(reg, crate_id) + "::"@ + render_id(
                reg,
                module_id,
            ),
        },
    }
}

/// The rendered text of one node of the tree, in the document's concrete
/// syntax.
pub open spec fn render_node(d: LiveDocument, reg: Map<u64, Seq<char>>, level: int, index: int) -> Seq<
    char,
>
    decreases d.levels().len() - level, 0nat,
{
    let node = d.levels()[level][index];
    match node.value {
        LiveValue::String { string_start, string_count } => prefix_seq(d.multi_ids@, reg, node.id)
            + "\""@ + d.strings@.subrange(
            string_start as int,
            string_start + string_count,
        ) + "\""@,
        LiveValue::Bool(val) => prefix_seq(d.multi_ids@, reg, node.id) + if val {
            "true"@
        } else {
            "false"@
        },
        LiveValue::Int(val) => prefix_seq(d.multi_ids@, reg, node.id) + dec_seq_int(val as int),
        LiveValue::Float { bits } => prefix_seq(d.multi_ids@, reg, node.id) + "0x"@ + hex_seq(
            bits as nat,
        ),
        LiveValue::Color { rgba } => prefix_seq(d.multi_ids@, reg, node.id) + "#"@ + hex_fixed(
            rgba as nat,
            8,
        ),
        LiveValue::Vec2 { x_bits, y_bits } => prefix_seq(d.multi_ids@, reg, node.id) + "vec2(0x"@
            + hex_seq(x_bits as nat) + ", 0x"@ + hex_seq(y_bits as nat) + ")"@,
        LiveValue::Vec3 { x_bits, y_bits, z_bits } => prefix_seq(d.multi_ids@, reg, node.id)
            + "vec3(0x"@ + hex_seq(x_bits as nat) + ", 0x"@ + hex_seq(y_bits as nat) + ", 0x"@
            + hex_seq(z_bits as nat) + ")"@,
        LiveValue::Id(val) => prefix_seq(d.multi_ids@, reg, node.id) + render_id_fmt(
            d.multi_ids@,
            reg,
            val,
            false,
        ),
        LiveValue::Call { target, node_start, node_count } => prefix_seq(
            d.multi_ids@,
            reg,
            node.id,
        ) + render_id_fmt(d.multi_ids@, reg, target, true) + "("@ + (if level + 1
            < d.levels().len() {
            render_joined(d, reg, level + 1, node_start as int, node_count as int)
        } else {
            Seq::empty()
        }) + ")"@,
        LiveValue::Array { node_start, node_count } => prefix_seq(d.multi_ids@, reg, node.id)
            + "["@ + (if level + 1 < d.levels().len() {
            render_joined(d, reg, level + 1, node_start as int, node_count as int)
        } else {
            Seq::empty()
        }) + "]"@,
        LiveValue::Object { node_start, node_count } => prefix_seq(d.multi_ids@, reg, node.id)
            + "{"@ + (if level + 1 < d.levels().len() {
            render_pairs(d, reg, level + 1, node_start as int, (node_count as int) / 2)
        } else {
            Seq::empty()
        }) + "}"@,
        LiveValue::Class { class, node_start, node_count } => prefix_seq(
            d.multi_ids@,
            reg,
            node.id,
        ) + render_id_fmt(d.multi_ids@, reg, class, false) + " {"@ + (if level + 1
            < d.levels().len() {
            if all_simple(d.levels()[level + 1], node_start as int, node_count as int) {
                render_joined(d, reg, level + 1, node_start as int, node_count as int)
            } else {
                "\n"@ + render_block(
                    d,
                    reg,
                    level + 1,
                    node_start as int,
                    node_count as int,
                    (level + 1) as nat,
                ) + indent_seq(level as nat)
            }
        } else {
            Seq::empty()
        }) + "}"@,
        LiveValue::Fn { token_start, token_count, scope_start, scope_count } => "fn "@
            + render_id_fmt(d.multi_ids@, reg, node.id, false) + render_token_texts(
            d,
            token_start as int,
            token_count as int,
        ) + "\""@ + render_scope_items(
            d,
            reg,
            scope_start as int,
            scope_count as int,
            scope_count as int,
        ) + "\""@,
        LiveValue::Use { crate_module } => "use "@ + render_id_fmt(
            d.multi_ids@,
            reg,
            node.id,
            false,
        ) + "::"@ + render_id_fmt(d.multi_ids@, reg, crate_module, false),
    }
}

/// The first `k` children of a run, rendered and joined by commas.
pub open spec fn render_joined(
    d: LiveDocument,
    reg: Map<u64, Seq<char>>,
    level: int,
    start: int,
    k: int,
) -> Seq<char>
    decreases d.levels().len() - level, k,
{
    if k <= 0 {
        Seq::empty()
    } else if k == 1 {
        render_node(d, reg, level, start)
    } else {
        render_joined(d, reg, level, start, k - 1) + ", "@ + render_node(d, reg, level, start + k
            - 1)
    }
}

/// The first `k` key/value pairs of a run, each rendered as `key:value`,
/// joined by commas.
pub open spec fn render_pairs(
    d: LiveDocument,
    reg: Map<u64, Seq<char>>,
    level: int,
    start: int,
    k: int,
) -> Seq<char>
    decreases d.levels().len() - level, k,
{
    if k <= 0 {
        Seq::empty()
    } else if k == 1 {
        render_node(d, reg, level, start) + ":"@ + render_node(d, reg, level, start + 1)
    } else {
        render_pairs(d, reg, level, start, k - 1) + ", "@ + render_node(
            d,
            reg,
            level,
            start + 2 * (k - 1),
        ) + ":"@ + render_node(d, reg, level, start + 2 * (k - 1) + 1)
    }
}

/// The first `k` children of a run, each on an indented line of its own.
pub open spec fn render_block(
    d: LiveDocument,
    reg: Map<u64, Seq<char>>,
    level: int,
    start: int,
    k: int,
    depth: nat,
) -> Seq<char>
    decreases d.levels().len() - level, k,
{
    if k <= 0 {
        Seq::empty()
    } else {
        render_block(d, reg, level, start, k - 1, depth) + indent_seq(depth) + render_node(
            d,
            reg,
            level,
            start + k - 1,
        ) + "\n"@
    }
}

/// The verbatim source texts of the first `k` tokens of a captured run.
pub open spec fn render_token_texts(d: LiveDocument, start: int, k: int) -> Seq<char>
    decreases k,
{
    if k <= 0 {
        Seq::empty()
    } else {
        render_token_texts(d, start, k - 1) + d.strings@.subrange(
            d.tokens@[start + k - 1].text_start as int,
            d.tokens@[start + k - 1].text_start + d.tokens@[start + k - 1].text_count,
        )
    }
}

/// The first `k` of `total` captured scope entries, each as `id:target`,
/// with a comma after every entry but the last of the run.
pub open spec fn render_scope_items(
    d: LiveDocument,
    reg: Map<u64, Seq<char>>,
    start: int,
    k: int,
    total: int,
) -> Seq<char>
    decreases k,
{
    if k <= 0 {
        Seq::empty()
    } else {
        render_scope_items(d, reg, start, k - 1, total) + render_id(
            reg,
            d.scopes@[start + k - 1].id,
        ) + ":"@ + render_scope_target(reg, d.scopes@[start + k - 1].target) + (if k - 1 != total
            - 1 {
            ", "@
        } else {
            Seq::empty()
        })
    }
}

/// The first `k` root nodes, one per line.
pub open spec fn render_roots(d: LiveDocument, reg: Map<u64, Seq<char>>, k: int) -> Seq<char>
    decreases k,
{
    if k <= 0 {
        Seq::empty()
    } else if k == 1 {
        render_node(d, reg, 0, 0)
    } else {
        render_roots(d, reg, k - 1) + "\n"@ + render_node(d, reg, 0, k - 1)
    }
}

/// The whole document, rendered root by root.
pub open spec fn render_doc(d: LiveDocument, reg: Map<u64, Seq<char>>) -> Seq<char> {
    render_roots(d, reg, d.levels()[0].len() as int)
}

/// One node's renderable references: any Multi id it shows lies within
/// the segment pool, a String payload lies within the character pool, and
/// an Fn payload lies within the token and scope pools.
pub open spec fn node_render_wf(d: LiveDocument, n: LiveNode) -> bool {
    &&& id_pool_wf(d.multi_ids@.len() as int, n.id)
    &&& match n.value {
        LiveValue::String { string_start, string_count } => string_start + string_count
            <= d.strings@.len(),
        LiveValue::Id(val) => id_pool_wf(d.multi_ids@.len() as int, val),
        LiveValue::Call { target, .. } => id_pool_wf(d.multi_ids@.len() as int, target),
        LiveValue::Class { class, .. } => id_pool_wf(d.multi_ids@.len() as int, class),
        LiveValue::Use { crate_module } => id_pool_wf(d.multi_ids@.len() as int, crate_module),
        LiveValue::Fn { token_start, token_count, scope_start, scope_count } => token_start
            + token_count <= d.tokens@.len() && scope_start + scope_count <= d.scopes@.len(),
        _ => true,
    }
}

/// What rendering demands of a document: the child-slice invariant, and
/// every pool reference a node or token shows lying within its pool.
pub open spec fn render_wf(d: LiveDocument) -> bool {
    &&& levels_wf(d.levels())
    &&& forall|t: int|
        0 <= t < d.tokens@.len() ==> (#[trigger] d.tokens@[t]).text_start + d.tokens@[t].text_count
            <= d.strings@.len()
    &&& forall|l: int, i: int|
        0 <= l < d.levels().len() && 0 <= i < d.levels()[l].len() ==> node_render_wf(
            d,
            #[trigger] d.levels()[l][i],
        )
}

/// Appends a run of pool characters.
fn push_pool_chars(out: &mut String, strings: &Vec<char>, start: usize, count: usize)
    ensures
        start + count <= strings@.len() ==> final(out)@ == old(out)@ + strings@.subrange(
            start as int,
            start + count,
        ),
    decreases count,
{
    let slen = strings.len();
    if count <= slen && start <= slen - count {
        let mut j: usize = 0;
        while j < count
            invariant
                slen == strings@.len(),
                start + count <= strings@.len(),
                j <= count,
                out@ == old(out)@ + strings@.subrange(start as int, start + j),
            decreases count - j,
        {
            push_char(out, strings[start + j]);
            j = j + 1;
            proof {
                assert(out@ =~= old(out)@ + strings@.subrange(start as int, start + j));
            }
        }
    }
}

/// Appends the id-and-colon prefix of a named node.
fn push_prefix(out: &mut String, multi_ids: &Vec<Id>, registry: &IdMap, id: Id)
    requires
        id_pool_wf(multi_ids@.len() as int, id),
    ensures
        final(out)@ == old(out)@ + prefix_seq(multi_ids@, registry@, id),
{
    if !id.is_empty() {
        push_id_fmt(out, multi_ids, registry, id, true);
        out.append(":");
    } else {
        proof {
            assert(old(out)@ + prefix_seq(multi_ids@, registry@, id) =~= old(out)@);
        }
    }
}


impl LiveDocument {
    /// Appends the rendered text of the node at `(level, index)`.
    #[verifier::rlimit(60)]
    fn emit_node(&self, registry: &IdMap, out: &mut String, level: usize, index: usize)
        requires
            render_wf(*self),
            level < self.levels().len(),
            index < self.levels()[level as int].len(),
        ensures
            final(out)@ == old(out)@ + render_node(*self, registry@, level as int, index as int),
        decreases self.levels().len() - level, 0nat,
    {
        let num_levels = self.nodes.len();
        proof {
            assert(self.levels()[level as int] == self.nodes@[level as int]@);
        }
        let node = self.nodes[level][index];
        proof {
            assert(node == self.levels()[level as int][index as int]);
            assert(node_render_wf(*self, node));
            assert(crate::document::node_in_bounds(self.levels(), level as int, node));
        }
        if node.value.is_simple() {
            self.emit_scalar_node(registry, out, level, index);
            return;
        }
        match node.value {
            LiveValue::Call { target, node_start, node_count } => {
                push_prefix(out, &self.multi_ids, registry, node.id);
                push_id_fmt(out, &self.multi_ids, registry, target, true);
                out.append("(");
                self.emit_joined(registry, out, level + 1, node_start as usize, node_count as usize);
                out.append(")");
                proof {
                    assert(out@ =~= old(out)@ + render_node(
                        *self,
                        registry@,
                        level as int,
                        index as int,
                    ));
                }
            },
            LiveValue::Array { node_start, node_count } => {
                push_prefix(out, &self.multi_ids, registry, node.id);
                out.append("[");
                self.emit_joined(registry, out, level + 1, node_start as usize, node_count as usize);
                out.append("]");
                proof {
                    assert(out@ =~= old(out)@ + render_node(
                        *self,
                        registry@,
                        level as int,
                        index as int,
                    ));
                }
            },
            LiveValue::Object { node_start, node_count } => {
                push_prefix(out, &self.multi_ids, registry, node.id);
                out.append("{");
                self.emit_pairs(
                    registry,
                    out,
                    level + 1,
                    node_start as usize,
                    (node_count as usize) / 2,
                );
                out.append("}");
                proof {
                    assert(out@ =~= old(out)@ + render_node(
                        *self,
                        registry@,
                        level as int,
                        index as int,
                    ));
                }
            },
            LiveValue::Class { class, node_start, node_count } => {
                push_prefix(out, &self.multi_ids, registry, node.id);
                push_id_fmt(out, &self.multi_ids, registry, class, false);
                out.append(" {");
                let child_level = level + 1;
                let ns = node_start as usize;
                let nc = node_count as usize;
                proof {
                    assert(self.levels()[child_level as int] == self.nodes@[child_level as int]@);
                }
                let child_len = self.nodes[child_level].len();
                let mut simple = true;
                let mut k: usize = 0;
                while k < nc
                    invariant
                        render_wf(*self),
                        child_level < self.levels().len(),
                        child_len == self.levels()[child_level as int].len(),
                        ns + nc <= self.levels()[child_level as int].len(),
                        k <= nc,
                        simple == all_simple(
                            self.levels()[child_level as int],
                            ns as int,
                            k as int,
                        ),
                    decreases nc - k,
                {
                    proof {
                        assert(self.levels()[child_level as int] == self.nodes@[
                            child_level as int
                        ]@);
                    }
                    let child = self.nodes[child_level][ns + k];
                    let child_simple = child.value.is_simple();
                    proof {
                        assert(all_simple(
                            self.levels()[child_level as int],
                            ns as int,
                            k + 1,
                        ) <==> (all_simple(self.levels()[child_level as int], ns as int, k as int)
                            && spec_is_simple(
                            self.levels()[child_level as int][ns + k].value,
                        )));
                    }
                    if !child_simple {
                        simple = false;
                    }
                    k = k + 1;
                }
                if simple {
                    self.emit_joined(registry, out, child_level, ns, nc);
                } else {
                    out.append("\n");
                    self.emit_block(registry, out, child_level, ns, nc, child_level);
                    push_indent(out, level);
                }
                out.append("}");
                proof {
                    assert(out@ =~= old(out)@ + render_node(
                        *self,
                        registry@,
                        level as int,
                        index as int,
                    ));
                }
            },
            LiveValue::Fn { token_start, token_count, scope_start, scope_count } => {
                out.append("fn ");
                push_id_fmt(out, &self.multi_ids, registry, node.id, false);
                self.emit_tokens(out, token_start as usize, token_count as usize);
                out.append("\"");
                self.emit_scopes(registry, out, scope_start as usize, scope_count as usize);
                out.append("\"");
                proof {
                    assert(out@ =~= old(out)@ + render_node(
                        *self,
                        registry@,
                        level as int,
                        index as int,
                    ));
                }
            },
            LiveValue::Use { crate_module } => {
                out.append("use ");
                push_id_fmt(out, &self.multi_ids, registry, node.id, false);
                out.append("::");
                push_id_fmt(out, &self.multi_ids, registry, crate_module, false);
                proof {
                    assert(out@ =~= old(out)@ + render_node(
                        *self,
                        registry@,
                        level as int,
                        index as int,
                    ));
                }
            },
            _ => {
                proof {
                    assert(false);
                }
            },
        }
    }

    /// Appends the rendered text of a scalar node.
    #[verifier::rlimit(60)]
    fn emit_scalar_node(&self, registry: &IdMap, out: &mut String, level: usize, index: usize)
        requires
            render_wf(*self),
            level < self.levels().len(),
            index < self.levels()[level as int].len(),
            spec_is_simple(self.levels()[level as int][index as int].value),
        ensures
            final(out)@ == old(out)@ + render_node(*self, registry@, level as int, index as int),
    {
        proof {
            assert(self.levels()[level as int] == self.nodes@[level as int]@);
        }
        let node = self.nodes[level][index];
        proof {
            assert(node == self.levels()[level as int][index as int]);
            assert(node_render_wf(*self, node));
        }
        match node.value {
            LiveValue::String { string_start, string_count } => {
                push_prefix(out, &self.multi_ids, registry, node.id);
                out.append("\"");
                push_pool_chars(out, &self.strings, string_start as usize, string_count as usize);
                out.append("\"");
                proof {
                    assert(out@ =~= old(out)@ + render_node(
                        *self,
                        registry@,
                        level as int,
                        index as int,
                    ));
                }
            },
            LiveValue::Bool(val) => {
                push_prefix(out, &self.multi_ids, registry, node.id);
                if val {
                    out.append("true");
                } else {
                    out.append("false");
                }
                proof {
                    assert(out@ =~= old(out)@ + render_node(
                        *self,
                        registry@,
                        level as int,
                        index as int,
                    ));
                }
            },
            LiveValue::Int(val) => {
                push_prefix(out, &self.multi_ids, registry, node.id);
                push_dec_signed(out, val);
                proof {
                    assert(out@ =~= old(out)@ + render_node(
                        *self,
                        registry@,
                        level as int,
                        index as int,
                    ));
                }
            },
            LiveValue::Float { bits } => {
                push_prefix(out, &self.multi_ids, registry, node.id);
                out.append("0x");
                push_hex(out, bits);
                proof {
                    assert(out@ =~= old(out)@ + render_node(
                        *self,
                        registry@,
                        level as int,
                        index as int,
                    ));
                }
            },
            LiveValue::Color { rgba } => {
                push_prefix(out, &self.multi_ids, registry, node.id);
                out.append("#");
                push_hex_fixed(out, rgba as u64, 8);
                proof {
                    assert(out@ =~= old(out)@ + render_node(
                        *self,
                        registry@,
                        level as int,
                        index as int,
                    ));
                }
            },
            LiveValue::Vec2 { x_bits, y_bits } => {
                push_prefix(out, &self.multi_ids, registry, node.id);
                out.append("vec2(0x");
                push_hex(out, x_bits as u64);
                out.append(", 0x");
                push_hex(out, y_bits as u64);
                out.append(")");
                proof {
                    assert(out@ =~= old(out)@ + render_node(
                        *self,
                        registry@,
                        level as int,
                        index as int,
                    ));
                }
            },
            LiveValue::Vec3 { x_bits, y_bits, z_bits } => {
                push_prefix(out, &self.multi_ids, registry, node.id);
                out.append("vec3(0x");
                push_hex(out, x_bits as u64);
                out.append(", 0x");
                push_hex(out, y_bits as u64);
                out.append(", 0x");
                push_hex(out, z_bits as u64);
                out.append(")");
                proof {
                    assert(out@ =~= old(out)@ + render_node(
                        *self,
                        registry@,
                        level as int,
                        index as int,
                    ));
                }
            },
            LiveValue::Id(val) => {
                push_prefix(out, &self.multi_ids, registry, node.id);
                push_id_fmt(out, &self.multi_ids, registry, val, false);
                proof {
                    assert(out@ =~= old(out)@ + render_node(
                        *self,
                        registry@,
                        level as int,
                        index as int,
                    ));
                }
            },
            _ => {
                proof {
                    assert(false);
                }
            },
        }
    }

    /// Appends a run of children joined by commas.
    fn emit_joined(&self, registry: &IdMap, out: &mut String, level: usize, start: usize, count: usize)
        requires
            render_wf(*self),
            level < self.levels().len(),
            start + count <= self.levels()[level as int].len(),
        ensures
            final(out)@ == old(out)@ + render_joined(
                *self,
                registry@,
                level as int,
                start as int,
                count as int,
            ),
        decreases self.levels().len() - level, count,
    {
        proof {
            assert(self.levels()[level as int] == self.nodes@[level as int]@);
        }
        let level_len = self.nodes[level].len();
        let mut k: usize = 0;
        while k < count
            invariant
                render_wf(*self),
                level < self.levels().len(),
                level_len == self.levels()[level as int].len(),
                start + count <= self.levels()[level as int].len(),
                k <= count,
                out@ == old(out)@ + render_joined(
                    *self,
                    registry@,
                    level as int,
                    start as int,
                    k as int,
                ),
            decreases count - k,
        {
            if k > 0 {
                out.append(", ");
            }
            self.emit_node(registry, out, level, start + k);
            k = k + 1;
            proof {
                assert(out@ =~= old(out)@ + render_joined(
                    *self,
                    registry@,
                    level as int,
                    start as int,
                    k as int,
                ));
            }
        }
    }

    /// Appends a run of key/value child pairs joined by commas.
    fn emit_pairs(&self, registry: &IdMap, out: &mut String, level: usize, start: usize, pairs: usize)
        requires
            render_wf(*self),
            level < self.levels().len(),
            start + 2 * pairs <= self.levels()[level as int].len(),
        ensures
            final(out)@ == old(out)@ + render_pairs(
                *self,
                registry@,
                level as int,
                start as int,
                pairs as int,
            ),
        decreases self.levels().len() - level, pairs,
    {
        proof {
            assert(self.levels()[level as int] == self.nodes@[level as int]@);
        }
        let level_len = self.nodes[level].len();
        let mut k: usize = 0;
        while k < pairs
            invariant
                render_wf(*self),
                level < self.levels().len(),
                level_len == self.levels()[level as int].len(),
                start + 2 * pairs <= self.levels()[level as int].len(),
                k <= pairs,
                out@ == old(out)@ + render_pairs(
                    *self,
                    registry@,
                    level as int,
                    start as int,
                    k as int,
                ),
            decreases pairs - k,
        {
            if k > 0 {
                out.append(", ");
            }
            self.emit_node(registry, out, level, start + 2 * k);
            out.append(":");
            self.emit_node(registry, out, level, start + 2 * k + 1);
            k = k + 1;
            proof {
                assert(out@ =~= old(out)@ + render_pairs(
                    *self,
                    registry@,
                    level as int,
                    start as int,
                    k as int,
                ));
            }
        }
    }

    /// Appends a run of children, one per indented line.
    fn emit_block(
        &self,
        registry: &IdMap,
        out: &mut String,
        level: usize,
        start: usize,
        count: usize,
        depth: usize,
    )
        requires
            render_wf(*self),
            level < self.levels().len(),
            start + count <= self.levels()[level as int].len(),
        ensures
            final(out)@ == old(out)@ + render_block(
                *self,
                registry@,
                level as int,
                start as int,
                count as int,
                depth as nat,
            ),
        decreases self.levels().len() - level, count,
    {
        proof {
            assert(self.levels()[level as int] == self.nodes@[level as int]@);
        }
        let level_len = self.nodes[level].len();
        let mut k: usize = 0;
        while k < count
            invariant
                render_wf(*self),
                level < self.levels().len(),
                level_len == self.levels()[level as int].len(),
                start + count <= self.levels()[level as int].len(),
                k <= count,
                out@ == old(out)@ + render_block(
                    *self,
                    registry@,
                    level as int,
                    start as int,
                    k as int,
                    depth as nat,
                ),
            decreases count - k,
        {
            push_indent(out, depth);
            self.emit_node(registry, out, level, start + k);
            out.append("\n");
            k = k + 1;
            proof {
                assert(out@ =~= old(out)@ + render_block(
                    *self,
                    registry@,
                    level as int,
                    start as int,
                    k as int,
                    depth as nat,
                ));
            }
        }
    }

    /// Appends the verbatim source texts of a captured token run.
    fn emit_tokens(&self, out: &mut String, start: usize, count: usize)
        requires
            render_wf(*self),
            start + count <= self.tokens@.len(),
        ensures
            final(out)@ == old(out)@ + render_token_texts(*self, start as int, count as int),
        decreases count,
    {
        let tokens_len = self.tokens.len();
        let mut k: usize = 0;
        while k < count
            invariant
                render_wf(*self),
                tokens_len == self.tokens@.len(),
                start + count <= self.tokens@.len(),
                k <= count,
                out@ == old(out)@ + render_token_texts(*self, start as int, k as int),
            decreases count - k,
        {
            let token = self.tokens[start + k];
            push_pool_chars(out, &self.strings, token.text_start as usize, token.text_count as usize);
            k = k + 1;
            proof {
                assert(out@ =~= old(out)@ + render_token_texts(*self, start as int, k as int));
            }
        }
    }

    /// Appends a captured scope listing, entries joined by commas.
    fn emit_scopes(&self, registry: &IdMap, out: &mut String, start: usize, count: usize)
        requires
            render_wf(*self),
            start + count <= self.scopes@.len(),
        ensures
            final(out)@ == old(out)@ + render_scope_items(
                *self,
                registry@,
                start as int,
                count as int,
                count as int,
            ),
        decreases count,
    {
        let scopes_len = self.scopes.len();
        let mut k: usize = 0;
        while k < count
            invariant
                render_wf(*self),
                scopes_len == self.scopes@.len(),
                start + count <= self.scopes@.len(),
                k <= count,
                out@ == old(out)@ + render_scope_items(
                    *self,
                    registry@,
                    start as int,
                    k as int,
                    count as int,
                ),
            decreases count - k,
        {
            let item = self.scopes[start + k];
            push_id_text(out, registry, item.id);
            out.append(":");
            match item.target {
                LiveScopeTarget::Local { .. } => {
                    out.append("[local]");
                },
                LiveScopeTarget::Use { crate_module: CrateModule(crate_id, module_id), .. } => {
                    push_id_text(out, registry, crate_id);
                    out.append("::");
                    push_id_text(out, registry, module_id);
                },
            }
            if k != count - 1 {
                out.append(", ");
            }
            k = k + 1;
            proof {
                assert(out@ =~= old(out)@ + render_scope_items(
                    *self,
                    registry@,
                    start as int,
                    k as int,
                    count as int,
                ));
            }
        }
    }

    /// Renders the whole document back to concrete syntax, one root per
    /// line, resolving Single ids through the given registry.
    pub fn to_text(&self, registry: &IdMap) -> (r: String)
        requires
            render_wf(*self),
        ensures
            r@ == render_doc(*self, registry@),
    {
        let mut out = String::new();
        proof {
            assert(self.levels()[0] == self.nodes@[0]@);
        }
        let n = self.nodes[0].len();
        let mut i: usize = 0;
        while i < n
            invariant
                render_wf(*self),
                n == self.levels()[0].len(),
                i <= n,
                out@ == render_roots(*self, registry@, i as int),
            decreases n - i,
        {
            if i > 0 {
                out.append("\n");
            }
            self.emit_node(registry, &mut out, 0, i);
            i = i + 1;
            proof {
                assert(out@ =~= render_roots(*self, registry@, i as int));
            }
        }
        out
    }
}


/// The diagnostic text of a document error, naming the full dotted path
/// it concerns.
pub open spec fn message_seq(
    multi_ids: Seq<Id>,
    reg: Map<u64, Seq<char>>,
    error: LiveError,
) -> Seq<char> {
    match error.kind {
        LiveErrorKind::PathNotObject => "Setting property "@ + render_id_fmt(
            multi_ids,
            reg,
            error.path,
            true,
        ) + " is not an object path"@,
        LiveErrorKind::PathNotFound => "Cannot find class "@ + render_id_fmt(
            multi_ids,
            reg,
            error.path,
            true,
        ),
        LiveErrorKind::InvalidIdTag => "Unexpected id type "@ + render_id_fmt(
            multi_ids,
            reg,
            error.path,
            true,
        ),
        LiveErrorKind::InternalInconsistency => "Unexpected inconsistency in patch with "@
            + render_id_fmt(multi_ids, reg, error.path, true),
    }
}

impl LiveError {
    /// The diagnostic text of this error, naming the full dotted path it
    /// concerns; the span stays alongside in the error value itself.
    pub fn message(&self, multi_ids: &Vec<Id>, registry: &IdMap) -> (r: String)
        requires
            id_pool_wf(multi_ids@.len() as int, self.path),
        ensures
            r@ == message_seq(multi_ids@, registry@, *self),
    {
        let mut out = String::new();
        match self.kind {
            LiveErrorKind::PathNotObject => {
                out.append("Setting property ");
                push_id_fmt(&mut out, multi_ids, registry, self.path, true);
                out.append(" is not an object path");
            },
            LiveErrorKind::PathNotFound => {
                out.append("Cannot find class ");
                push_id_fmt(&mut out, multi_ids, registry, self.path, true);
            },
            LiveErrorKind::InvalidIdTag => {
                out.append("Unexpected id type ");
                push_id_fmt(&mut out, multi_ids, registry, self.path, true);
            },
            LiveErrorKind::InternalInconsistency => {
                out.append("Unexpected inconsistency in patch with ");
                push_id_fmt(&mut out, multi_ids, registry, self.path, true);
            },
        }
        proof {
            assert(out@ =~= message_seq(multi_ids@, registry@, *self));
        }
        out
    }
}

} // verus!



