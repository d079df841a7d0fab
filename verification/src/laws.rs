//! Laws of the upsert and path-resolution algorithms, stated and proved
//! over the tree model that the document's contracts use.

use vstd::prelude::*;
use crate::id::{Id, single_word, LiveNodePtr};
use crate::node::{LiveNode, LiveValue};
use crate::document::{
    find_in_slice, resolve_path, ResolveOutcome, apply_single_write, single_write_index,
    multi_plan, apply_plan, plan_result, UpsertPlan, path_child_node, levels_wf,
};
use crate::node::LiveErrorKind;

verus! {

/// Linear search sees only ids: two trees whose addressed slices agree on
/// every node's id are searched alike.
proof fn lemma_find_congruent(
    nodes1: Seq<LiveNode>,
    nodes2: Seq<LiveNode>,
    start: int,
    count: int,
    id: Id,
)
    requires
        0 <= start,
        start + count <= nodes1.len(),
        start + count <= nodes2.len(),
        forall|k: int| start <= k < start + count ==> (#[trigger] nodes2[k]).id == nodes1[k].id,
    ensures
        find_in_slice(nodes2, start, count, id) == find_in_slice(nodes1, start, count, id),
    decreases count,
{
    if count <= 0 {
    } else {
        assert(nodes2[start].id == nodes1[start].id);
        if nodes1[start].id == id {
        } else {
            lemma_find_congruent(nodes1, nodes2, start + 1, count - 1, id);
        }
    }
}

/// Overwriting the slot that a search found, with a node carrying the
/// same id, leaves the search finding the same slot.
proof fn lemma_find_after_update(
    nodes: Seq<LiveNode>,
    start: int,
    count: int,
    id: Id,
    j: int,
    node: LiveNode,
)
    requires
        0 <= start,
        start + count <= nodes.len(),
        find_in_slice(nodes, start, count, id) == Option::Some(j),
        node.id == id,
    ensures
        find_in_slice(nodes.update(j, node), start, count, id) == Option::Some(j),
    decreases count,
{
    crate::document::lemma_find_in_slice_props(nodes, start, count, id);
    if nodes[start].id == id {
    } else {
        lemma_find_after_update(nodes, start + 1, count - 1, id, j, node);
        assert(nodes.update(j, node)[start] == nodes[start]);
        assert(find_in_slice(nodes.update(j, node), start, count, id) == find_in_slice(
            nodes.update(j, node),
            start + 1,
            count - 1,
            id,
        ));
    }
}

/// Appending a node with the searched id to a level in which the search
/// failed makes the search find exactly the appended slot.
proof fn lemma_find_after_push(nodes: Seq<LiveNode>, start: int, id: Id, node: LiveNode)
    requires
        0 <= start <= nodes.len(),
        find_in_slice(nodes, start, nodes.len() - start, id) is None,
        node.id == id,
    ensures
        find_in_slice(nodes.push(node), start, nodes.len() + 1 - start, id) == Option::Some(
            nodes.len() as int,
        ),
    decreases nodes.len() - start,
{
    let pushed = nodes.push(node);
    if start == nodes.len() {
        assert(pushed[start].id == id);
    } else {
        assert(pushed[start] == nodes[start]);
        lemma_find_after_push(nodes, start + 1, id, node);
    }
}

/// Writing an identical Single-keyed node twice leaves the tree exactly
/// as after the first write: the second write finds the very slot the
/// first one filled, still holding the written node, and changes nothing.
pub proof fn lemma_single_upsert_idempotent(
    levels: Seq<Seq<LiveNode>>,
    level: int,
    start: int,
    node: LiveNode,
)
    requires
        single_word(node.id.0),
        0 <= level < levels.len(),
        0 <= start <= levels[level].len(),
    ensures
        ({
            let once = apply_single_write(levels, level, start, node);
            let slot = single_write_index(levels, level, start, node);
            &&& once[level][slot] == node
            &&& find_in_slice(once[level], start, once[level].len() - start, node.id)
                == Option::Some(slot)
            &&& apply_single_write(once, level, start, node) == once
        }),
{
    let once = apply_single_write(levels, level, start, node);
    let slot = single_write_index(levels, level, start, node);
    crate::document::lemma_find_in_slice_props(
        levels[level],
        start,
        levels[level].len() - start,
        node.id,
    );
    match find_in_slice(levels[level], start, levels[level].len() - start, node.id) {
        Option::Some(j) => {
            lemma_find_after_update(
                levels[level],
                start,
                levels[level].len() - start,
                node.id,
                j,
                node,
            );
        },
        Option::None => {
            lemma_find_after_push(levels[level], start, node.id, node);
        },
    }
    assert(once[level][slot] == node);
    let twice = apply_single_write(once, level, start, node);
    assert(once[level].update(slot, node) =~= once[level]);
    assert(twice =~= once);
}

/// Re-writing an existing Single-keyed node overwrites it in place: the
/// node keeps its position, takes the new payload, and every other node
/// of the tree is untouched.
pub proof fn lemma_single_upsert_overwrite(
    levels: Seq<Seq<LiveNode>>,
    level: int,
    start: int,
    node: LiveNode,
    j: int,
)
    requires
        0 <= level < levels.len(),
        0 <= start <= levels[level].len(),
        find_in_slice(levels[level], start, levels[level].len() - start, node.id) == Option::Some(
            j,
        ),
    ensures
        ({
            let once = apply_single_write(levels, level, start, node);
            &&& once.len() == levels.len()
            &&& once[level].len() == levels[level].len()
            &&& once[level][j] == node
            &&& forall|k: int|
                0 <= k < levels[level].len() && k != j ==> #[trigger] once[level][k]
                    == levels[level][k]
            &&& forall|l: int| 0 <= l < levels.len() && l != level ==> #[trigger] once[l] == levels[l]
        }),
{
    crate::document::lemma_find_in_slice_props(
        levels[level],
        start,
        levels[level].len() - start,
        node.id,
    );
}

/// Resolution that succeeded in a tree still succeeds, with the same
/// pointer, in a tree that agrees with it on every node except one: a
/// node whose id is unchanged and which was a childless Class, so that no
/// successful resolution ever went through it.
proof fn lemma_resolve_preserved(
    levels: Seq<Seq<LiveNode>>,
    grown: Seq<Seq<LiveNode>>,
    a_level: int,
    a_index: int,
    level: int,
    start: int,
    count: int,
    path: Seq<Id>,
    i: int,
)
    requires
        levels_wf(levels),
        grown.len() == levels.len(),
        forall|l: int|
            0 <= l < levels.len() ==> (#[trigger] grown[l]).len() >= levels[l].len(),
        forall|l: int, k: int|
            0 <= l < levels.len() && 0 <= k < levels[l].len() && !(l == a_level && k == a_index)
                ==> #[trigger] grown[l][k] == levels[l][k],
        0 <= a_level < levels.len(),
        0 <= a_index < levels[a_level].len(),
        grown[a_level][a_index].id == levels[a_level][a_index].id,
        levels[a_level][a_index].value matches LiveValue::Class { node_count, .. } && node_count
            == 0,
        0 <= level < levels.len(),
        0 <= start,
        start + count <= levels[level].len(),
    ensures
        resolve_path(levels, level, start, count, path, i) matches ResolveOutcome::Found(q)
            ==> resolve_path(grown, level, start, count, path, i) == ResolveOutcome::Found(q),
    decreases path.len() - i,
{
    if i < 0 || i >= path.len() {
    } else {
        assert(forall|k: int|
            start <= k < start + count ==> (#[trigger] grown[level][k]).id
                == levels[level][k].id);
        lemma_find_congruent(levels[level], grown[level], start, count, path[i]);
        match find_in_slice(levels[level], start, count, path[i]) {
            Option::None => {},
            Option::Some(j) => {
                crate::document::lemma_find_in_slice_props(levels[level], start, count, path[i]);
                if i == path.len() - 1 {
                } else {
                    match levels[level][j].value {
                        LiveValue::Class { node_start, node_count, .. } => {
                            if level == a_level && j == a_index {
                                // descending through the childless Class finds
                                // nothing, so resolution did not succeed here
                                assert(find_in_slice(
                                    levels[level + 1],
                                    node_start as int,
                                    0,
                                    path[i + 1],
                                ) is None);
                            } else {
                                assert(grown[level][j] == levels[level][j]);
                                assert(node_in_bounds_for(levels, level, j));
                                lemma_resolve_preserved(
                                    levels,
                                    grown,
                                    a_level,
                                    a_index,
                                    level + 1,
                                    node_start as int,
                                    node_count as int,
                                    path,
                                    i + 1,
                                );
                            }
                        },
                        _ => {},
                    }
                }
            },
        }
    }
}

/// The child-slice bound of one node, spelled out for use in proofs.
spec fn node_in_bounds_for(levels: Seq<Seq<LiveNode>>, level: int, j: int) -> bool {
    crate::document::node_in_bounds(levels, level, levels[level][j])
}

/// Structural append: writing the new path `a.b`, where `a` is an
/// existing childless Class in the addressed slice and `b` is its new
/// child, creates exactly one node, raises `a`'s child count to one,
/// makes the path `a.b` resolve to the created node, and leaves every
/// previously resolvable path resolving to the same pointer as before.
pub proof fn lemma_structural_append(
    levels: Seq<Seq<LiveNode>>,
    level: int,
    start: int,
    count: int,
    segs: Seq<Id>,
    in_node: LiveNode,
    ja: int,
    a_class: Id,
    a_start: u32,
)
    requires
        levels_wf(levels),
        0 <= level < levels.len(),
        0 <= start,
        start + count <= levels[level].len(),
        segs.len() == 2,
        find_in_slice(levels[level], start, count, segs[0]) == Option::Some(ja),
        levels[level][ja].value == (LiveValue::Class {
            class: a_class,
            node_start: a_start,
            node_count: 0u32,
        }),
        level + 1 <= usize::MAX,
        levels[level].len() < 0x4000_0000,
        levels[level + 1].len() < 0x4000_0000,
    ensures
        ({
            let plan = multi_plan(levels, level, start, count, Option::None, segs, 0);
            let grown = apply_plan(levels, plan, in_node, segs);
            let new_index = levels[level + 1].len() as int;
            &&& plan_result(plan) == Result::<Option<usize>, LiveErrorKind>::Ok(
                Option::<usize>::None,
            )
            &&& grown[level + 1].len() == levels[level + 1].len() + 1
            &&& grown[level + 1][new_index] == path_child_node(in_node, segs)
            &&& grown[level][ja].value matches LiveValue::Class { class, node_start, node_count }
                && class == a_class && node_count == 1u32
            &&& resolve_path(grown, level, start, count, segs, 0) == ResolveOutcome::Found(
                LiveNodePtr { level: (level + 1) as usize, index: new_index as usize },
            )
            &&& forall|path: Seq<Id>|
                (#[trigger] resolve_path(levels, level, start, count, path, 0)) matches
                    ResolveOutcome::Found(q) ==> resolve_path(grown, level, start, count, path, 0)
                    == ResolveOutcome::Found(q)
        }),
{
    crate::document::lemma_find_in_slice_props(levels[level], start, count, segs[0]);
    assert(node_in_bounds_for(levels, level, ja));
    let plan = multi_plan(levels, level, start, count, Option::None, segs, 0);
    // the plan descends through `a`, misses `b` in the empty child slice,
    // and appends under `a`
    assert(find_in_slice(levels[level + 1], a_start as int, 0, segs[1]) is None);
    assert(plan == multi_plan(
        levels,
        level + 1,
        a_start as int,
        0,
        Option::Some(ja),
        segs,
        1,
    ));
    let grown = apply_plan(levels, plan, in_node, segs);
    let new_index = levels[level + 1].len() as int;
    let child = path_child_node(in_node, segs);
    if levels[level + 1].len() == a_start as int {
        assert(plan == UpsertPlan::GrowAppend {
            level: (level + 1) as usize,
            parent: ja as usize,
        });
    } else {
        assert(plan == UpsertPlan::MoveAppend {
            level: (level + 1) as usize,
            parent: ja as usize,
            old_start: a_start as usize,
            old_count: 0usize,
        });
        assert(grown[level + 1] =~= levels[level + 1].push(child));
    }
    assert(grown[level + 1].len() == levels[level + 1].len() + 1);
    assert(grown[level + 1][new_index] == child);
    assert(grown.len() == levels.len());
    assert(forall|l: int|
        0 <= l < levels.len() ==> (#[trigger] grown[l]).len() >= levels[l].len());
    assert(forall|l: int, k: int|
        0 <= l < levels.len() && 0 <= k < levels[l].len() && !(l == level && k == ja)
            ==> #[trigger] grown[l][k] == levels[l][k]);
    // the written path itself now resolves to the fresh node
    let new_start_int = if levels[level + 1].len() == a_start as int {
        a_start as int
    } else {
        levels[level + 1].len() as int
    };
    assert(grown[level][ja].value matches LiveValue::Class { node_start, node_count, .. }
        && node_start == new_start_int as u32 && node_count == 1u32);
    assert(forall|k: int|
        start <= k < start + count ==> (#[trigger] grown[level][k]).id == levels[level][k].id);
    lemma_find_congruent(levels[level], grown[level], start, count, segs[0]);
    assert(find_in_slice(grown[level], start, count, segs[0]) == Option::Some(ja));
    assert(new_start_int as u32 as int == new_start_int);
    assert(grown[level + 1][new_start_int].id == segs[1]);
    assert(find_in_slice(grown[level + 1], new_start_int, 1, segs[1]) == Option::Some(
        new_start_int,
    ));
    assert(new_start_int == new_index || (levels[level + 1].len() == a_start as int
        && new_start_int == new_index));
    assert(resolve_path(grown, level, start, count, segs, 0) == resolve_path(
        grown,
        level + 1,
        new_start_int,
        1,
        segs,
        1,
    ));
    assert(resolve_path(grown, level + 1, new_start_int, 1, segs, 1) == ResolveOutcome::Found(
        LiveNodePtr { level: (level + 1) as usize, index: new_index as usize },
    ));
    // every previously resolvable path keeps its pointer
    assert forall|path: Seq<Id>|
        (#[trigger] resolve_path(levels, level, start, count, path, 0)) is Found
            implies resolve_path(grown, level, start, count, path, 0) == resolve_path(
            levels,
            level,
            start,
            count,
            path,
            0,
        ) by {
        lemma_resolve_preserved(levels, grown, level, ja, level, start, count, path, 0);
    }
}

/// Path navigation failure: a dotted path whose first segment matches a
/// scalar node does not resolve.
pub proof fn lemma_scan_fails_on_scalar(
    levels: Seq<Seq<LiveNode>>,
    level: int,
    start: int,
    count: int,
    segs: Seq<Id>,
    j: int,
)
    requires
        segs.len() >= 2,
        find_in_slice(levels[level], start, count, segs[0]) == Option::Some(j),
        !(levels[level][j].value is Class),
    ensures
        resolve_path(levels, level, start, count, segs, 0) == ResolveOutcome::NotAClass,
{
}


/// Levels that only grew keep every node's child slice in bounds.
proof fn lemma_node_in_bounds_monotone(
    levels1: Seq<Seq<LiveNode>>,
    levels2: Seq<Seq<LiveNode>>,
    level: int,
    n: LiveNode,
)
    requires
        levels2.len() == levels1.len(),
        forall|l: int|
            0 <= l < levels1.len() ==> (#[trigger] levels2[l]).len() >= levels1[l].len(),
        0 <= level,
        crate::document::node_in_bounds(levels1, level, n),
    ensures
        crate::document::node_in_bounds(levels2, level, n),
{
}

/// What a successful upsert plan says about the tree it was planned
/// against: an overwrite names a node of its level, and an append names a
/// parent that is a Class whose child run is exactly the navigated slice,
/// ending its level array exactly in the grow-in-place case.
proof fn lemma_multi_plan_parent(
    levels: Seq<Seq<LiveNode>>,
    level: int,
    start: int,
    count: int,
    last_class: Option<int>,
    segs: Seq<Id>,
    i: int,
)
    requires
        levels_wf(levels),
        levels.len() <= usize::MAX,
        forall|l: int| 0 <= l < levels.len() ==> (#[trigger] levels[l]).len() <= usize::MAX,
        0 <= level < levels.len(),
        0 <= start,
        start + count <= levels[level].len(),
        match last_class {
            Option::Some(p) => 1 <= level && 0 <= p < levels[level - 1].len() && (levels[level
                - 1][p].value matches LiveValue::Class { node_start, node_count, .. } && node_start
                == start && node_count == count),
            Option::None => true,
        },
    ensures
        match multi_plan(levels, level, start, count, last_class, segs, i) {
            UpsertPlan::OverwriteValue { level: l, index: j } => l < levels.len() && j < levels[
                l as int
            ].len() && levels[l as int][j as int].id == segs.last(),
            UpsertPlan::GrowAppend { level: l, parent: p } => 1 <= l < levels.len() && p < levels[
                l - 1
            ].len() && (levels[l - 1][p as int].value matches LiveValue::Class {
                node_start,
                node_count,
                ..
            } && node_start + node_count == levels[l as int].len()),
            UpsertPlan::MoveAppend { level: l, parent: p, old_start, old_count } => 1 <= l
                < levels.len() && p < levels[l - 1].len() && (levels[l - 1][p as int].value matches
                LiveValue::Class { node_start, node_count, .. } && node_start == old_start
                && node_count == old_count && old_start + old_count <= levels[l as int].len()
                && levels[l as int].len() != old_start + old_count),
            _ => true,
        },
    decreases segs.len() - i,
{
    if i < 0 || i >= segs.len() {
    } else {
        crate::document::lemma_find_in_slice_props(levels[level], start, count, segs[i]);
        match find_in_slice(levels[level], start, count, segs[i]) {
            Option::Some(j) => {
                if i == segs.len() - 1 {
                } else {
                    match levels[level][j].value {
                        LiveValue::Class { node_start, node_count, .. } => {
                            assert(crate::document::node_in_bounds(
                                levels,
                                level,
                                levels[level][j],
                            ));
                            lemma_multi_plan_parent(
                                levels,
                                level + 1,
                                node_start as int,
                                node_count as int,
                                Option::Some(j),
                                segs,
                                i + 1,
                            );
                        },
                        _ => {},
                    }
                }
            },
            Option::None => {},
        }
    }
}

/// The controlled append/relocate protocol preserves the child-slice
/// invariant: a path write against a well-formed tree leaves a
/// well-formed tree, provided the written payload's own child slice is in
/// bounds at the level the plan puts it.
pub proof fn lemma_path_write_preserves_wf(
    levels: Seq<Seq<LiveNode>>,
    level: int,
    start: int,
    count: int,
    segs: Seq<Id>,
    in_node: LiveNode,
)
    requires
        levels_wf(levels),
        levels.len() <= usize::MAX,
        0 <= level < levels.len(),
        0 <= start,
        start + count <= levels[level].len(),
        forall|l: int| 0 <= l < levels.len() ==> (#[trigger] levels[l]).len() < 0x4000_0000,
        match multi_plan(levels, level, start, count, Option::None, segs, 0) {
            UpsertPlan::OverwriteValue { level: l, .. } => crate::document::node_in_bounds(
                levels,
                l as int,
                path_child_node(in_node, segs),
            ),
            UpsertPlan::GrowAppend { level: l, .. } => crate::document::node_in_bounds(
                levels,
                l as int,
                path_child_node(in_node, segs),
            ),
            UpsertPlan::MoveAppend { level: l, .. } => crate::document::node_in_bounds(
                levels,
                l as int,
                path_child_node(in_node, segs),
            ),
            _ => true,
        },
    ensures
        levels_wf(
            apply_plan(
                levels,
                multi_plan(levels, level, start, count, Option::None, segs, 0),
                in_node,
                segs,
            ),
        ),
{
    let plan = multi_plan(levels, level, start, count, Option::None, segs, 0);
    lemma_multi_plan_parent(levels, level, start, count, Option::None, segs, 0);
    let grown = apply_plan(levels, plan, in_node, segs);
    match plan {
        UpsertPlan::OverwriteValue { level: l, index: j } => {
            assert forall|l2: int, i2: int|
                0 <= l2 < grown.len() && 0 <= i2 < grown[l2].len() implies
                crate::document::node_in_bounds(grown, l2, grown[l2][i2]) by {
                assert(crate::document::node_in_bounds(levels, l2, levels[l2][i2]));
                if l2 == l as int && i2 == j as int {
                    lemma_node_in_bounds_monotone(
                        levels,
                        grown,
                        l2,
                        path_child_node(in_node, segs),
                    );
                } else {
                    assert(grown[l2][i2] == levels[l2][i2]);
                    lemma_node_in_bounds_monotone(levels, grown, l2, levels[l2][i2]);
                }
            }
        },
        UpsertPlan::GrowAppend { level: l, parent: p } => {
            let li = l as int;
            assert(grown.len() == levels.len());
            assert(grown[li].len() == levels[li].len() + 1);
            assert(forall|l2: int|
                0 <= l2 < levels.len() ==> (#[trigger] grown[l2]).len() >= levels[l2].len());
            assert forall|l2: int, i2: int|
                0 <= l2 < grown.len() && 0 <= i2 < grown[l2].len() implies
                crate::document::node_in_bounds(grown, l2, grown[l2][i2]) by {
                if l2 == li - 1 && i2 == p as int {
                    // the parent keeps its run, one longer, still ending the level
                    assert(crate::document::node_in_bounds(levels, l2, levels[l2][i2]));
                } else if l2 == li && i2 == levels[li].len() {
                    // the appended child was checked against its level
                    lemma_node_in_bounds_monotone(
                        levels,
                        grown,
                        l2,
                        path_child_node(in_node, segs),
                    );
                } else {
                    assert(grown[l2][i2] == levels[l2][i2]);
                    assert(crate::document::node_in_bounds(levels, l2, levels[l2][i2]));
                    lemma_node_in_bounds_monotone(levels, grown, l2, levels[l2][i2]);
                }
            }
        },
        UpsertPlan::MoveAppend { level: l, parent: p, old_start, old_count } => {
            let li = l as int;
            let os = old_start as int;
            let oc = old_count as int;
            assert(grown.len() == levels.len());
            assert(grown[li].len() == levels[li].len() + oc + 1);
            assert(forall|l2: int|
                0 <= l2 < levels.len() ==> (#[trigger] grown[l2]).len() >= levels[l2].len());
            assert forall|l2: int, i2: int|
                0 <= l2 < grown.len() && 0 <= i2 < grown[l2].len() implies
                crate::document::node_in_bounds(grown, l2, grown[l2][i2]) by {
                if l2 == li - 1 && i2 == p as int {
                    // the parent now addresses the relocated run at the end
                    assert(crate::document::node_in_bounds(levels, l2, levels[l2][i2]));
                } else if l2 == li && i2 >= levels[li].len() {
                    if i2 < levels[li].len() + oc {
                        // a relocated child: the same node the level already held
                        assert(grown[l2][i2] == levels[li][os + (i2 - levels[li].len())]);
                        assert(crate::document::node_in_bounds(
                            levels,
                            l2,
                            levels[li][os + (i2 - levels[li].len())],
                        ));
                        lemma_node_in_bounds_monotone(
                            levels,
                            grown,
                            l2,
                            levels[li][os + (i2 - levels[li].len())],
                        );
                    } else {
                        // the appended child was checked against its level
                        assert(grown[l2][i2] == path_child_node(in_node, segs));
                        lemma_node_in_bounds_monotone(
                            levels,
                            grown,
                            l2,
                            path_child_node(in_node, segs),
                        );
                    }
                } else {
                    assert(grown[l2][i2] == levels[l2][i2]);
                    assert(crate::document::node_in_bounds(levels, l2, levels[l2][i2]));
                    lemma_node_in_bounds_monotone(levels, grown, l2, levels[l2][i2]);
                }
            }
        },
        _ => {},
    }
}

/// A Single- or Empty-keyed write against a well-formed tree leaves a
/// well-formed tree, provided the written node's own child slice is in
/// bounds at the addressed level.
pub proof fn lemma_single_write_preserves_wf(
    levels: Seq<Seq<LiveNode>>,
    level: int,
    start: int,
    node: LiveNode,
)
    requires
        levels_wf(levels),
        0 <= level < levels.len(),
        0 <= start <= levels[level].len(),
        crate::document::node_in_bounds(levels, level, node),
    ensures
        levels_wf(apply_single_write(levels, level, start, node)),
{
    let grown = apply_single_write(levels, level, start, node);
    crate::document::lemma_find_in_slice_props(
        levels[level],
        start,
        levels[level].len() - start,
        node.id,
    );
    assert(grown.len() == levels.len());
    assert(forall|l2: int|
        0 <= l2 < levels.len() ==> (#[trigger] grown[l2]).len() >= levels[l2].len());
    let slot = single_write_index(levels, level, start, node);
    assert forall|l2: int, i2: int|
        0 <= l2 < grown.len() && 0 <= i2 < grown[l2].len() implies
        crate::document::node_in_bounds(grown, l2, grown[l2][i2]) by {
        if l2 == level && i2 == slot {
            lemma_node_in_bounds_monotone(levels, grown, l2, node);
        } else {
            assert(grown[l2][i2] == levels[l2][i2]);
            assert(crate::document::node_in_bounds(levels, l2, levels[l2][i2]));
            lemma_node_in_bounds_monotone(levels, grown, l2, levels[l2][i2]);
        }
    }
}

} // verus!

