//! The live document: per-level flat node arrays, the shared pools backing
//! Multi ids, strings, tokens and scopes, and the tree algorithms that
//! resolve dotted paths and upsert nodes during incremental recompilation.

use vstd::prelude::*;
use crate::id::{Id, IdType, LiveNodePtr, spec_classify, multi_id, id_from_bytes};
use vstd::string::StringSliceAdditionalSpecFns;
use crate::node::{LiveNode, LiveValue, TokenId, TokenWithSpan, LiveScopeItem, CrateModule, LiveError, LiveErrorKind};
use crate::span::Span;

verus! {

/// One compiled source unit as a leveled, slice-addressed node tree.
///
/// `nodes` holds one flat array per tree depth; level 0 holds the roots,
/// and a composite node's children occupy a contiguous run in the next
/// level, addressed by its `(node_start, node_count)` slice. `multi_ids`,
/// `strings`, `tokens` and `scopes` are append-only pools backing Multi
/// ids and String/Fn payloads.
pub struct LiveDocument {
    pub recompile: bool,
    pub nodes: Vec<Vec<LiveNode>>,
    pub multi_ids: Vec<Id>,
    pub strings: Vec<char>,
    pub tokens: Vec<TokenWithSpan>,
    pub scopes: Vec<LiveScopeItem>,
}

/// The child slice a composite payload addresses, if any.
pub open spec fn child_slice(v: LiveValue) -> Option<(u32, u32)> {
    match v {
        LiveValue::Call { node_start, node_count, .. } => Option::Some((node_start, node_count)),
        LiveValue::Array { node_start, node_count } => Option::Some((node_start, node_count)),
        LiveValue::Object { node_start, node_count } => Option::Some((node_start, node_count)),
        LiveValue::Class { node_start, node_count, .. } => Option::Some((node_start, node_count)),
        _ => Option::None,
    }
}

/// A node at depth `level` keeps any child slice it addresses entirely
/// within the next level.
pub open spec fn node_in_bounds(levels: Seq<Seq<LiveNode>>, level: int, node: LiveNode) -> bool {
    match child_slice(node.value) {
        Option::Some((ns, nc)) => level + 1 < levels.len() && ns + nc <= levels[level + 1].len(),
        Option::None => true,
    }
}

/// The contiguous-child-slice invariant of a completed document: at least
/// one level exists, and every composite's child slice lies within the
/// next level. A document under construction may violate it transiently;
/// path resolution and upsert demand it.
pub open spec fn levels_wf(levels: Seq<Seq<LiveNode>>) -> bool {
    &&& levels.len() >= 1
    &&& forall|l: int, i: int|
        0 <= l < levels.len() && 0 <= i < levels[l].len() ==> node_in_bounds(
            levels,
            l,
            #[trigger] levels[l][i],
        )
}

/// The reserved path segment that stands for the enclosing crate in a
/// two-segment use path.
pub open spec fn crate_placeholder() -> Id {
    id_from_bytes("crate".spec_bytes())
}

/// The crate/module pair a two-segment Multi id resolves to: the first
/// segment, with the reserved placeholder replaced by the caller's outer
/// crate id, and the second segment.
pub open spec fn spec_fetch_crate_module(multi_ids: Seq<Id>, id: Id, outer_crate_id: Id) -> CrateModule {
    match spec_classify(id) {
        IdType::Multi { index, count } => {
            let crate_id = multi_ids[index as int];
            CrateModule(
                if crate_id == crate_placeholder() {
                    outer_crate_id
                } else {
                    crate_id
                },
                multi_ids[index + 1],
            )
        },
        _ => arbitrary(),
    }
}

/// Copies the contents of a pool into another, replacing what was there.
fn copy_pool<T: Copy>(dst: &mut Vec<T>, src: &Vec<T>)
    ensures
        final(dst)@ == src@,
{
    dst.clear();
    let n = src.len();
    let mut i: usize = 0;
    while i < n
        invariant
            n == src@.len(),
            i <= n,
            dst@ == src@.take(i as int),
        decreases n - i,
    {
        dst.push(src[i]);
        i = i + 1;
        proof {
            assert(dst@ =~= src@.take(i as int));
        }
    }
    proof {
        assert(src@.take(n as int) =~= src@);
    }
}

impl LiveDocument {
    /// The tree as a sequence of levels, each a sequence of nodes.
    pub open spec fn levels(&self) -> Seq<Seq<LiveNode>> {
        self.nodes@.map_values(|v: Vec<LiveNode>| v@)
    }

    /// Creates an empty document: one empty root level, empty pools.
    pub fn new() -> (r: Self)
        ensures
            r.levels() =~= seq![Seq::<LiveNode>::empty()],
            r.multi_ids@ == Seq::<Id>::empty(),
            r.strings@ == Seq::<char>::empty(),
            r.tokens@ == Seq::<TokenWithSpan>::empty(),
            r.scopes@ == Seq::<LiveScopeItem>::empty(),
            r.recompile == true,
    {
        Self {
            recompile: true,
            nodes: vec![Vec::new()],
            multi_ids: Vec::new(),
            strings: Vec::new(),
            tokens: Vec::new(),
            scopes: Vec::new(),
        }
    }

    /// Resets this document for an incremental rebuild: every node level
    /// is emptied (the level arrays themselves stay), the shared pools are
    /// taken over from `other`, and the scope table is discarded.
    pub fn restart_from(&mut self, other: &LiveDocument)
        ensures
            final(self).levels().len() == old(self).levels().len(),
            forall|l: int|
                0 <= l < final(self).levels().len() ==> #[trigger] final(self).levels()[l]
                    == Seq::<LiveNode>::empty(),
            final(self).multi_ids@ == other.multi_ids@,
            final(self).strings@ == other.strings@,
            final(self).tokens@ == other.tokens@,
            final(self).scopes@ == Seq::<LiveScopeItem>::empty(),
            final(self).recompile == old(self).recompile,
    {
        let n = self.nodes.len();
        let mut l: usize = 0;
        while l < n
            invariant
                n == self.nodes@.len(),
                l <= n,
                forall|k: int| 0 <= k < l ==> (#[trigger] self.nodes@[k])@ == Seq::<LiveNode>::empty(),
                self.multi_ids@ == old(self).multi_ids@,
                self.strings@ == old(self).strings@,
                self.tokens@ == old(self).tokens@,
                self.scopes@ == old(self).scopes@,
                self.recompile == old(self).recompile,
            decreases n - l,
        {
            self.nodes[l].clear();
            l = l + 1;
        }
        copy_pool(&mut self.multi_ids, &other.multi_ids);
        copy_pool(&mut self.strings, &other.strings);
        copy_pool(&mut self.tokens, &other.tokens);
        self.scopes.clear();
    }

    /// The span of the token a node was parsed from.
    pub fn token_id_to_span(&self, token_id: TokenId) -> (r: Span)
        requires
            token_id.token_id < self.tokens@.len(),
        ensures
            r == self.tokens@[token_id.token_id as int].span,
    {
        self.tokens[token_id.token_id as usize].span
    }

    /// The number of nodes stored at `level`, growing the document with
    /// empty levels until `level` exists.
    pub fn get_level_len(&mut self, level: usize) -> (r: usize)
        requires
            old(self).levels().len() >= 1,
        ensures
            final(self).levels().len() == if level + 1 > old(self).levels().len() {
                level + 1
            } else {
                old(self).levels().len() as int
            },
            forall|l: int|
                0 <= l < old(self).levels().len() ==> #[trigger] final(self).levels()[l] == old(self).levels()[l],
            forall|l: int|
                old(self).levels().len() <= l < final(self).levels().len() ==> #[trigger] final(self).levels()[l]
                    == Seq::<LiveNode>::empty(),
            r == final(self).levels()[level as int].len(),
            final(self).multi_ids@ == old(self).multi_ids@,
            final(self).strings@ == old(self).strings@,
            final(self).tokens@ == old(self).tokens@,
            final(self).scopes@ == old(self).scopes@,
            final(self).recompile == old(self).recompile,
    {
        while self.nodes.len() <= level
            invariant
                self.nodes@.len() >= old(self).nodes@.len() >= 1,
                self.nodes@.len() <= if level + 1 > old(self).nodes@.len() {
                    level + 1
                } else {
                    old(self).nodes@.len() as int
                },
                forall|l: int|
                    0 <= l < old(self).nodes@.len() ==> #[trigger] self.nodes@[l] == old(self).nodes@[l],
                forall|l: int|
                    old(self).nodes@.len() <= l < self.nodes@.len() ==> (#[trigger] self.nodes@[l])@
                        == Seq::<LiveNode>::empty(),
                self.multi_ids@ == old(self).multi_ids@,
                self.strings@ == old(self).strings@,
                self.tokens@ == old(self).tokens@,
                self.scopes@ == old(self).scopes@,
                self.recompile == old(self).recompile,
            decreases level + 1 - self.nodes@.len(),
        {
            self.nodes.push(Vec::new());
        }
        self.nodes[level].len()
    }

    /// Appends one node at the end of `level`; the unconditional append
    /// used when building fresh in source order.
    pub fn push_node(&mut self, level: usize, node: LiveNode)
        requires
            level < old(self).levels().len(),
        ensures
            final(self).levels() == old(self).levels().update(
                level as int,
                old(self).levels()[level as int].push(node),
            ),
            final(self).multi_ids@ == old(self).multi_ids@,
            final(self).strings@ == old(self).strings@,
            final(self).tokens@ == old(self).tokens@,
            final(self).scopes@ == old(self).scopes@,
            final(self).recompile == old(self).recompile,
    {
        self.nodes[level].push(node);
        proof {
            assert(final(self).levels() =~= old(self).levels().update(
                level as int,
                old(self).levels()[level as int].push(node),
            ));
        }
    }

    /// Interns a run of path segments in the shared pool and returns the
    /// Multi id addressing it.
    pub fn create_multi_id(&mut self, ids: &[Id]) -> (r: Id)
        ensures
            final(self).multi_ids@ == old(self).multi_ids@ + ids@,
            r == multi_id(old(self).multi_ids@.len() as usize, ids@.len() as usize),
            final(self).levels() == old(self).levels(),
            final(self).strings@ == old(self).strings@,
            final(self).tokens@ == old(self).tokens@,
            final(self).scopes@ == old(self).scopes@,
            final(self).recompile == old(self).recompile,
    {
        let multi_index = self.multi_ids.len();
        let n = ids.len();
        let mut i: usize = 0;
        while i < n
            invariant
                n == ids@.len(),
                i <= n,
                self.multi_ids@ == old(self).multi_ids@ + ids@.take(i as int),
                multi_index == old(self).multi_ids@.len(),
                self.nodes == old(self).nodes,
                self.strings@ == old(self).strings@,
                self.tokens@ == old(self).tokens@,
                self.scopes@ == old(self).scopes@,
                self.recompile == old(self).recompile,
            decreases n - i,
        {
            self.multi_ids.push(ids[i]);
            i = i + 1;
            proof {
                assert(self.multi_ids@ =~= old(self).multi_ids@ + ids@.take(i as int));
            }
        }
        proof {
            assert(old(self).multi_ids@ + ids@.take(n as int) =~= old(self).multi_ids@ + ids@);
        }
        Id::multi(multi_index, n)
    }

    /// Resolves a two-segment use path to its crate/module pair, replacing
    /// the reserved placeholder segment by the caller's outer crate id.
    /// Only a two-segment Multi id within the pool may ask; any other
    /// shape is an internal-invariant violation in the driving compiler.
    pub fn fetch_crate_module(&self, id: Id, outer_crate_id: Id) -> (r: CrateModule)
        requires
            spec_classify(id) matches IdType::Multi { index, count } && count == 2 && index + 2
                <= self.multi_ids@.len(),
        ensures
            r == spec_fetch_crate_module(self.multi_ids@, id, outer_crate_id),
    {
        let (index, _count) = id.get_multi();
        let pool_len = self.multi_ids.len();
        let crate_id = self.multi_ids[index];
        let crate_id = if crate_id == Id::from_str("crate") {
            outer_crate_id
        } else {
            crate_id
        };
        CrateModule(crate_id, self.multi_ids[index + 1])
    }
}


/// The first node of `nodes[start .. start + count]` whose id equals
/// `id`, as an absolute index into `nodes`.
pub open spec fn find_in_slice(nodes: Seq<LiveNode>, start: int, count: int, id: Id) -> Option<int>
    decreases count,
{
    if count <= 0 {
        Option::None
    } else if nodes[start].id == id {
        Option::Some(start)
    } else {
        find_in_slice(nodes, start + 1, count - 1, id)
    }
}

/// What `find_in_slice` finds is the first match of the slice: the match
/// lies in range and carries the id, everything before it does not; and a
/// miss means no node of the slice carries the id.
pub proof fn lemma_find_in_slice_props(nodes: Seq<LiveNode>, start: int, count: int, id: Id)
    requires
        0 <= start,
    ensures
        match find_in_slice(nodes, start, count, id) {
            Option::Some(j) => start <= j < start + count && nodes[j].id == id && (forall|k: int|
                start <= k < j ==> (#[trigger] nodes[k]).id != id),
            Option::None => forall|k: int|
                start <= k < start + count ==> (#[trigger] nodes[k]).id != id,
        },
    decreases count,
{
    if count <= 0 {
    } else if nodes[start].id == id {
    } else {
        lemma_find_in_slice_props(nodes, start + 1, count - 1, id);
    }
}

/// The outcome of resolving a dotted path over the tree model.
#[derive(Clone, Copy, Debug, Eq, PartialEq, Structural)]
pub enum ResolveOutcome {
    /// The full path resolved to this node.
    Found(LiveNodePtr),
    /// Some required segment is missing from its slice.
    Missing,
    /// An intermediate segment matched a node that is not a Class.
    NotAClass,
}

/// Resolves the path segments `segs[i..]` against the slice
/// `levels[level][start .. start + count]`, walking one segment at a time:
/// the first node matching the segment is taken; a final segment yields
/// its pointer, an intermediate one must be a Class and resolution
/// descends into its child slice one level deeper.
pub open spec fn resolve_path(
    levels: Seq<Seq<LiveNode>>,
    level: int,
    start: int,
    count: int,
    segs: Seq<Id>,
    i: int,
) -> ResolveOutcome
    decreases segs.len() - i,
{
    if i < 0 || i >= segs.len() {
        ResolveOutcome::Missing
    } else {
        match find_in_slice(levels[level], start, count, segs[i]) {
            Option::None => ResolveOutcome::Missing,
            Option::Some(j) => {
                if i == segs.len() - 1 {
                    ResolveOutcome::Found(
                        LiveNodePtr { level: level as usize, index: j as usize },
                    )
                } else {
                    match levels[level][j].value {
                        LiveValue::Class { node_start, node_count, .. } => resolve_path(
                            levels,
                            level + 1,
                            node_start as int,
                            node_count as int,
                            segs,
                            i + 1,
                        ),
                        _ => ResolveOutcome::NotAClass,
                    }
                }
            },
        }
    }
}

impl LiveDocument {
    /// Scans the slice `nodes[level][start .. start + count]` for the
    /// first node whose id equals `id`.
    fn find_node(nodes: &Vec<LiveNode>, start: usize, count: usize, id: Id) -> (r: Option<usize>)
        requires
            start + count <= nodes@.len(),
        ensures
            match r {
                Option::Some(j) => find_in_slice(nodes@, start as int, count as int, id)
                    == Option::Some(j as int) && start <= j < start + count,
                Option::None => find_in_slice(nodes@, start as int, count as int, id) is None,
            },
    {
        let nlen = nodes.len();
        let mut j: usize = 0;
        while j < count
            invariant
                nlen == nodes@.len(),
                start + count <= nodes@.len(),
                j <= count,
                find_in_slice(nodes@, start as int, count as int, id) == find_in_slice(
                    nodes@,
                    start + j,
                    count - j,
                    id,
                ),
            decreases count - j,
        {
            if nodes[start + j].id == id {
                return Option::Some(start + j);
            }
            j = j + 1;
        }
        Option::None
    }

    /// Resolves a full dotted path against the root level: the pointer of
    /// the matched node, or nothing when a segment is missing or an
    /// intermediate segment is not a Class.
    pub fn scan_for_multi(&self, ids: &[Id]) -> (r: Option<LiveNodePtr>)
        requires
            levels_wf(self.levels()),
        ensures
            r == match resolve_path(
                self.levels(),
                0,
                0,
                self.levels()[0].len() as int,
                ids@,
                0,
            ) {
                ResolveOutcome::Found(p) => Option::Some(p),
                _ => Option::<LiveNodePtr>::None,
            },
    {
        let num_levels = self.nodes.len();
        let mut node_start: usize = 0;
        let mut node_count: usize = self.nodes[0].len();
        let mut level: usize = 0;
        let n = ids.len();
        let mut i: usize = 0;
        while i < n
            invariant
                levels_wf(self.levels()),
                num_levels == self.levels().len(),
                n == ids@.len(),
                i <= n,
                level < num_levels,
                node_start + node_count <= self.levels()[level as int].len(),
                resolve_path(self.levels(), 0, 0, self.levels()[0].len() as int, ids@, 0)
                    == resolve_path(
                    self.levels(),
                    level as int,
                    node_start as int,
                    node_count as int,
                    ids@,
                    i as int,
                ),
            decreases n - i,
        {
            let id = ids[i];
            match Self::find_node(&self.nodes[level], node_start, node_count, id) {
                Option::None => {
                    return Option::None;
                },
                Option::Some(j) => {
                    if i == n - 1 {
                        return Option::Some(LiveNodePtr { level, index: j });
                    }
                    match self.nodes[level][j].value {
                        LiveValue::Class { node_start: ns, node_count: nc, .. } => {
                            level = level + 1;
                            node_start = ns as usize;
                            node_count = nc as usize;
                        },
                        _ => {
                            return Option::None;
                        },
                    }
                },
            }
            i = i + 1;
        }
        Option::None
    }

    /// Resolves the trailing segments `multi_ids[id_start + 1 ..
    /// id_start + id_count]` of an interned path against an explicit
    /// starting slice, reporting which way resolution failed.
    pub fn scan_for_multi_for_expand(
        &self,
        level: usize,
        node_start: usize,
        node_count: usize,
        id_start: usize,
        id_count: usize,
        multi_ids: &Vec<Id>,
    ) -> (r: Result<LiveNodePtr, LiveErrorKind>)
        requires
            levels_wf(self.levels()),
            level < self.levels().len(),
            node_start + node_count <= self.levels()[level as int].len(),
            id_start + id_count <= multi_ids@.len(),
        ensures
            r == match resolve_path(
                self.levels(),
                level as int,
                node_start as int,
                node_count as int,
                multi_ids@.subrange(id_start as int, (id_start + id_count) as int),
                1,
            ) {
                ResolveOutcome::Found(p) => Result::<LiveNodePtr, LiveErrorKind>::Ok(p),
                ResolveOutcome::Missing => Result::<LiveNodePtr, LiveErrorKind>::Err(
                    LiveErrorKind::PathNotFound,
                ),
                ResolveOutcome::NotAClass => Result::<LiveNodePtr, LiveErrorKind>::Err(
                    LiveErrorKind::PathNotObject,
                ),
            },
    {
        let ghost segs = multi_ids@.subrange(id_start as int, (id_start + id_count) as int);
        let num_levels = self.nodes.len();
        let pool_len = multi_ids.len();
        let mut cur_start = node_start;
        let mut cur_count = node_count;
        let mut cur_level = level;
        let mut i: usize = 1;
        while i < id_count
            invariant
                levels_wf(self.levels()),
                num_levels == self.levels().len(),
                pool_len == multi_ids@.len(),
                segs == multi_ids@.subrange(id_start as int, (id_start + id_count) as int),
                id_count == segs.len(),
                id_start + id_count <= multi_ids@.len(),
                1 <= i,
                i <= id_count || i == 1,
                cur_level < num_levels,
                cur_start + cur_count <= self.levels()[cur_level as int].len(),
                resolve_path(
                    self.levels(),
                    level as int,
                    node_start as int,
                    node_count as int,
                    segs,
                    1,
                ) == resolve_path(
                    self.levels(),
                    cur_level as int,
                    cur_start as int,
                    cur_count as int,
                    segs,
                    i as int,
                ),
            decreases id_count - i,
        {
            let id = multi_ids[id_start + i];
            proof {
                assert(segs[i as int] == multi_ids@[id_start + i]);
                assert(self.levels()[cur_level as int] == self.nodes@[cur_level as int]@);
            }
            match Self::find_node(&self.nodes[cur_level], cur_start, cur_count, id) {
                Option::None => {
                    proof {
                        assert(resolve_path(
                            self.levels(),
                            cur_level as int,
                            cur_start as int,
                            cur_count as int,
                            segs,
                            i as int,
                        ) == ResolveOutcome::Missing);
                    }
                    return Result::Err(LiveErrorKind::PathNotFound);
                },
                Option::Some(j) => {
                    if i == id_count - 1 {
                        proof {
                            assert(resolve_path(
                                self.levels(),
                                cur_level as int,
                                cur_start as int,
                                cur_count as int,
                                segs,
                                i as int,
                            ) == ResolveOutcome::Found(
                                LiveNodePtr { level: cur_level as usize, index: j as usize },
                            ));
                        }
                        return Result::Ok(LiveNodePtr { level: cur_level, index: j });
                    }
                    match self.nodes[cur_level][j].value {
                        LiveValue::Class { node_start: ns, node_count: nc, .. } => {
                            proof {
                                assert(resolve_path(
                                    self.levels(),
                                    cur_level as int,
                                    cur_start as int,
                                    cur_count as int,
                                    segs,
                                    i as int,
                                ) == resolve_path(
                                    self.levels(),
                                    cur_level + 1,
                                    ns as int,
                                    nc as int,
                                    segs,
                                    i + 1,
                                ));
                            }
                            cur_level = cur_level + 1;
                            cur_start = ns as usize;
                            cur_count = nc as usize;
                        },
                        _ => {
                            proof {
                                assert(resolve_path(
                                    self.levels(),
                                    cur_level as int,
                                    cur_start as int,
                                    cur_count as int,
                                    segs,
                                    i as int,
                                ) == ResolveOutcome::NotAClass);
                            }
                            return Result::Err(LiveErrorKind::PathNotObject);
                        },
                    }
                },
            }
            i = i + 1;
        }
        Result::Err(LiveErrorKind::PathNotFound)
    }
}


/// What one write-or-add call does for a Multi-keyed node, computed over
/// the tree model by walking the path as `resolve_path` does while
/// remembering the last Class descended through.
#[derive(Clone, Copy, Debug, Eq, PartialEq, Structural)]
pub enum UpsertPlan {
    /// The full path matched: overwrite that node's payload in place.
    OverwriteValue { level: usize, index: usize },
    /// The final segment is new and the parent's child run ends its level
    /// array: append in place and raise the parent's count.
    GrowAppend { level: usize, parent: usize },
    /// The final segment is new but later siblings follow the parent's
    /// child run: relocate the run to the end of the level, then append.
    MoveAppend { level: usize, parent: usize, old_start: usize, old_count: usize },
    /// An intermediate segment matched a node that is not a Class.
    FailNotObject,
    /// A required segment is missing and may not be created implicitly.
    FailNotFound,
    /// The path has no segments at all.
    FailInternal,
}

/// A `usize` option as an `int` option.
pub open spec fn opt_index(o: Option<usize>) -> Option<int> {
    match o {
        Option::Some(p) => Option::Some(p as int),
        Option::None => Option::None,
    }
}

/// Plans a path write against the slice `levels[level][start .. start +
/// count]`: navigation mirrors `resolve_path`, never creating intermediate
/// containers; the final segment is overwritten in place when present,
/// appended under the last Class otherwise.
pub open spec fn multi_plan(
    levels: Seq<Seq<LiveNode>>,
    level: int,
    start: int,
    count: int,
    last_class: Option<int>,
    segs: Seq<Id>,
    i: int,
) -> UpsertPlan
    decreases segs.len() - i,
{
    if i < 0 || i >= segs.len() {
        UpsertPlan::FailInternal
    } else {
        match find_in_slice(levels[level], start, count, segs[i]) {
            Option::Some(j) => {
                if i == segs.len() - 1 {
                    UpsertPlan::OverwriteValue { level: level as usize, index: j as usize }
                } else {
                    match levels[level][j].value {
                        LiveValue::Class { node_start, node_count, .. } => multi_plan(
                            levels,
                            level + 1,
                            node_start as int,
                            node_count as int,
                            Option::Some(j),
                            segs,
                            i + 1,
                        ),
                        _ => UpsertPlan::FailNotObject,
                    }
                }
            },
            Option::None => {
                if i != segs.len() - 1 {
                    UpsertPlan::FailNotFound
                } else {
                    match last_class {
                        Option::None => UpsertPlan::FailNotFound,
                        Option::Some(p) => {
                            if levels[level].len() == start + count {
                                UpsertPlan::GrowAppend { level: level as usize, parent: p as usize }
                            } else {
                                UpsertPlan::MoveAppend {
                                    level: level as usize,
                                    parent: p as usize,
                                    old_start: start as usize,
                                    old_count: count as usize,
                                }
                            }
                        },
                    }
                }
            },
        }
    }
}

/// The node a path write inserts: the path's final segment as its id, the
/// written node's token and payload.
pub open spec fn path_child_node(in_node: LiveNode, segs: Seq<Id>) -> LiveNode {
    LiveNode { id: segs.last(), token_id: in_node.token_id, value: in_node.value }
}

/// A Class node with its child count raised by one; nodes that are not
/// Classes are left as they are.
pub open spec fn grow_class(node: LiveNode) -> LiveNode {
    match node.value {
        LiveValue::Class { class, node_start, node_count } => LiveNode {
            id: node.id,
            token_id: node.token_id,
            value: LiveValue::Class { class, node_start, node_count: (node_count + 1) as u32 },
        },
        _ => node,
    }
}

/// A Class node re-pointed at a child run starting at `new_start`, with
/// its count raised by one; nodes that are not Classes are left as they
/// are.
pub open spec fn move_class(node: LiveNode, new_start: u32) -> LiveNode {
    match node.value {
        LiveValue::Class { class, node_start, node_count } => LiveNode {
            id: node.id,
            token_id: node.token_id,
            value: LiveValue::Class {
                class,
                node_start: new_start,
                node_count: (node_count + 1) as u32,
            },
        },
        _ => node,
    }
}

/// The tree after carrying out an upsert plan for `in_node` written under
/// the path `segs`; a failing plan leaves the tree unchanged.
pub open spec fn apply_plan(
    levels: Seq<Seq<LiveNode>>,
    plan: UpsertPlan,
    in_node: LiveNode,
    segs: Seq<Id>,
) -> Seq<Seq<LiveNode>> {
    match plan {
        UpsertPlan::OverwriteValue { level, index } => {
            let l = level as int;
            let j = index as int;
            let old_node = levels[l][j];
            levels.update(
                l,
                levels[l].update(
                    j,
                    LiveNode { id: old_node.id, token_id: in_node.token_id, value: in_node.value },
                ),
            )
        },
        UpsertPlan::GrowAppend { level, parent } => {
            let l = level as int;
            let p = parent as int;
            let bumped = levels.update(l - 1, levels[l - 1].update(p, grow_class(levels[l - 1][p])));
            bumped.update(l, bumped[l].push(path_child_node(in_node, segs)))
        },
        UpsertPlan::MoveAppend { level, parent, old_start, old_count } => {
            let l = level as int;
            let p = parent as int;
            let moved = levels.update(
                l - 1,
                levels[l - 1].update(p, move_class(levels[l - 1][p], levels[l].len() as u32)),
            );
            moved.update(
                l,
                levels[l] + levels[l].subrange(old_start as int, old_start + old_count) + seq![
                    path_child_node(in_node, segs),
                ],
            )
        },
        _ => levels,
    }
}

/// The result a write-or-add call reports for a path write: nothing on
/// overwrite or structural append, an error kind when the plan failed.
pub open spec fn plan_result(plan: UpsertPlan) -> Result<Option<usize>, LiveErrorKind> {
    match plan {
        UpsertPlan::OverwriteValue { .. } => Result::Ok(Option::None),
        UpsertPlan::GrowAppend { .. } => Result::Ok(Option::None),
        UpsertPlan::MoveAppend { .. } => Result::Ok(Option::None),
        UpsertPlan::FailNotObject => Result::Err(LiveErrorKind::PathNotObject),
        UpsertPlan::FailNotFound => Result::Err(LiveErrorKind::PathNotFound),
        UpsertPlan::FailInternal => Result::Err(LiveErrorKind::InternalInconsistency),
    }
}


impl LiveDocument {
    /// Search-and-patch write used for hot reload.
    ///
    /// A Single or Empty key overwrites the first node of this level from
    /// `node_start` onward carrying the same id, or is appended at the end
    /// of the level, reporting the fresh index. A Multi key navigates its
    /// leading segments exactly as path resolution does, never creating
    /// intermediate containers, then overwrites the final segment in place
    /// or appends it under the last Class navigated through — growing that
    /// Class's child run in place when it ends the level array, relocating
    /// the run to the end of the array otherwise. A Number or NodePtr key
    /// is invalid. Errors carry the span of the written node's token and
    /// the offending path.
    pub fn write_or_add_node(
        &mut self,
        level: usize,
        node_start: usize,
        node_count: usize,
        in_doc: &LiveDocument,
        in_node: &LiveNode,
    ) -> (r: Result<Option<usize>, LiveError>)
        requires
            levels_wf(old(self).levels()),
            level < old(self).levels().len(),
            node_start + node_count <= old(self).levels()[level as int].len(),
            in_node.token_id.token_id < in_doc.tokens@.len(),
            spec_classify(in_node.id) matches IdType::Multi { index, count } ==> index + count
                <= in_doc.multi_ids@.len(),
            forall|l: int|
                0 <= l < old(self).levels().len() ==> (#[trigger] old(self).levels()[l]).len()
                    < 0x4000_0000,
        ensures
            final(self).multi_ids@ == old(self).multi_ids@,
            final(self).strings@ == old(self).strings@,
            final(self).tokens@ == old(self).tokens@,
            final(self).scopes@ == old(self).scopes@,
            final(self).recompile == old(self).recompile,
            match spec_classify(in_node.id) {
                IdType::Multi { index, count } => {
                    let segs = in_doc.multi_ids@.subrange(index as int, index + count);
                    let plan = multi_plan(
                        old(self).levels(),
                        level as int,
                        node_start as int,
                        node_count as int,
                        Option::None,
                        segs,
                        0,
                    );
                    &&& final(self).levels() == apply_plan(old(self).levels(), plan, *in_node, segs)
                    &&& r == match plan_result(plan) {
                        Result::Ok(v) => Result::<Option<usize>, LiveError>::Ok(v),
                        Result::Err(kind) => Result::<Option<usize>, LiveError>::Err(
                            LiveError {
                                span: in_doc.tokens@[in_node.token_id.token_id as int].span,
                                kind,
                                path: in_node.id,
                            },
                        ),
                    }
                },
                IdType::Single(_) => {
                    &&& final(self).levels() == apply_single_write(
                        old(self).levels(),
                        level as int,
                        node_start as int,
                        *in_node,
                    )
                    &&& r == match find_in_slice(
                        old(self).levels()[level as int],
                        node_start as int,
                        old(self).levels()[level as int].len() - node_start,
                        in_node.id,
                    ) {
                        Option::Some(_) => Result::<Option<usize>, LiveError>::Ok(Option::None),
                        Option::None => Result::<Option<usize>, LiveError>::Ok(
                            Option::Some(old(self).levels()[level as int].len() as usize),
                        ),
                    }
                },
                IdType::Empty => {
                    &&& final(self).levels() == old(self).levels().update(
                        level as int,
                        old(self).levels()[level as int].push(*in_node),
                    )
                    &&& r == Result::<Option<usize>, LiveError>::Ok(
                        Option::Some(old(self).levels()[level as int].len() as usize),
                    )
                },
                _ => {
                    &&& final(self).levels() == old(self).levels()
                    &&& r == Result::<Option<usize>, LiveError>::Err(
                        LiveError {
                            span: in_doc.tokens@[in_node.token_id.token_id as int].span,
                            kind: LiveErrorKind::InvalidIdTag,
                            path: in_node.id,
                        },
                    )
                },
            },
    {
        match in_node.id.to_type() {
            IdType::Multi { index: id_start, count: id_count } => {
                let ghost segs = in_doc.multi_ids@.subrange(
                    id_start as int,
                    (id_start + id_count) as int,
                );
                let ghost plan = multi_plan(
                    old(self).levels(),
                    level as int,
                    node_start as int,
                    node_count as int,
                    Option::None,
                    segs,
                    0,
                );
                let num_levels = self.nodes.len();
                let pool_len = in_doc.multi_ids.len();
                let mut cur_start = node_start;
                let mut cur_count = node_count;
                let mut cur_level = level;
                let mut last_class: Option<usize> = Option::None;
                let mut i: usize = 0;
                while i < id_count
                    invariant
                        *self == *old(self),
                        levels_wf(self.levels()),
                        num_levels == self.levels().len(),
                        pool_len == in_doc.multi_ids@.len(),
                        id_start + id_count <= pool_len,
                        in_node.token_id.token_id < in_doc.tokens@.len(),
                        spec_classify(in_node.id) == (IdType::Multi {
                            index: id_start,
                            count: id_count,
                        }),
                        forall|l: int|
                            0 <= l < self.levels().len() ==> (#[trigger] self.levels()[l]).len()
                                < 0x4000_0000,
                        plan == multi_plan(
                            self.levels(),
                            level as int,
                            node_start as int,
                            node_count as int,
                            Option::None,
                            segs,
                            0,
                        ),
                        segs == in_doc.multi_ids@.subrange(
                            id_start as int,
                            (id_start + id_count) as int,
                        ),
                        id_count == segs.len(),
                        i <= id_count,
                        cur_level < num_levels,
                        cur_start + cur_count <= self.levels()[cur_level as int].len(),
                        plan == multi_plan(
                            self.levels(),
                            cur_level as int,
                            cur_start as int,
                            cur_count as int,
                            opt_index(last_class),
                            segs,
                            i as int,
                        ),
                        match last_class {
                            Option::Some(p) => 1 <= cur_level && p < self.levels()[cur_level
                                - 1].len() && (self.levels()[cur_level - 1][p as int].value matches
                                LiveValue::Class { class, node_start: pns, node_count: pnc } && pns
                                == cur_start as u32 && pnc == cur_count as u32),
                            Option::None => true,
                        },
                    decreases id_count - i,
                {
                    let id = in_doc.multi_ids[id_start + i];
                    proof {
                        assert(segs[i as int] == in_doc.multi_ids@[id_start + i]);
                        assert(self.levels()[cur_level as int] == self.nodes@[cur_level as int]@);
                    }
                    match Self::find_node(&self.nodes[cur_level], cur_start, cur_count, id) {
                        Option::Some(j) => {
                            if i == id_count - 1 {
                                // overwrite the matched node's payload in place
                                proof {
                                    assert(plan == UpsertPlan::OverwriteValue {
                                        level: cur_level,
                                        index: j,
                                    });
                                }
                                let old_node = self.nodes[cur_level][j];
                                self.nodes[cur_level][j] = LiveNode {
                                    id: old_node.id,
                                    token_id: in_node.token_id,
                                    value: in_node.value,
                                };
                                proof {
                                    assert(self.levels() =~= apply_plan(
                                        old(self).levels(),
                                        plan,
                                        *in_node,
                                        segs,
                                    ));
                                }
                                return Result::Ok(Option::None);
                            }
                            match self.nodes[cur_level][j].value {
                                LiveValue::Class { node_start: ns, node_count: nc, .. } => {
                                    proof {
                                        assert(plan == multi_plan(
                                            self.levels(),
                                            cur_level + 1,
                                            ns as int,
                                            nc as int,
                                            Option::Some(j as int),
                                            segs,
                                            i + 1,
                                        ));
                                    }
                                    last_class = Option::Some(j);
                                    cur_level = cur_level + 1;
                                    cur_start = ns as usize;
                                    cur_count = nc as usize;
                                },
                                _ => {
                                    proof {
                                        assert(plan == UpsertPlan::FailNotObject);
                                    }
                                    return Result::Err(
                                        LiveError {
                                            span: in_doc.token_id_to_span(in_node.token_id),
                                            kind: LiveErrorKind::PathNotObject,
                                            path: in_node.id,
                                        },
                                    );
                                },
                            }
                        },
                        Option::None => {
                            if i != id_count - 1 || last_class.is_none() {
                                proof {
                                    assert(plan == UpsertPlan::FailNotFound);
                                }
                                return Result::Err(
                                    LiveError {
                                        span: in_doc.token_id_to_span(in_node.token_id),
                                        kind: LiveErrorKind::PathNotFound,
                                        path: in_node.id,
                                    },
                                );
                            }
                            let p = last_class.unwrap();
                            let new_node = LiveNode {
                                id: in_doc.multi_ids[id_start + id_count - 1],
                                token_id: in_node.token_id,
                                value: in_node.value,
                            };
                            proof {
                                assert(segs.last() == in_doc.multi_ids@[id_start + id_count - 1]);
                                assert(new_node == path_child_node(*in_node, segs));
                            }
                            let nodes_len = self.nodes[cur_level].len();
                            let parent = self.nodes[cur_level - 1][p];
                            if nodes_len == cur_start + cur_count {
                                // the child run ends the level: grow it in place
                                proof {
                                    assert(plan == UpsertPlan::GrowAppend {
                                        level: cur_level,
                                        parent: p,
                                    });
                                }
                                match parent.value {
                                    LiveValue::Class { class, node_start: pns, node_count: pnc } => {
                                        self.nodes[cur_level - 1][p] = LiveNode {
                                            id: parent.id,
                                            token_id: parent.token_id,
                                            value: LiveValue::Class {
                                                class,
                                                node_start: pns,
                                                node_count: pnc + 1,
                                            },
                                        };
                                    },
                                    _ => {
                                        proof {
                                            assert(false);
                                        }
                                    },
                                }
                                self.nodes[cur_level].push(new_node);
                                proof {
                                    assert(self.levels() =~= apply_plan(
                                        old(self).levels(),
                                        plan,
                                        *in_node,
                                        segs,
                                    ));
                                }
                                return Result::Ok(Option::None);
                            }
                            // later siblings follow the run: relocate it to the
                            // end of the level, then append
                            proof {
                                assert(plan == UpsertPlan::MoveAppend {
                                    level: cur_level,
                                    parent: p,
                                    old_start: cur_start,
                                    old_count: cur_count,
                                });
                            }
                            match parent.value {
                                LiveValue::Class { class, node_start: pns, node_count: pnc } => {
                                    self.nodes[cur_level - 1][p] = LiveNode {
                                        id: parent.id,
                                        token_id: parent.token_id,
                                        value: LiveValue::Class {
                                            class,
                                            node_start: nodes_len as u32,
                                            node_count: pnc + 1,
                                        },
                                    };
                                },
                                _ => {
                                    proof {
                                        assert(false);
                                    }
                                },
                            }
                            let ghost mid_nodes = self.nodes@;
                            let ghost base = old(self).levels()[cur_level as int];
                            proof {
                                assert(self.nodes@[cur_level as int]@ =~= base + base.subrange(
                                    cur_start as int,
                                    cur_start as int,
                                ));
                            }
                            let mut k: usize = 0;
                            while k < cur_count
                                invariant
                                    k <= cur_count,
                                    cur_level < self.nodes@.len(),
                                    cur_start + cur_count <= base.len(),
                                    base.len() < usize::MAX,
                                    self.multi_ids@ == old(self).multi_ids@,
                                    self.strings@ == old(self).strings@,
                                    self.tokens@ == old(self).tokens@,
                                    self.scopes@ == old(self).scopes@,
                                    self.recompile == old(self).recompile,
                                    self.nodes@[cur_level as int]@ == base + base.subrange(
                                        cur_start as int,
                                        cur_start + k,
                                    ),
                                    self.nodes@.len() == mid_nodes.len(),
                                    forall|l: int|
                                        0 <= l < self.nodes@.len() && l != cur_level
                                            ==> #[trigger] self.nodes@[l] == mid_nodes[l],
                                decreases cur_count - k,
                            {
                                let moved_node = self.nodes[cur_level][cur_start + k];
                                self.nodes[cur_level].push(moved_node);
                                k = k + 1;
                                proof {
                                    assert(self.nodes@[cur_level as int]@ =~= base + base.subrange(
                                        cur_start as int,
                                        cur_start + k,
                                    ));
                                }
                            }
                            self.nodes[cur_level].push(new_node);
                            proof {
                                assert(self.levels() =~~= apply_plan(
                                    old(self).levels(),
                                    plan,
                                    *in_node,
                                    segs,
                                ));
                            }
                            return Result::Ok(Option::None);
                        },
                    }
                    i = i + 1;
                }
                proof {
                    assert(plan == UpsertPlan::FailInternal);
                }
                Result::Err(
                    LiveError {
                        span: in_doc.token_id_to_span(in_node.token_id),
                        kind: LiveErrorKind::InternalInconsistency,
                        path: in_node.id,
                    },
                )
            },
            IdType::Single(_) => {
                let level_len = self.nodes[level].len();
                match Self::find_node(&self.nodes[level], node_start, level_len - node_start, in_node.id) {
                    Option::Some(j) => {
                        self.nodes[level][j] = *in_node;
                        proof {
                            assert(self.levels() =~= old(self).levels().update(
                                level as int,
                                old(self).levels()[level as int].update(j as int, *in_node),
                            ));
                        }
                        Result::Ok(Option::None)
                    },
                    Option::None => {
                        let index = self.nodes[level].len();
                        self.nodes[level].push(*in_node);
                        proof {
                            assert(self.levels() =~= old(self).levels().update(
                                level as int,
                                old(self).levels()[level as int].push(*in_node),
                            ));
                        }
                        Result::Ok(Option::Some(index))
                    },
                }
            },
            IdType::Empty => {
                let index = self.nodes[level].len();
                self.nodes[level].push(*in_node);
                proof {
                    assert(self.levels() =~= old(self).levels().update(
                        level as int,
                        old(self).levels()[level as int].push(*in_node),
                    ));
                }
                Result::Ok(Option::Some(index))
            },
            _ => Result::Err(
                LiveError {
                    span: in_doc.token_id_to_span(in_node.token_id),
                    kind: LiveErrorKind::InvalidIdTag,
                    path: in_node.id,
                },
            ),
        }
    }
}


/// The tree after writing a Single- or Empty-keyed node against
/// `levels[level]`: a Single key overwrites the first node from `start`
/// onward that carries the same id, and is appended at the end of the
/// level when no node does; an Empty key is always appended.
pub open spec fn apply_single_write(
    levels: Seq<Seq<LiveNode>>,
    level: int,
    start: int,
    node: LiveNode,
) -> Seq<Seq<LiveNode>> {
    match find_in_slice(levels[level], start, levels[level].len() - start, node.id) {
        Option::Some(j) => levels.update(level, levels[level].update(j, node)),
        Option::None => levels.update(level, levels[level].push(node)),
    }
}

/// The slot a Single-keyed write fills: the overwritten index, or the end
/// of the level where the node is appended.
pub open spec fn single_write_index(
    levels: Seq<Seq<LiveNode>>,
    level: int,
    start: int,
    node: LiveNode,
) -> int {
    match find_in_slice(levels[level], start, levels[level].len() - start, node.id) {
        Option::Some(j) => j,
        Option::None => levels[level].len() as int,
    }
}

} // verus!




