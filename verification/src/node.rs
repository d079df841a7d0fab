//! Node, token, scope and error types of the live document tree.
//!
//! A node's payload is a closed set of variants: scalars, and composites
//! that address a contiguous run of children in the next tree level by a
//! `(node_start, node_count)` slice. Floating-point, color and vector
//! scalars are carried as their raw bit patterns: this core stores, copies
//! and prints them, and their numeric interpretation belongs to the
//! embedding runtime.

use vstd::prelude::*;
use crate::id::{Id, LiveNodePtr};
use crate::span::Span;

verus! {

/// Index of one token in a document's token pool.
#[derive(Clone, Copy, Debug, Default, Eq, PartialEq, Structural)]
pub struct TokenId {
    pub token_id: u32,
}

/// One token as the tokenizer handed it over: its source location, and its
/// verbatim source text as a slice of the document's character pool. The
/// concrete token kinds belong to the tokenizer, outside this core.
#[derive(Clone, Copy, Debug, Eq, PartialEq, Structural)]
pub struct TokenWithSpan {
    pub span: Span,
    pub text_start: u32,
    pub text_count: u32,
}

/// A crate/module pair, as resolved from a two-segment use path.
#[derive(Clone, Copy, Debug, Eq, PartialEq, Structural)]
pub struct CrateModule(pub Id, pub Id);

/// Where one lexical-scope entry points: a node of this document, or a
/// node of another crate's module.
#[derive(Clone, Copy, Debug, Eq, PartialEq, Structural)]
pub enum LiveScopeTarget {
    Local { node_ptr: LiveNodePtr },
    Use { crate_module: CrateModule, node_ptr: LiveNodePtr },
}

/// One entry of the lexical-scope table captured by a Fn node.
#[derive(Clone, Copy, Debug, Eq, PartialEq, Structural)]
pub struct LiveScopeItem {
    pub id: Id,
    pub target: LiveScopeTarget,
}

/// A node's payload.
///
/// Composites (`Call`, `Array`, `Object`, `Class`) address their children
/// as a `(node_start, node_count)` run in the next level's flat array.
/// `String` addresses the document's character pool, `Fn` the token and
/// scope pools. `Float`, `Color`, `Vec2` and `Vec3` carry raw bit
/// patterns.
#[derive(Clone, Copy, Debug, Eq, PartialEq, Structural)]
pub enum LiveValue {
    String { string_start: u32, string_count: u32 },
    Bool(bool),
    Int(i64),
    Float { bits: u64 },
    Color { rgba: u32 },
    Vec2 { x_bits: u32, y_bits: u32 },
    Vec3 { x_bits: u32, y_bits: u32, z_bits: u32 },
    Id(Id),
    Call { target: Id, node_start: u32, node_count: u32 },
    Array { node_start: u32, node_count: u32 },
    Object { node_start: u32, node_count: u32 },
    Class { class: Id, node_start: u32, node_count: u32 },
    Fn { token_start: u32, token_count: u32, scope_start: u32, scope_count: u32 },
    Use { crate_module: Id },
}

/// A scalar payload: one that addresses no children of its own.
pub open spec fn spec_is_simple(v: LiveValue) -> bool {
    match v {
        LiveValue::String { .. } => true,
        LiveValue::Bool(_) => true,
        LiveValue::Int(_) => true,
        LiveValue::Float { .. } => true,
        LiveValue::Color { .. } => true,
        LiveValue::Vec2 { .. } => true,
        LiveValue::Vec3 { .. } => true,
        LiveValue::Id(_) => true,
        _ => false,
    }
}

impl LiveValue {
    /// Whether this payload is a scalar; the renderer keeps a composite's
    /// children on one line exactly when all of them are simple.
    pub fn is_simple(&self) -> (r: bool)
        ensures
            r == spec_is_simple(*self),
    {
        match self {
            LiveValue::String { .. } => true,
            LiveValue::Bool(_) => true,
            LiveValue::Int(_) => true,
            LiveValue::Float { .. } => true,
            LiveValue::Color { .. } => true,
            LiveValue::Vec2 { .. } => true,
            LiveValue::Vec3 { .. } => true,
            LiveValue::Id(_) => true,
            _ => false,
        }
    }
}

/// One node of the leveled tree: its key, the token it came from, and its
/// payload.
#[derive(Clone, Copy, Debug, Eq, PartialEq, Structural)]
pub struct LiveNode {
    pub id: Id,
    pub token_id: TokenId,
    pub value: LiveValue,
}

/// The kinds of document errors.
///
/// `PathNotObject`: an intermediate path segment resolved to a node that
/// is not a Class. `PathNotFound`: a required segment is missing and may
/// not be created implicitly. `InvalidIdTag`: a node was written under a
/// Number or NodePtr key. `InternalInconsistency`: a slice invariant that
/// the driving compiler must uphold was found broken.
#[derive(Clone, Copy, Debug, Eq, PartialEq, Structural)]
pub enum LiveErrorKind {
    PathNotObject,
    PathNotFound,
    InvalidIdTag,
    InternalInconsistency,
}

/// A recoverable document error: its kind, the span of the offending
/// statement, and the id of the path it names.
#[derive(Clone, Copy, Debug, Eq, PartialEq, Structural)]
pub struct LiveError {
    pub span: Span,
    pub kind: LiveErrorKind,
    pub path: Id,
}

} // verus!
