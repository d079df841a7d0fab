//! In-memory model of a live-reloadable declarative document: a packed
//! 64-bit identifier codec with an explicit interning registry, a packed
//! span codec, and a leveled, slice-addressed node tree with dotted-path
//! resolution and write-or-add patching for incremental recompilation.

pub mod document;
pub mod id;
pub mod laws;
pub mod node;
pub mod printer;
pub mod registry;
pub mod span;
