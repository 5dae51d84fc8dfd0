//! A pass-traversal engine for a hardware-design intermediate representation.
//!
//! A program is a set of named components; each component owns a port
//! signature, structural cells, continuous wire assignments and one control
//! tree.  A pass is a [`visitor::Visitor`]: a stateful object with a start and
//! finish hook for every control-node kind.  The engine walks the control
//! tree, calling the start hooks on the way down and the finish hooks on the
//! way up, with a tri-state outcome per hook: continue, stop the walk, or
//! replace the current subtree.

pub mod ir;
pub mod visitor;
pub mod laws;
pub mod clk_insertion;
pub mod trace;
