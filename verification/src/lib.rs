//! Single-step execution engine for a typed, control-flow-graph intermediate
//! representation: basic blocks of statements ending in a terminator,
//! executed one statement or one terminator per step against a byte-level
//! memory model, together with the platform error-code plumbing that a host
//! runtime layers around it.

pub mod ir;
pub mod layout;
pub mod machine;
pub mod mem;
pub mod interp;
pub mod ops;
pub mod sys;
