//! A code generation backend that turns a compiler's typed intermediate
//! representation into C source text.
//!
//! The library holds the whole of what the backend decides: which C type a
//! layout gets, how constants and statics are laid out, which statements each
//! operation emits and in which order, and what is written next to the
//! generated sources. Every function states what it emits in its contract.

pub mod arith;
pub mod assembled;
pub mod atomics;
pub mod backend;
pub mod bits;
pub mod builder;
pub mod c_ast;
pub mod calls;
pub mod casts;
pub mod consts;
pub mod context;
pub mod control;
pub mod counting;
pub mod data;
pub mod declare;
pub mod dispatch;
pub mod intrinsic;
pub mod kept;
pub mod lanes;
pub mod layout;
pub mod lowered;
pub mod meaning;
pub mod memops;
pub mod memory;
pub mod module;
pub mod numbers;
pub mod order;
pub mod params;
pub mod places;
pub mod render;
pub mod shapes;
pub mod sharing;
pub mod simd;
pub mod statics;
pub mod text;
pub mod transfers;
pub mod type_of;
pub mod types;
pub mod values;
pub mod write;
pub mod written;
