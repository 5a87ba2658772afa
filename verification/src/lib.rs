//! Kal: a small dynamically typed expression language with first-class
//! algebraic effects and resumable continuations, evaluated by a machine with
//! explicit instruction and value stacks.

pub mod aggregates;
pub mod ast;
pub mod builder;
pub mod builtins;
pub mod calls;
pub mod control;
pub mod effects;
pub mod ending;
pub mod equality;
pub mod eval;
pub mod fatal;
pub mod frame;
pub mod interpreter;
pub mod intrinsics;
pub mod laws;
pub mod literals;
pub mod location;
pub mod machine;
pub mod operators;
pub mod pattern;
pub mod purity;
pub mod ref_mut;
pub mod resumption;
pub mod scope;
pub mod simple;
pub mod symbols;
pub mod table;
pub mod value;
