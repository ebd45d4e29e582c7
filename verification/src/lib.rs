//! Classification of C-family compiler command lines for a compilation cache.
//!
//! A cache that stands in front of a compiler must decide, from the arguments
//! alone, whether an invocation compiles one source file, whether its result
//! may be stored, and which of its arguments bear on the result. This crate
//! makes that decision for Clang and the GCC family it belongs to.
//!
//! * [`rules`] says what a rule is and how a token is matched to one.
//! * [`table`] lays the rules of a dialect over those of its family.
//! * [`order`] and [`dialects`] hold the rules themselves, and the proof that
//!   they can be laid together.
//! * [`classify`] defines the verdict on a token sequence as a mathematical
//!   function, and [`parse`] computes it.
//! * [`accounting`] proves that an accepted invocation loses no token, and
//!   [`policy`] that a flag which no rule knows is let through.
//! * [`outcome`] holds the verdict and its parts, [`commands`] the argument
//!   lists for running the compiler on an accepted invocation.
//! * [`clang`] is the front end for Clang.
//! * [`text`] holds the string helpers that the rest is built on.
//!
//! Every function is verified against its contract: none panics, and each
//! returns what its `ensures` clause states.

pub mod accounting;
pub mod clang;
pub mod classify;
pub mod commands;
pub mod dialects;
pub mod order;
pub mod outcome;
pub mod parse;
pub mod policy;
pub mod rules;
pub mod table;
pub mod text;
