//! Verified core of the `cycle` tag and of filter chains for Liquid templates.
//!
//! The library states, and proves with Verus, how a `cycle` tag reads its
//! arguments, how its per-name counters advance during a render pass, and how
//! a filter chain annotates the failure of one of its filters.

pub mod cycle;
pub mod error;
pub mod expression;
pub mod filter_chain;
pub mod runtime;
pub mod state;
pub mod text;
pub mod tokens;
