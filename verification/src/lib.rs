//! Evaluators for two small calculi: booleans and naturals, and the untyped
//! lambda calculus in de Bruijn form.

pub mod arith;
pub mod text;
pub mod untyped;
