//! Analysis of a derive input's shape: classification of field types,
//! inference of the formatting bounds a generated impl needs, and the plans
//! from which a builder and a structured debug formatter are emitted.

pub mod type_expr;
pub mod schema;
pub mod analysis;
pub mod plan;
pub mod builder;
pub mod laws;
