//! Writers of laid-out expressions.
pub mod svg;
