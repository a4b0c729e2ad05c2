//! A schema-driven source-code generator backend: given a language-neutral
//! tree of type declarations, it emits Rust source text expressing the same
//! type shapes, together with a deduplicated, sorted block of the `use`
//! statements that the rendered shapes require.
pub mod definitions;
pub mod docs;
pub mod imports;
pub mod rust;
