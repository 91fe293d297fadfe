//! Line-classification engine: every line of a source text is assigned one of
//! nine symbols (with a 4-bit code and a 3-axis coordinate), by one of three
//! strategies: an ordered lexical rule chain, a parse-tree-backed classifier,
//! and a byte-dispatch variant of the rule chain.

pub mod ast;
pub mod bridge;
pub mod lexical;
pub mod simd;
pub mod symbol;
pub mod text;

pub use crate::lexical::PrefixClassifier;

pub use crate::symbol::Category;
pub use crate::symbol::ClassifyResult;
pub use crate::symbol::PrefixSymbol;
