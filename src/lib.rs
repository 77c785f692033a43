pub mod circuit;
pub mod field;
pub mod instruction;
pub mod leaf_hash;
pub mod literal;
pub mod mode;
