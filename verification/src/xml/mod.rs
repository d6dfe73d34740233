//! Reading XML: the markup events of a document, and the element tree built
//! from them.

pub mod source;
pub mod tree;
pub mod fields;
