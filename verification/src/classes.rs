pub mod erasure_coding;
pub mod node;
pub mod recovery;
pub mod store;
