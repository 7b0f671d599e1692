pub mod arrival;
pub mod filter;
pub mod merging;
pub mod retrieval;
pub mod visiting;
