//! Memory blocks.
pub mod block;
