//! Interactive SSH host picker: incremental host search, jump-chain
//! composition with tab completion, and the key-driven selection state
//! machine that coordinates them.
pub mod completer;
pub mod configstore;
pub mod controller;
pub mod searcher;
pub mod text;
