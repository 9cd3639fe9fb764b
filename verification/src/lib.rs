//! Expansion of light-file macros into circom circuits: check-utxo
//! declarations, light transactions and the main component.
pub mod auto_generated_accounts_template;
pub mod casing;
pub mod check_utxo;
pub mod cli;
pub mod code_gen;
pub mod errors;
pub mod header;
pub mod json;
pub mod parser;
pub mod text;
