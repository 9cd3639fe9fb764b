//! Circom code generation.
pub mod check_utxo_code;
pub mod circom_code;
pub mod circom_main_code;
pub mod connecting_hash_circom_template;
