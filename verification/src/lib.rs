//! Orchestration core for a mass-participation contract claim: waiting for a
//! start condition, concurrently signing one transaction per account behind a
//! barrier, broadcasting, and confirming each transaction by polling.

mod broadcast;
mod bytes;
mod errors;
mod keys;
mod parse;
mod signing;
mod trigger;
mod tx;

pub use broadcast::{
    finish_confirmation, lemma_poll_first_change, lemma_poll_stalled, lemma_poll_stays_confirmed,
    lemma_stage_covers_all_accounts, spec_poll_run, spec_poll_step, BroadcastSession,
    ConfirmationPoll, ConfirmationResult, Receipt,
};
pub use bytes::{bytes_equal, clone_bytes};
pub use errors::PipelineError;
pub use keys::{curve_order, spec_be_bytes_as_nat, spec_valid_secret_key, validate_secret_key};
pub use signing::{AccountRecord, SignedTransaction, SigningSession};
pub use tx::{
    build_transaction, effective_gas_price, wei_display_units, GasPriceMode, TxRecord, GAS_LIMIT,
    TX_VALUE, WEI_DISPLAY_DIV,
};
pub use parse::{decode_hex, parse_address, parse_private_key};
pub use parse::{
    lemma_hex_decode_len, spec_all_hex, spec_hex_decode, spec_hex_val, spec_is_hex_digit,
    spec_strip_hex_prefix,
};
pub use trigger::{GateState, StartCondition, TriggerGate};
pub use trigger::{
    lemma_gate_condition_stable, lemma_gate_never_reverts, lemma_gate_reached_iff, spec_gate_run,
    spec_gate_step,
};
