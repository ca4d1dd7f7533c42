//! The transaction record an account signs, and the fixed constants of the
//! claim call: destination, zero value, fixed gas allowance.
use vstd::prelude::*;

use crate::bytes::clone_bytes;

verus! {

/// The fixed gas allowance of the claim call.
pub const GAS_LIMIT: u64 = 2_000_000;

/// The claim sends no coin along with the call.
pub const TX_VALUE: u128 = 0;

/// The divisor that turns a wei balance into the coarse display units the
/// progress report prints.
pub const WEI_DISPLAY_DIV: u128 = 10_000_000_000_000;

/// Where each signing task takes its gas price from: one snapshot shared by
/// the whole batch, or a fresh per-task fetch capturing the market rate at
/// that task's own moment.
#[derive(Clone, Copy, Debug, PartialEq, Eq, Structural)]
pub enum GasPriceMode {
    SharedSnapshot,
    PerTask,
}

/// The gas price one task signs with, under the configured mode.
pub fn effective_gas_price(mode: GasPriceMode, shared_snapshot: u128, per_task: u128) -> (r: u128)
    ensures
        r == match mode {
            GasPriceMode::SharedSnapshot => shared_snapshot,
            GasPriceMode::PerTask => per_task,
        },
{
    match mode {
        GasPriceMode::SharedSnapshot => shared_snapshot,
        GasPriceMode::PerTask => per_task,
    }
}

/// One account's unsigned transaction, ready for its signature.
pub struct TxRecord {
    /// The contract's 20-byte address.
    pub to: Vec<u8>,
    /// Coin sent along with the call, in wei.
    pub value: u128,
    /// The gas allowance.
    pub gas_limit: u64,
    /// The gas price observed for this account's task, in wei.
    pub gas_price: u128,
    /// The account's on-chain transaction count at signing time.
    pub nonce: u64,
    /// The encoded contract call, shared by every account.
    pub data: Vec<u8>,
}

/// Build the record one account will sign: the fixed destination and gas
/// allowance, zero value, the nonce and gas price observed for this account,
/// and the shared payload.
pub fn build_transaction(contract_addr: &Vec<u8>, nonce: u64, gas_price: u128, payload: &Vec<u8>) -> (t:
    TxRecord)
    ensures
        t.to@ == contract_addr@,
        t.value == TX_VALUE,
        t.gas_limit == GAS_LIMIT,
        t.gas_price == gas_price,
        t.nonce == nonce,
        t.data@ == payload@,
{
    TxRecord {
        to: clone_bytes(contract_addr),
        value: TX_VALUE,
        gas_limit: GAS_LIMIT,
        gas_price,
        nonce,
        data: clone_bytes(payload),
    }
}

/// The coarse display units of a wei balance, as the balance report prints
/// them.
pub fn wei_display_units(balance: u128) -> (r: u128)
    ensures
        r == balance / WEI_DISPLAY_DIV,
{
    balance / WEI_DISPLAY_DIV
}

} // verus!
