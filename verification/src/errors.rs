//! The errors that the escrow's operations answer with.
use vstd::prelude::*;

verus! {

#[derive(Clone, Copy, Debug, PartialEq, Eq, Structural)]
pub enum ContractError {
    AlreadyInitialized,
    NotInitialized,
    InvalidFeeBps,
    ContractPaused,
    InvalidAmount,
    ArbitratorNotRegistered,
    TradeNotFound,
    InvalidStatus,
    MetadataTooManyEntries,
    MetadataValueTooLong,
    InvalidAmountRange,
    InvalidLedgerRange,
    PresetNotFound,
    PresetNameTooLong,
    TooManyPresets,
    Unauthorized,
}

} // verus!
