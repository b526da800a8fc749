//! The operations that change the escrow's state, as one type, and the
//! state each leaves behind. Every changing operation of `Escrow` ensures
//! that its new state is `step` of its old state, so a sequence of calls
//! leaves the state that `run` gives.
use vstd::prelude::*;
use crate::types::{Address, SortCriterion, TradeFilter, TradeMetadata, PRESET_NAME_MAX_LEN};
use crate::errors::ContractError;
use crate::escrow::{
    after_cancel, after_create, cancel_trade_error, create_trade_error, EscrowModel,
    BPS_DENOMINATOR,
};
use crate::escrow::presets::{
    after_delete_preset, after_save_preset, after_update_preset, preset_access_error,
    save_preset_error,
};

verus! {

/// A call that may change the stored state, with its arguments.
pub enum EscrowOp {
    /// `initialize(admin, usdc_token, fee_bps)`
    Initialize(Address, Address, u32),
    /// `set_paused(paused)`
    SetPaused(bool),
    /// `update_fee(fee_bps)`
    UpdateFee(u32),
    /// `register_arbitrator(arbitrator)`
    RegisterArbitrator(Address),
    /// `remove_arbitrator(arbitrator)`
    RemoveArbitrator(Address),
    /// `create_trade(seller, buyer, amount, arbitrator, metadata, ledger)`
    CreateTrade(Address, Address, u64, Option<Address>, Option<TradeMetadata>, u32),
    /// `cancel_trade(trade_id, ledger)`
    CancelTrade(u64, u32),
    /// `save_filter_preset(owner, name, filter, sort, ledger)`
    SavePreset(Address, Vec<u8>, TradeFilter, SortCriterion, u32),
    /// `update_filter_preset(owner, id, name, filter, sort, ledger)`
    UpdatePreset(Address, u64, Vec<u8>, TradeFilter, SortCriterion, u32),
    /// `delete_filter_preset(owner, id)`
    DeletePreset(Address, u64),
}

/// The state after operation `op` on state `m`: the new state where the
/// operation succeeds, `m` itself where it is refused.
pub open spec fn step(m: EscrowModel, op: EscrowOp) -> EscrowModel {
    match op {
        EscrowOp::Initialize(admin, usdc_token, fee_bps) => if m.initialized() || fee_bps
            > BPS_DENOMINATOR {
            m
        } else {
            EscrowModel { admin: Some(admin), usdc_token: Some(usdc_token), fee_bps, ..m }
        },
        EscrowOp::SetPaused(paused) => if !m.initialized() {
            m
        } else {
            EscrowModel { paused, ..m }
        },
        EscrowOp::UpdateFee(fee_bps) => if !m.initialized() || fee_bps > BPS_DENOMINATOR {
            m
        } else {
            EscrowModel { fee_bps, ..m }
        },
        EscrowOp::RegisterArbitrator(a) => if !m.initialized() {
            m
        } else {
            EscrowModel { arbitrators: m.arbitrators.insert(a), ..m }
        },
        EscrowOp::RemoveArbitrator(a) => if !m.initialized() {
            m
        } else {
            EscrowModel { arbitrators: m.arbitrators.remove(a), ..m }
        },
        EscrowOp::CreateTrade(seller, buyer, amount, arbitrator, metadata, ledger) => {
            if create_trade_error(m, amount, arbitrator, metadata) is Some {
                m
            } else {
                after_create(m, seller, buyer, amount, arbitrator, metadata, ledger)
            }
        },
        EscrowOp::CancelTrade(trade_id, ledger) => if cancel_trade_error(m, trade_id) is Some {
            m
        } else {
            after_cancel(m, trade_id, ledger)
        },
        EscrowOp::SavePreset(owner, name, filter, sort, ledger) => if save_preset_error(
            m,
            owner,
            name@,
        ) is Some {
            m
        } else {
            after_save_preset(m, owner, name, filter, sort, ledger)
        },
        EscrowOp::UpdatePreset(owner, id, name, filter, sort, ledger) => if preset_access_error(
            m,
            owner,
            id,
        ) is Some || name@.len() > PRESET_NAME_MAX_LEN {
            m
        } else {
            after_update_preset(m, id, name, filter, sort, ledger)
        },
        EscrowOp::DeletePreset(owner, id) => if preset_access_error(m, owner, id) is Some {
            m
        } else {
            after_delete_preset(m, id)
        },
    }
}

/// The state after the operations `ops`, in order, starting from `m`.
pub open spec fn run(m: EscrowModel, ops: Seq<EscrowOp>) -> EscrowModel
    decreases ops.len(),
{
    if ops.len() == 0 {
        m
    } else {
        step(run(m, ops.drop_last()), ops.last())
    }
}

/// What `require_not_paused` answers in state `m`.
pub open spec fn not_paused_result(m: EscrowModel) -> Result<(), ContractError> {
    if m.paused {
        Err(ContractError::ContractPaused)
    } else {
        Ok(())
    }
}

} // verus!
