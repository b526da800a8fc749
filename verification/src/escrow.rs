//! The escrow's stored state and the operations that change it.
//!
//! `Escrow` holds as plain values what the contract keeps in its storage:
//! the admin, the payment token, the fee rate, the pause flag, the fees
//! collected, the registered arbitrators, every trade (trade `n` at
//! position `n - 1`) with the timeline of its status changes, and every
//! saved filter preset (preset `n` at position `n - 1`, `None` once
//! deleted). The ledger sequence number that an operation records is handed
//! in by the caller.
pub mod presets;

use vstd::prelude::*;
use crate::types::{
    is_record_of, metadata_view, Address, FilterPreset, MetadataEntry, SystemConfig,
    TimelineEntry, Trade, TradeMetadata, TradeStatus, TransactionRecord, METADATA_MAX_ENTRIES,
    METADATA_MAX_VALUE_LEN,
};
use crate::errors::ContractError;
use crate::operations::{not_paused_result, step, EscrowOp};

verus! {

/// Basis points in one whole.
pub const BPS_DENOMINATOR: u32 = 10_000;

/// What an `Escrow` holds, as mathematical values.
pub struct EscrowModel {
    pub admin: Option<Address>,
    pub usdc_token: Option<Address>,
    pub fee_bps: u32,
    pub paused: bool,
    pub accumulated_fees: u64,
    pub trades: Seq<Trade>,
    pub arbitrators: Set<Address>,
    pub presets: Seq<Option<FilterPreset>>,
    /// The status changes of each trade, in order, trade `n` at position `n - 1`.
    pub timelines: Seq<Seq<TimelineEntry>>,
}

impl EscrowModel {
    pub open spec fn initialized(self) -> bool {
        self.admin is Some
    }

    /// The invariant of the stored state.
    pub open spec fn wf(self) -> bool {
        &&& self.admin is Some <==> self.usdc_token is Some
        &&& self.fee_bps <= BPS_DENOMINATOR
        &&& self.trades.len() <= u32::MAX
        &&& self.presets.len() <= u32::MAX
        &&& forall|i: int|
            0 <= i < self.trades.len() ==> (#[trigger] self.trades[i]).id == i + 1
                && self.trades[i].fee <= self.trades[i].amount
        &&& forall|i: int|
            0 <= i < self.presets.len() && (#[trigger] self.presets[i]) is Some
                ==> self.presets[i]->0.id == i + 1
        &&& self.timelines.len() == self.trades.len()
        &&& forall|i: int|
            0 <= i < self.timelines.len() ==> (#[trigger] self.timelines[i]).len() > 0
                && self.timelines[i].last().status == self.trades[i].status
    }

    /// Whether trade `trade_id` exists.
    pub open spec fn has_trade(self, trade_id: u64) -> bool {
        1 <= trade_id <= self.trades.len()
    }

    /// Trade `trade_id`.
    pub open spec fn trade(self, trade_id: u64) -> Trade {
        self.trades[trade_id - 1]
    }
}

/// The stored state laid out field by field, as it is written to and read
/// back from storage.
pub struct EscrowParts {
    pub admin: Option<Address>,
    pub usdc_token: Option<Address>,
    pub fee_bps: u32,
    pub paused: bool,
    pub accumulated_fees: u64,
    pub trades: Vec<Trade>,
    pub arbitrators: Vec<Address>,
    pub presets: Vec<Option<FilterPreset>>,
    pub timelines: Vec<Vec<TimelineEntry>>,
}

impl EscrowParts {
    /// The state these parts hold.
    pub open spec fn model(&self) -> EscrowModel {
        EscrowModel {
            admin: self.admin,
            usdc_token: self.usdc_token,
            fee_bps: self.fee_bps,
            paused: self.paused,
            accumulated_fees: self.accumulated_fees,
            trades: self.trades@,
            arbitrators: self.arbitrators@.to_set(),
            presets: self.presets@,
            timelines: self.timelines@.map_values(|v: Vec<TimelineEntry>| v@),
        }
    }
}

pub struct Escrow {
    admin: Option<Address>,
    usdc_token: Option<Address>,
    fee_bps: u32,
    paused: bool,
    accumulated_fees: u64,
    trades: Vec<Trade>,
    arbitrators: Vec<Address>,
    presets: Vec<Option<FilterPreset>>,
    timelines: Vec<Vec<TimelineEntry>>,
}

impl View for Escrow {
    type V = EscrowModel;

    closed spec fn view(&self) -> EscrowModel {
        EscrowModel {
            admin: self.admin,
            usdc_token: self.usdc_token,
            fee_bps: self.fee_bps,
            paused: self.paused,
            accumulated_fees: self.accumulated_fees,
            trades: self.trades@,
            arbitrators: self.arbitrators@.to_set(),
            presets: self.presets@,
            timelines: self.timelines@.map_values(|v: Vec<TimelineEntry>| v@),
        }
    }
}

/// The fee taken on a trade of `amount` at `fee_bps` basis points, rounded down.
pub open spec fn fee_for(amount: u64, fee_bps: u32) -> int {
    (amount * fee_bps) / (BPS_DENOMINATOR as int)
}

/// The first rule that `meta` breaks, if any.
pub open spec fn metadata_error(meta: TradeMetadata) -> Option<ContractError> {
    if meta.entries@.len() > METADATA_MAX_ENTRIES {
        Some(ContractError::MetadataTooManyEntries)
    } else if exists|i: int|
        0 <= i < meta.entries@.len() && (#[trigger] meta.entries@[i]).value@.len()
            > METADATA_MAX_VALUE_LEN {
        Some(ContractError::MetadataValueTooLong)
    } else {
        None
    }
}

/// Checks the size limits of trade metadata: at most `METADATA_MAX_ENTRIES`
/// entries, and no value longer than `METADATA_MAX_VALUE_LEN` bytes.
pub fn validate_metadata(meta: &TradeMetadata) -> (r: Result<(), ContractError>)
    ensures
        r == match metadata_error(*meta) {
            Some(e) => Err(e),
            None => Ok(()),
        },
{
    if meta.entries.len() > METADATA_MAX_ENTRIES as usize {
        return Err(ContractError::MetadataTooManyEntries);
    }
    let mut i: usize = 0;
    while i < meta.entries.len()
        invariant
            i <= meta.entries@.len(),
            meta.entries@.len() <= METADATA_MAX_ENTRIES,
            forall|j: int|
                0 <= j < i ==> (#[trigger] meta.entries@[j]).value@.len() <= METADATA_MAX_VALUE_LEN,
        decreases meta.entries@.len() - i,
    {
        if meta.entries[i].value.len() > METADATA_MAX_VALUE_LEN as usize {
            assert(meta.entries@[i as int].value@.len() > METADATA_MAX_VALUE_LEN);
            return Err(ContractError::MetadataValueTooLong);
        }
        i = i + 1;
    }
    Ok(())
}

/// A copy of `v`.
pub(crate) fn copy_bytes(v: &Vec<u8>) -> (r: Vec<u8>)
    ensures
        r@ == v@,
{
    let r = v.clone();
    assert(r@ =~= v@);
    r
}

/// A copy of `meta`.
fn copy_metadata(meta: &TradeMetadata) -> (r: TradeMetadata)
    ensures
        r@ == meta@,
{
    let mut entries: Vec<MetadataEntry> = Vec::new();
    let mut i: usize = 0;
    while i < meta.entries.len()
        invariant
            i <= meta.entries@.len(),
            entries@.len() == i,
            forall|j: int| 0 <= j < i ==> (#[trigger] entries@[j])@ == meta.entries@[j]@,
        decreases meta.entries@.len() - i,
    {
        let e = MetadataEntry {
            key: copy_bytes(&meta.entries[i].key),
            value: copy_bytes(&meta.entries[i].value),
        };
        entries.push(e);
        i = i + 1;
    }
    let r = TradeMetadata { entries };
    assert(r@ =~= meta@);
    r
}

fn copy_optional_metadata(meta: &Option<TradeMetadata>) -> (r: Option<TradeMetadata>)
    ensures
        metadata_view(r) == metadata_view(*meta),
{
    match meta {
        Some(m) => Some(copy_metadata(m)),
        None => None,
    }
}

/// `r` holds the same trade as `t`.
pub open spec fn is_copy_of_trade(r: Trade, t: Trade) -> bool {
    &&& r.id == t.id
    &&& r.seller == t.seller
    &&& r.buyer == t.buyer
    &&& r.amount == t.amount
    &&& r.fee == t.fee
    &&& r.arbitrator == t.arbitrator
    &&& r.status == t.status
    &&& r.created_at == t.created_at
    &&& r.updated_at == t.updated_at
    &&& metadata_view(r.metadata) == metadata_view(t.metadata)
}

/// The record that shows trade `t`.
pub fn record_of(t: &Trade) -> (r: TransactionRecord)
    ensures
        is_record_of(r, *t),
{
    TransactionRecord {
        trade_id: t.id,
        seller: t.seller,
        buyer: t.buyer,
        amount: t.amount,
        fee: t.fee,
        status: t.status,
        created_at: t.created_at,
        updated_at: t.updated_at,
        metadata: copy_optional_metadata(&t.metadata),
    }
}

fn copy_trade(t: &Trade) -> (r: Trade)
    ensures
        is_copy_of_trade(r, *t),
{
    Trade {
        id: t.id,
        seller: t.seller,
        buyer: t.buyer,
        amount: t.amount,
        fee: t.fee,
        arbitrator: t.arbitrator,
        status: t.status,
        created_at: t.created_at,
        updated_at: t.updated_at,
        metadata: copy_optional_metadata(&t.metadata),
    }
}

/// Why `create_trade` refuses, if it does: the first check that fails.
pub open spec fn create_trade_error(
    m: EscrowModel,
    amount: u64,
    arbitrator: Option<Address>,
    metadata: Option<TradeMetadata>,
) -> Option<ContractError> {
    if !m.initialized() {
        Some(ContractError::NotInitialized)
    } else if m.paused {
        Some(ContractError::ContractPaused)
    } else if amount == 0 {
        Some(ContractError::InvalidAmount)
    } else if arbitrator matches Some(a) && !m.arbitrators.contains(a) {
        Some(ContractError::ArbitratorNotRegistered)
    } else if metadata matches Some(md) && metadata_error(md) is Some {
        metadata_error(metadata->0)
    } else {
        None
    }
}

/// The trade that `create_trade` stores when it succeeds.
pub open spec fn new_trade(
    m: EscrowModel,
    seller: Address,
    buyer: Address,
    amount: u64,
    arbitrator: Option<Address>,
    metadata: Option<TradeMetadata>,
    ledger: u32,
) -> Trade {
    Trade {
        id: (m.trades.len() + 1) as u64,
        seller,
        buyer,
        amount,
        fee: fee_for(amount, m.fee_bps) as u64,
        arbitrator,
        status: TradeStatus::Created,
        created_at: ledger,
        updated_at: ledger,
        metadata,
    }
}

/// The state after `create_trade` succeeds: the new trade is stored with
/// a timeline that holds its creation.
pub open spec fn after_create(
    m: EscrowModel,
    seller: Address,
    buyer: Address,
    amount: u64,
    arbitrator: Option<Address>,
    metadata: Option<TradeMetadata>,
    ledger: u32,
) -> EscrowModel {
    EscrowModel {
        trades: m.trades.push(new_trade(m, seller, buyer, amount, arbitrator, metadata, ledger)),
        timelines: m.timelines.push(seq![TimelineEntry { status: TradeStatus::Created, ledger }]),
        ..m
    }
}

/// The state after `cancel_trade` succeeds: the trade is `Cancelled` as of
/// `ledger`, and its timeline records the change.
pub open spec fn after_cancel(m: EscrowModel, trade_id: u64, ledger: u32) -> EscrowModel {
    EscrowModel {
        trades: m.trades.update(
            trade_id - 1,
            Trade { status: TradeStatus::Cancelled, updated_at: ledger, ..m.trade(trade_id) },
        ),
        timelines: m.timelines.update(
            trade_id - 1,
            m.timelines[trade_id - 1].push(TimelineEntry { status: TradeStatus::Cancelled, ledger }),
        ),
        ..m
    }
}

/// Why `cancel_trade` refuses, if it does.
pub open spec fn cancel_trade_error(m: EscrowModel, trade_id: u64) -> Option<ContractError> {
    if m.paused {
        Some(ContractError::ContractPaused)
    } else if !m.has_trade(trade_id) {
        Some(ContractError::TradeNotFound)
    } else if m.trade(trade_id).status != TradeStatus::Created {
        Some(ContractError::InvalidStatus)
    } else {
        None
    }
}

impl Escrow {
    /// Storage before `initialize`: nothing stored.
    pub fn new() -> (e: Escrow)
        ensures
            e.wf(),
            !e@.initialized(),
            e@.usdc_token is None,
            e@.fee_bps == 0,
            !e@.paused,
            e@.accumulated_fees == 0,
            e@.trades.len() == 0,
            e@.arbitrators.is_empty(),
            e@.presets.len() == 0,
            e@.timelines.len() == 0,
    {
        let e = Escrow {
            admin: None,
            usdc_token: None,
            fee_bps: 0,
            paused: false,
            accumulated_fees: 0,
            trades: Vec::new(),
            arbitrators: Vec::new(),
            presets: Vec::new(),
            timelines: Vec::new(),
        };
        assert(e@.arbitrators =~= Set::empty());
        e
    }

    pub open spec fn wf(&self) -> bool {
        self@.wf()
    }

    /// Stores the admin, the payment token and the fee rate, once.
    pub fn initialize(&mut self, admin: Address, usdc_token: Address, fee_bps: u32) -> (r: Result<
        (),
        ContractError,
    >)
        requires
            old(self).wf(),
        ensures
            final(self).wf(),
            final(self)@ == step(old(self)@, EscrowOp::Initialize(admin, usdc_token, fee_bps)),
            old(self)@.initialized() ==> r == Err::<(), ContractError>(
                ContractError::AlreadyInitialized,
            ),
            !old(self)@.initialized() && fee_bps > BPS_DENOMINATOR ==> r == Err::<
                (),
                ContractError,
            >(ContractError::InvalidFeeBps),
            r is Err ==> final(self)@ == old(self)@,
            r is Ok <==> !old(self)@.initialized() && fee_bps <= BPS_DENOMINATOR,
            r is Ok ==> final(self)@ == (EscrowModel {
                admin: Some(admin),
                usdc_token: Some(usdc_token),
                fee_bps,
                ..old(self)@
            }),
    {
        if self.admin.is_some() {
            return Err(ContractError::AlreadyInitialized);
        }
        if fee_bps > BPS_DENOMINATOR {
            return Err(ContractError::InvalidFeeBps);
        }
        self.admin = Some(admin);
        self.usdc_token = Some(usdc_token);
        self.fee_bps = fee_bps;
        Ok(())
    }

    /// Stops (`true`) or resumes (`false`) the operations that change trades.
    pub fn set_paused(&mut self, paused: bool) -> (r: Result<(), ContractError>)
        requires
            old(self).wf(),
        ensures
            final(self).wf(),
            final(self)@ == step(old(self)@, EscrowOp::SetPaused(paused)),
            !old(self)@.initialized() ==> r == Err::<(), ContractError>(
                ContractError::NotInitialized,
            ) && final(self)@ == old(self)@,
            old(self)@.initialized() ==> r is Ok && final(self)@ == (EscrowModel {
                paused,
                ..old(self)@
            }),
    {
        if self.admin.is_none() {
            return Err(ContractError::NotInitialized);
        }
        self.paused = paused;
        Ok(())
    }

    /// Sets the fee rate of trades created from now on.
    pub fn update_fee(&mut self, fee_bps: u32) -> (r: Result<(), ContractError>)
        requires
            old(self).wf(),
        ensures
            final(self).wf(),
            final(self)@ == step(old(self)@, EscrowOp::UpdateFee(fee_bps)),
            !old(self)@.initialized() ==> r == Err::<(), ContractError>(
                ContractError::NotInitialized,
            ),
            old(self)@.initialized() && fee_bps > BPS_DENOMINATOR ==> r == Err::<
                (),
                ContractError,
            >(ContractError::InvalidFeeBps),
            r is Err ==> final(self)@ == old(self)@,
            r is Ok <==> old(self)@.initialized() && fee_bps <= BPS_DENOMINATOR,
            r is Ok ==> final(self)@ == (EscrowModel { fee_bps, ..old(self)@ }),
    {
        if self.admin.is_none() {
            return Err(ContractError::NotInitialized);
        }
        if fee_bps > BPS_DENOMINATOR {
            return Err(ContractError::InvalidFeeBps);
        }
        self.fee_bps = fee_bps;
        Ok(())
    }

    /// Lets `arbitrator` be named in new trades.
    pub fn register_arbitrator(&mut self, arbitrator: Address) -> (r: Result<(), ContractError>)
        requires
            old(self).wf(),
        ensures
            final(self).wf(),
            final(self)@ == step(old(self)@, EscrowOp::RegisterArbitrator(arbitrator)),
            !old(self)@.initialized() ==> r == Err::<(), ContractError>(
                ContractError::NotInitialized,
            ) && final(self)@ == old(self)@,
            old(self)@.initialized() ==> r is Ok && final(self)@ == (EscrowModel {
                arbitrators: old(self)@.arbitrators.insert(arbitrator),
                ..old(self)@
            }),
    {
        if self.admin.is_none() {
            return Err(ContractError::NotInitialized);
        }
        if !self.is_arbitrator(arbitrator) {
            self.arbitrators.push(arbitrator);
        }
        assert(self@.arbitrators =~= old(self)@.arbitrators.insert(arbitrator)) by {
            broadcast use vstd::seq_lib::lemma_seq_contains_after_push;

        }
        Ok(())
    }

    /// Stops `arbitrator` from being named in new trades.
    pub fn remove_arbitrator(&mut self, arbitrator: Address) -> (r: Result<(), ContractError>)
        requires
            old(self).wf(),
        ensures
            final(self).wf(),
            final(self)@ == step(old(self)@, EscrowOp::RemoveArbitrator(arbitrator)),
            !old(self)@.initialized() ==> r == Err::<(), ContractError>(
                ContractError::NotInitialized,
            ) && final(self)@ == old(self)@,
            old(self)@.initialized() ==> r is Ok && final(self)@ == (EscrowModel {
                arbitrators: old(self)@.arbitrators.remove(arbitrator),
                ..old(self)@
            }),
    {
        if self.admin.is_none() {
            return Err(ContractError::NotInitialized);
        }
        let mut kept: Vec<Address> = Vec::new();
        let mut i: usize = 0;
        while i < self.arbitrators.len()
            invariant
                i <= self.arbitrators@.len(),
                forall|a: Address|
                    #[trigger] kept@.contains(a) <==> a != arbitrator && self.arbitrators@.take(
                        i as int,
                    ).contains(a),
            decreases self.arbitrators@.len() - i,
        {
            let a = self.arbitrators[i];
            let ghost prev = kept@;
            proof {
                assert(self.arbitrators@.take(i + 1) =~= self.arbitrators@.take(i as int).push(a));
            }
            if a != arbitrator {
                kept.push(a);
            }
            assert forall|b: Address|
                #[trigger] kept@.contains(b) <==> b != arbitrator && self.arbitrators@.take(
                    i + 1,
                ).contains(b) by {
                broadcast use vstd::seq_lib::lemma_seq_contains_after_push;

                assert(self.arbitrators@.take(i + 1) =~= self.arbitrators@.take(i as int).push(a));
            }
            i = i + 1;
        }
        proof {
            assert(self.arbitrators@.take(i as int) =~= self.arbitrators@);
        }
        self.arbitrators = kept;
        assert(self@.arbitrators =~= old(self)@.arbitrators.remove(arbitrator));
        Ok(())
    }

    /// The admin settings and counters.
    pub fn get_system_config(&self) -> (c: SystemConfig)
        requires
            self.wf(),
        ensures
            c == (SystemConfig {
                fee_bps: self@.fee_bps,
                is_paused: self@.paused,
                trade_counter: self@.trades.len() as u64,
                accumulated_fees: self@.accumulated_fees,
            }),
    {
        SystemConfig {
            fee_bps: self.fee_bps,
            is_paused: self.paused,
            trade_counter: self.trades.len() as u64,
            accumulated_fees: self.accumulated_fees,
        }
    }

    /// The admin, once initialized.
    pub fn get_admin(&self) -> (a: Option<Address>)
        ensures
            a == self@.admin,
    {
        self.admin
    }

    /// The token that trades are paid in, once initialized.
    pub fn get_usdc_token(&self) -> (a: Option<Address>)
        ensures
            a == self@.usdc_token,
    {
        self.usdc_token
    }

    /// The number of presets saved so far, deleted ones included.
    pub fn preset_count(&self) -> (n: usize)
        ensures
            n == self@.presets.len(),
    {
        self.presets.len()
    }

    /// The fees collected so far.
    pub fn get_accumulated_fees(&self) -> (f: u64)
        ensures
            f == self@.accumulated_fees,
    {
        self.accumulated_fees
    }

    /// Fails with `ContractPaused` exactly when the escrow is paused.
    pub fn require_not_paused(&self) -> (r: Result<(), ContractError>)
        ensures
            r == not_paused_result(self@),
    {
        if self.paused {
            return Err(ContractError::ContractPaused);
        }
        Ok(())
    }

    fn is_arbitrator(&self, a: Address) -> (b: bool)
        ensures
            b == self@.arbitrators.contains(a),
    {
        let mut i: usize = 0;
        while i < self.arbitrators.len()
            invariant
                i <= self.arbitrators@.len(),
                forall|j: int| 0 <= j < i ==> self.arbitrators@[j] != a,
            decreases self.arbitrators@.len() - i,
        {
            if self.arbitrators[i] == a {
                assert(self.arbitrators@.contains(a));
                return true;
            }
            i = i + 1;
        }
        false
    }

    fn compute_fee(amount: u64, fee_bps: u32) -> (fee: u64)
        requires
            fee_bps <= BPS_DENOMINATOR,
        ensures
            fee == fee_for(amount, fee_bps),
            fee <= amount,
    {
        assert((amount as int) * (fee_bps as int) <= 0xffff_ffff_ffff_ffff * 10000) by (nonlinear_arith)
            requires
                fee_bps <= 10000,
                amount <= 0xffff_ffff_ffff_ffffu64,
        ;
        let product: u128 = (amount as u128) * (fee_bps as u128);
        assert(product <= (amount as int) * 10000) by (nonlinear_arith)
            requires
                product == (amount as int) * (fee_bps as int),
                fee_bps <= 10000,
                amount >= 0,
        ;
        let fee: u128 = product / 10000;
        assert(fee <= amount) by (nonlinear_arith)
            requires
                fee == product / 10000,
                product <= (amount as int) * 10000,
                product >= 0,
        ;
        fee as u64
    }

    /// Opens a new trade between `seller` and `buyer` for `amount`, with the
    /// fee at the current rate, status `Created`, and `ledger` as the time of
    /// creation. Returns the new trade's id: one more than the number of
    /// trades so far.
    pub fn create_trade(
        &mut self,
        seller: Address,
        buyer: Address,
        amount: u64,
        arbitrator: Option<Address>,
        metadata: Option<TradeMetadata>,
        ledger: u32,
    ) -> (r: Result<u64, ContractError>)
        requires
            old(self).wf(),
            old(self)@.trades.len() < u32::MAX,
        ensures
            final(self).wf(),
            final(self)@ == step(
                old(self)@,
                EscrowOp::CreateTrade(seller, buyer, amount, arbitrator, metadata, ledger),
            ),
            match create_trade_error(old(self)@, amount, arbitrator, metadata) {
                Some(e) => r == Err::<u64, ContractError>(e) && final(self)@ == old(self)@,
                None => {
                    &&& r == Ok::<u64, ContractError>((old(self)@.trades.len() + 1) as u64)
                    &&& final(self)@ == after_create(
                        old(self)@,
                        seller,
                        buyer,
                        amount,
                        arbitrator,
                        metadata,
                        ledger,
                    )
                },
            },
    {
        if self.admin.is_none() {
            return Err(ContractError::NotInitialized);
        }
        self.require_not_paused()?;
        if amount == 0 {
            return Err(ContractError::InvalidAmount);
        }
        if let Some(a) = arbitrator {
            if !self.is_arbitrator(a) {
                return Err(ContractError::ArbitratorNotRegistered);
            }
        }
        if let Some(md) = &metadata {
            match validate_metadata(md) {
                Ok(()) => {},
                Err(e) => {
                    return Err(e);
                },
            }
        }
        let fee = Self::compute_fee(amount, self.fee_bps);
        let id: u64 = (self.trades.len() + 1) as u64;
        let trade = Trade {
            id,
            seller,
            buyer,
            amount,
            fee,
            arbitrator,
            status: TradeStatus::Created,
            created_at: ledger,
            updated_at: ledger,
            metadata,
        };
        self.trades.push(trade);
        let mut timeline: Vec<TimelineEntry> = Vec::new();
        timeline.push(TimelineEntry { status: TradeStatus::Created, ledger });
        self.timelines.push(timeline);
        assert(self@.timelines =~= old(self)@.timelines.push(
            seq![TimelineEntry { status: TradeStatus::Created, ledger }],
        ));
        Ok(id)
    }

    /// Cancels a trade that is still `Created`, recording `ledger` as the time
    /// of the change.
    pub fn cancel_trade(&mut self, trade_id: u64, ledger: u32) -> (r: Result<(), ContractError>)
        requires
            old(self).wf(),
        ensures
            final(self).wf(),
            final(self)@ == step(old(self)@, EscrowOp::CancelTrade(trade_id, ledger)),
            match cancel_trade_error(old(self)@, trade_id) {
                Some(e) => r == Err::<(), ContractError>(e) && final(self)@ == old(self)@,
                None => {
                    &&& r is Ok
                    &&& final(self)@ == after_cancel(old(self)@, trade_id, ledger)
                },
            },
    {
        self.require_not_paused()?;
        if trade_id == 0 || trade_id > self.trades.len() as u64 {
            return Err(ContractError::TradeNotFound);
        }
        let idx: usize = (trade_id - 1) as usize;
        if self.trades[idx].status != TradeStatus::Created {
            return Err(ContractError::InvalidStatus);
        }
        let ghost before = self@;
        self.trades[idx].status = TradeStatus::Cancelled;
        self.trades[idx].updated_at = ledger;
        assert(self@.trades =~= before.trades.update(
            idx as int,
            Trade { status: TradeStatus::Cancelled, updated_at: ledger, ..before.trades[idx as int] },
        ));
        let mut timeline: Vec<TimelineEntry> = self.timelines[idx].clone();
        assert(timeline@ =~= before.timelines[idx as int]);
        timeline.push(TimelineEntry { status: TradeStatus::Cancelled, ledger });
        self.timelines.set(idx, timeline);
        assert(self@.timelines =~= before.timelines.update(
            idx as int,
            before.timelines[idx as int].push(TimelineEntry { status: TradeStatus::Cancelled, ledger }),
        ));
        Ok(())
    }

    /// The stored state, field by field.
    pub fn into_parts(self) -> (p: EscrowParts)
        ensures
            p.model() == self@,
    {
        EscrowParts {
            admin: self.admin,
            usdc_token: self.usdc_token,
            fee_bps: self.fee_bps,
            paused: self.paused,
            accumulated_fees: self.accumulated_fees,
            trades: self.trades,
            arbitrators: self.arbitrators,
            presets: self.presets,
            timelines: self.timelines,
        }
    }

    /// The escrow whose state `p` holds, if that state keeps the invariant.
    pub fn from_parts(p: EscrowParts) -> (r: Option<Escrow>)
        ensures
            r is Some <==> p.model().wf(),
            r matches Some(e) ==> e@ == p.model() && e.wf(),
    {
        let ghost m = p.model();
        if p.admin.is_some() != p.usdc_token.is_some() || p.fee_bps > BPS_DENOMINATOR
            || p.trades.len() > u32::MAX as usize || p.presets.len() > u32::MAX as usize
            || p.timelines.len() != p.trades.len() {
            return None;
        }
        let mut i: usize = 0;
        while i < p.trades.len()
            invariant
                i <= p.trades@.len(),
                p.timelines@.len() == p.trades@.len(),
                m == p.model(),
                forall|j: int|
                    0 <= j < i ==> (#[trigger] m.trades[j]).id == j + 1 && m.trades[j].fee
                        <= m.trades[j].amount,
                forall|j: int|
                    0 <= j < i ==> (#[trigger] m.timelines[j]).len() > 0
                        && m.timelines[j].last().status == m.trades[j].status,
            decreases p.trades@.len() - i,
        {
            let t = &p.trades[i];
            let tl = &p.timelines[i];
            if t.id != (i as u64) + 1 || t.fee > t.amount || tl.len() == 0 || tl[tl.len()
                - 1].status != t.status {
                assert(m.trades[i as int] == *t);
                assert(m.timelines[i as int] == tl@);
                return None;
            }
            i = i + 1;
        }
        let mut k: usize = 0;
        while k < p.presets.len()
            invariant
                k <= p.presets@.len(),
                m == p.model(),
                forall|j: int|
                    0 <= j < k && (#[trigger] m.presets[j]) is Some ==> m.presets[j]->0.id == j + 1,
            decreases p.presets@.len() - k,
        {
            match &p.presets[k] {
                Some(preset) => {
                    if preset.id != (k as u64) + 1 {
                        return None;
                    }
                },
                None => {},
            }
            k = k + 1;
        }
        let e = Escrow {
            admin: p.admin,
            usdc_token: p.usdc_token,
            fee_bps: p.fee_bps,
            paused: p.paused,
            accumulated_fees: p.accumulated_fees,
            trades: p.trades,
            arbitrators: p.arbitrators,
            presets: p.presets,
            timelines: p.timelines,
        };
        Some(e)
    }

    pub(crate) fn trades_len(&self) -> (n: usize)
        ensures
            n == self@.trades.len(),
    {
        self.trades.len()
    }

    pub(crate) fn trade_at(&self, i: usize) -> (t: &Trade)
        requires
            i < self@.trades.len(),
        ensures
            *t == self@.trades[i as int],
    {
        &self.trades[i]
    }

    /// The status changes of trade `trade_id`, oldest first.
    pub fn get_trade_timeline(&self, trade_id: u64) -> (r: Result<Vec<TimelineEntry>, ContractError>)
        requires
            self.wf(),
        ensures
            self@.has_trade(trade_id) <==> r is Ok,
            r is Err ==> r == Err::<Vec<TimelineEntry>, ContractError>(ContractError::TradeNotFound),
            r matches Ok(t) ==> t@ == self@.timelines[trade_id - 1],
    {
        if trade_id == 0 || trade_id > self.trades.len() as u64 {
            return Err(ContractError::TradeNotFound);
        }
        let t = self.timelines[(trade_id - 1) as usize].clone();
        assert(t@ =~= self@.timelines[trade_id - 1]);
        Ok(t)
    }

    /// A copy of trade `trade_id`.
    pub fn get_trade(&self, trade_id: u64) -> (r: Result<Trade, ContractError>)
        requires
            self.wf(),
        ensures
            self@.has_trade(trade_id) <==> r is Ok,
            r is Err ==> r == Err::<Trade, ContractError>(ContractError::TradeNotFound),
            r matches Ok(t) ==> is_copy_of_trade(t, self@.trade(trade_id)),
    {
        if trade_id == 0 || trade_id > self.trades.len() as u64 {
            return Err(ContractError::TradeNotFound);
        }
        Ok(copy_trade(&self.trades[(trade_id - 1) as usize]))
    }
}

} // verus!
