//! The data of the escrow: trades, their records and the query types.
//!
//! Accounts are held as `Address` values: the number by which the host
//! environment knows an account. Byte strings (metadata, names) are held as
//! `Vec<u8>`, which is what the host's strings are.
use vstd::prelude::*;

verus! {

/// An account, by the number the host environment knows it by.
#[derive(Clone, Copy, Debug, PartialEq, Eq, Structural, Hash)]
pub struct Address {
    pub id: u64,
}

#[derive(Clone, Copy, Debug, PartialEq, Eq, Structural)]
pub enum TradeStatus {
    Created,
    Funded,
    Completed,
    Disputed,
    Cancelled,
}

#[derive(Clone, Copy, Debug, PartialEq, Eq, Structural)]
pub enum DisputeResolution {
    ReleaseToBuyer,
    ReleaseToSeller,
}

#[derive(Clone, Copy, Debug, PartialEq, Eq, Structural)]
pub enum SortOrder {
    Ascending,
    Descending,
}

/// One key/value pair of a trade's metadata.
#[derive(Clone, Debug, PartialEq, Eq)]
pub struct MetadataEntry {
    pub key: Vec<u8>,
    pub value: Vec<u8>,
}

/// Free-form metadata attached to a trade.
#[derive(Clone, Debug, PartialEq, Eq)]
pub struct TradeMetadata {
    pub entries: Vec<MetadataEntry>,
}

impl View for MetadataEntry {
    type V = (Seq<u8>, Seq<u8>);

    open spec fn view(&self) -> (Seq<u8>, Seq<u8>) {
        (self.key@, self.value@)
    }
}

impl View for TradeMetadata {
    type V = Seq<(Seq<u8>, Seq<u8>)>;

    open spec fn view(&self) -> Seq<(Seq<u8>, Seq<u8>)> {
        self.entries@.map_values(|e: MetadataEntry| e@)
    }
}

/// The content of optional metadata, as byte sequences.
pub open spec fn metadata_view(m: Option<TradeMetadata>) -> Option<Seq<(Seq<u8>, Seq<u8>)>> {
    match m {
        Some(x) => Some(x@),
        None => None,
    }
}

#[derive(Clone, Debug, PartialEq, Eq)]
pub struct Trade {
    pub id: u64,
    pub seller: Address,
    pub buyer: Address,
    pub amount: u64,
    pub fee: u64,
    pub arbitrator: Option<Address>,
    pub status: TradeStatus,
    pub created_at: u32,
    pub updated_at: u32,
    pub metadata: Option<TradeMetadata>,
}

/// A trade as it appears in a history or a search result.
#[derive(Clone, Debug, PartialEq, Eq)]
pub struct TransactionRecord {
    pub trade_id: u64,
    pub seller: Address,
    pub buyer: Address,
    pub amount: u64,
    pub fee: u64,
    pub status: TradeStatus,
    pub created_at: u32,
    pub updated_at: u32,
    pub metadata: Option<TradeMetadata>,
}

/// `r` shows trade `t`: every field of `r` is the field of `t` of that name.
pub open spec fn is_record_of(r: TransactionRecord, t: Trade) -> bool {
    &&& r.trade_id == t.id
    &&& r.seller == t.seller
    &&& r.buyer == t.buyer
    &&& r.amount == t.amount
    &&& r.fee == t.fee
    &&& r.status == t.status
    &&& r.created_at == t.created_at
    &&& r.updated_at == t.updated_at
    &&& metadata_view(r.metadata) == metadata_view(t.metadata)
}

pub const METADATA_MAX_VALUE_LEN: u32 = 256;

pub const METADATA_MAX_ENTRIES: u32 = 10;

// Fee tiers
pub const TIER_SILVER_THRESHOLD: u64 = 10_000_000_000;

pub const TIER_GOLD_THRESHOLD: u64 = 100_000_000_000;

#[derive(Clone, Copy, Debug, PartialEq, Eq, Structural)]
pub enum UserTier {
    Bronze,
    Silver,
    Gold,
    Custom,
}

#[derive(Clone, Copy, Debug, PartialEq, Eq, Structural)]
pub struct UserTierInfo {
    pub tier: UserTier,
    pub total_volume: u64,
    pub custom_fee_bps: Option<u32>,
}

#[derive(Clone, Copy, Debug, PartialEq, Eq, Structural)]
pub struct TierConfig {
    pub bronze_fee_bps: u32,
    pub silver_fee_bps: u32,
    pub gold_fee_bps: u32,
}

/// Which trades of an account a history shows; every field that is set must match.
#[derive(Clone, Copy, Debug, PartialEq, Eq, Structural)]
pub struct HistoryFilter {
    pub status: Option<TradeStatus>,
    pub from_ledger: Option<u32>,
    pub to_ledger: Option<u32>,
}

/// One page of an account's history: `total` counts every matching trade.
#[derive(Clone, Debug, PartialEq, Eq)]
pub struct HistoryPage {
    pub records: Vec<TransactionRecord>,
    pub total: u32,
    pub offset: u32,
    pub limit: u32,
}

// Trade templates
pub const TEMPLATE_NAME_MAX_LEN: u32 = 64;

pub const TEMPLATE_MAX_VERSIONS: u32 = 10;

#[derive(Clone, Debug, PartialEq, Eq)]
pub struct TemplateTerms {
    pub description: Vec<u8>,
    pub default_arbitrator: Option<Address>,
    pub fixed_amount: Option<u64>,
    pub default_metadata: Option<TradeMetadata>,
}

#[derive(Clone, Debug, PartialEq, Eq)]
pub struct TemplateVersion {
    pub version: u32,
    pub terms: TemplateTerms,
    pub created_at: u32,
}

#[derive(Clone, Debug, PartialEq, Eq)]
pub struct TradeTemplate {
    pub id: u64,
    pub owner: Address,
    pub name: Vec<u8>,
    pub current_version: u32,
    pub versions: Vec<TemplateVersion>,
    pub active: bool,
    pub created_at: u32,
    pub updated_at: u32,
}

// User management
#[derive(Clone, Copy, Debug, PartialEq, Eq, Structural)]
pub enum VerificationStatus {
    Unverified,
    Pending,
    Verified,
    Rejected,
}

#[derive(Clone, Debug, PartialEq, Eq)]
pub struct UserProfile {
    pub address: Address,
    pub username_hash: Vec<u8>,
    pub contact_hash: Vec<u8>,
    pub verification: VerificationStatus,
    pub registered_at: u32,
    pub updated_at: u32,
}

#[derive(Clone, Debug, PartialEq, Eq)]
pub struct UserPreference {
    pub key: Vec<u8>,
    pub value: Vec<u8>,
}

#[derive(Clone, Copy, Debug, PartialEq, Eq, Structural)]
pub struct UserAnalytics {
    pub address: Address,
    pub total_trades: u32,
    pub trades_as_seller: u32,
    pub trades_as_buyer: u32,
    pub total_volume: u64,
    pub completed_trades: u32,
    pub disputed_trades: u32,
    pub cancelled_trades: u32,
}

// Admin panel
#[derive(Clone, Copy, Debug, PartialEq, Eq, Structural)]
pub struct PlatformAnalytics {
    pub total_trades: u64,
    pub total_volume: u64,
    pub total_fees_collected: u64,
    pub active_trades: u64,
    pub completed_trades: u64,
    pub disputed_trades: u64,
    pub cancelled_trades: u64,
}

#[derive(Clone, Copy, Debug, PartialEq, Eq, Structural)]
pub struct SystemConfig {
    pub fee_bps: u32,
    pub is_paused: bool,
    pub trade_counter: u64,
    pub accumulated_fees: u64,
}

// Trade detail view
#[derive(Clone, Copy, Debug, PartialEq, Eq, Structural)]
pub struct TimelineEntry {
    pub status: TradeStatus,
    pub ledger: u32,
}

#[derive(Clone, Copy, Debug, PartialEq, Eq, Structural)]
pub enum TradeAction {
    Fund,
    Complete,
    ConfirmReceipt,
    RaiseDispute,
    Cancel,
    ResolveDispute,
}

#[derive(Clone, Debug, PartialEq, Eq)]
pub struct TradeDetail {
    pub trade: Trade,
    pub timeline: Vec<TimelineEntry>,
    pub available_actions: Vec<TradeAction>,
    pub seller_payout: u64,
}

// Filtering and sorting
/// Field to sort trades by.
#[derive(Clone, Copy, Debug, PartialEq, Eq, Structural)]
pub enum TradeSortField {
    CreatedAt,
    UpdatedAt,
    Amount,
    Fee,
}

/// A single sort criterion: field + direction.
#[derive(Clone, Copy, Debug, PartialEq, Eq, Structural)]
pub struct SortCriterion {
    pub field: TradeSortField,
    pub order: SortOrder,
}

/// Multi-criteria filter for trade search. All set fields are ANDed together.
#[derive(Clone, Copy, Debug, PartialEq, Eq, Structural)]
pub struct TradeFilter {
    /// Filter by trade status
    pub status: Option<TradeStatus>,
    /// Minimum trade amount (inclusive)
    pub min_amount: Option<u64>,
    /// Maximum trade amount (inclusive)
    pub max_amount: Option<u64>,
    /// Minimum created_at ledger (inclusive)
    pub from_ledger: Option<u32>,
    /// Maximum created_at ledger (inclusive)
    pub to_ledger: Option<u32>,
    /// Only return trades where this address is seller
    pub seller: Option<Address>,
    /// Only return trades where this address is buyer
    pub buyer: Option<Address>,
}

/// Paginated result of a trade search.
#[derive(Clone, Debug, PartialEq, Eq)]
pub struct TradeSearchPage {
    pub records: Vec<TransactionRecord>,
    pub total: u32,
    pub offset: u32,
    pub limit: u32,
}

/// Maximum number of presets a user can save.
pub const MAX_PRESETS_PER_USER: u32 = 20;

/// Maximum length of a preset name.
pub const PRESET_NAME_MAX_LEN: u32 = 64;

/// A saved filter preset owned by a user.
#[derive(Clone, Debug, PartialEq, Eq)]
pub struct FilterPreset {
    pub id: u64,
    pub owner: Address,
    pub name: Vec<u8>,
    pub filter: TradeFilter,
    pub sort: SortCriterion,
    pub created_at: u32,
    pub updated_at: u32,
}

/// `r` holds the same preset as `p`.
pub open spec fn is_copy_of_preset(r: FilterPreset, p: FilterPreset) -> bool {
    &&& r.id == p.id
    &&& r.owner == p.owner
    &&& r.name@ == p.name@
    &&& r.filter == p.filter
    &&& r.sort == p.sort
    &&& r.created_at == p.created_at
    &&& r.updated_at == p.updated_at
}

} // verus!
