//! A trade escrow: sellers open trades with buyers, and accounts page through
//! and search the trades they took part in.
pub mod errors;
pub mod escrow;
pub mod export;
pub mod laws;
pub mod operations;
pub mod ordering;
pub mod queries;
pub mod types;

pub use errors::ContractError;
pub use escrow::{validate_metadata, Escrow, EscrowModel, EscrowParts, BPS_DENOMINATOR};
pub use types::{
    Address, DisputeResolution, FilterPreset, HistoryFilter, HistoryPage, MetadataEntry,
    PlatformAnalytics, SortCriterion, SortOrder, SystemConfig, TemplateTerms, TemplateVersion,
    TierConfig, TimelineEntry, Trade, TradeAction, TradeDetail, TradeFilter, TradeMetadata,
    TradeSearchPage, TradeSortField, TradeStatus, TradeTemplate, TransactionRecord,
    UserAnalytics, UserPreference, UserProfile, UserTier, UserTierInfo, VerificationStatus,
};
