use stellar_escrow::{
    validate_metadata, Address, ContractError, Escrow, HistoryFilter, MetadataEntry,
    SortCriterion, SortOrder, TimelineEntry, TradeFilter, TradeMetadata, TradeSortField,
    TradeStatus,
};

const ADMIN: Address = Address { id: 1 };
const SELLER: Address = Address { id: 2 };
const BUYER: Address = Address { id: 3 };
const TOKEN: Address = Address { id: 4 };

fn ready() -> Escrow {
    let mut escrow = Escrow::new();
    escrow.initialize(ADMIN, TOKEN, 100).unwrap();
    escrow
}

fn any_trade() -> TradeFilter {
    TradeFilter {
        status: None,
        min_amount: None,
        max_amount: None,
        from_ledger: None,
        to_ledger: None,
        seller: None,
        buyer: None,
    }
}

fn all_history() -> HistoryFilter {
    HistoryFilter { status: None, from_ledger: None, to_ledger: None }
}

fn entry(key: &str, value_len: usize) -> MetadataEntry {
    MetadataEntry { key: key.as_bytes().to_vec(), value: vec![b'x'; value_len] }
}

#[test]
fn initialize_only_once() {
    let mut escrow = ready();
    assert_eq!(escrow.initialize(ADMIN, TOKEN, 50), Err(ContractError::AlreadyInitialized));
    assert_eq!(escrow.get_system_config().fee_bps, 100);
    assert_eq!(escrow.get_admin(), Some(ADMIN));
    assert_eq!(escrow.get_usdc_token(), Some(TOKEN));
}

#[test]
fn initialize_rejects_fee_above_whole() {
    let mut escrow = Escrow::new();
    assert_eq!(escrow.initialize(ADMIN, TOKEN, 10_001), Err(ContractError::InvalidFeeBps));
    assert_eq!(escrow.get_admin(), None);
    assert_eq!(escrow.initialize(ADMIN, TOKEN, 10_000), Ok(()));
}

#[test]
fn create_before_initialize_fails() {
    let mut escrow = Escrow::new();
    assert_eq!(
        escrow.create_trade(SELLER, BUYER, 1000, None, None, 0),
        Err(ContractError::NotInitialized)
    );
}

#[test]
fn create_while_paused_fails() {
    let mut escrow = ready();
    escrow.set_paused(true).unwrap();
    assert_eq!(escrow.require_not_paused(), Err(ContractError::ContractPaused));
    assert_eq!(
        escrow.create_trade(SELLER, BUYER, 1000, None, None, 0),
        Err(ContractError::ContractPaused)
    );
    escrow.set_paused(false).unwrap();
    assert_eq!(escrow.require_not_paused(), Ok(()));
    assert_eq!(escrow.create_trade(SELLER, BUYER, 1000, None, None, 0), Ok(1));
}

#[test]
fn pause_before_initialize_fails() {
    let mut escrow = Escrow::new();
    assert_eq!(escrow.set_paused(true), Err(ContractError::NotInitialized));
}

#[test]
fn create_zero_amount_fails() {
    let mut escrow = ready();
    assert_eq!(
        escrow.create_trade(SELLER, BUYER, 0, None, None, 0),
        Err(ContractError::InvalidAmount)
    );
}

#[test]
fn create_with_unregistered_arbitrator_fails() {
    let mut escrow = ready();
    let arbitrator = Address { id: 9 };
    assert_eq!(
        escrow.create_trade(SELLER, BUYER, 1000, Some(arbitrator), None, 0),
        Err(ContractError::ArbitratorNotRegistered)
    );
    escrow.register_arbitrator(arbitrator).unwrap();
    assert_eq!(escrow.create_trade(SELLER, BUYER, 1000, Some(arbitrator), None, 0), Ok(1));
    escrow.remove_arbitrator(arbitrator).unwrap();
    assert_eq!(
        escrow.create_trade(SELLER, BUYER, 1000, Some(arbitrator), None, 0),
        Err(ContractError::ArbitratorNotRegistered)
    );
}

#[test]
fn register_arbitrator_twice_then_remove() {
    let mut escrow = ready();
    let arbitrator = Address { id: 9 };
    escrow.register_arbitrator(arbitrator).unwrap();
    escrow.register_arbitrator(arbitrator).unwrap();
    escrow.remove_arbitrator(arbitrator).unwrap();
    assert_eq!(
        escrow.create_trade(SELLER, BUYER, 1000, Some(arbitrator), None, 0),
        Err(ContractError::ArbitratorNotRegistered)
    );
}

#[test]
fn metadata_limits() {
    let ten: Vec<MetadataEntry> = (0..10).map(|_| entry("k", 256)).collect();
    assert_eq!(validate_metadata(&TradeMetadata { entries: ten.clone() }), Ok(()));
    let mut eleven = ten.clone();
    eleven.push(entry("k", 1));
    assert_eq!(
        validate_metadata(&TradeMetadata { entries: eleven }),
        Err(ContractError::MetadataTooManyEntries)
    );
    let long = vec![entry("a", 3), entry("b", 257)];
    assert_eq!(
        validate_metadata(&TradeMetadata { entries: long }),
        Err(ContractError::MetadataValueTooLong)
    );
    assert_eq!(validate_metadata(&TradeMetadata { entries: vec![] }), Ok(()));
}

#[test]
fn create_with_bad_metadata_fails_and_stores_nothing() {
    let mut escrow = ready();
    let too_long = TradeMetadata { entries: vec![entry("note", 300)] };
    assert_eq!(
        escrow.create_trade(SELLER, BUYER, 1000, None, Some(too_long), 0),
        Err(ContractError::MetadataValueTooLong)
    );
    assert_eq!(escrow.get_system_config().trade_counter, 0);
}

#[test]
fn trade_keeps_metadata_and_fee() {
    let mut escrow = ready();
    let meta = TradeMetadata { entries: vec![entry("note", 4)] };
    let id = escrow.create_trade(SELLER, BUYER, 12_345, None, Some(meta.clone()), 7).unwrap();
    let trade = escrow.get_trade(id).unwrap();
    assert_eq!(trade.id, 1);
    assert_eq!(trade.fee, 123); // 1% of 12345, rounded down
    assert_eq!(trade.status, TradeStatus::Created);
    assert_eq!(trade.created_at, 7);
    assert_eq!(trade.updated_at, 7);
    assert_eq!(trade.metadata, Some(meta.clone()));
    let page = escrow.get_transaction_history(SELLER, &all_history(), SortOrder::Ascending, 0, 10);
    assert_eq!(page.records[0].metadata, Some(meta));
}

#[test]
fn fee_follows_the_rate_in_force() {
    let mut escrow = ready();
    escrow.create_trade(SELLER, BUYER, 12_345, None, None, 0).unwrap();
    assert_eq!(escrow.update_fee(10_001), Err(ContractError::InvalidFeeBps));
    escrow.update_fee(250).unwrap();
    escrow.create_trade(SELLER, BUYER, 12_345, None, None, 0).unwrap();
    escrow.update_fee(10_000).unwrap();
    escrow.create_trade(SELLER, BUYER, u64::MAX, None, None, 0).unwrap();
    assert_eq!(escrow.get_trade(1).unwrap().fee, 123);
    assert_eq!(escrow.get_trade(2).unwrap().fee, 308);
    assert_eq!(escrow.get_trade(3).unwrap().fee, u64::MAX);
    assert_eq!(escrow.get_system_config().fee_bps, 10_000);
}

#[test]
fn cancel_rules() {
    let mut escrow = ready();
    assert_eq!(escrow.cancel_trade(1, 0), Err(ContractError::TradeNotFound));
    escrow.create_trade(SELLER, BUYER, 1000, None, None, 3).unwrap();
    assert_eq!(escrow.cancel_trade(0, 0), Err(ContractError::TradeNotFound));
    assert_eq!(escrow.cancel_trade(2, 0), Err(ContractError::TradeNotFound));
    escrow.set_paused(true).unwrap();
    assert_eq!(escrow.cancel_trade(1, 5), Err(ContractError::ContractPaused));
    escrow.set_paused(false).unwrap();
    assert_eq!(escrow.cancel_trade(1, 5), Ok(()));
    assert_eq!(escrow.cancel_trade(1, 6), Err(ContractError::InvalidStatus));
    let trade = escrow.get_trade(1).unwrap();
    assert_eq!(trade.status, TradeStatus::Cancelled);
    assert_eq!(trade.created_at, 3);
    assert_eq!(trade.updated_at, 5);
}

#[test]
fn timeline_records_each_change() {
    let mut escrow = ready();
    escrow.create_trade(SELLER, BUYER, 1000, None, None, 3).unwrap();
    assert_eq!(
        escrow.get_trade_timeline(1).unwrap(),
        vec![TimelineEntry { status: TradeStatus::Created, ledger: 3 }]
    );
    escrow.cancel_trade(1, 8).unwrap();
    assert_eq!(
        escrow.get_trade_timeline(1).unwrap(),
        vec![
            TimelineEntry { status: TradeStatus::Created, ledger: 3 },
            TimelineEntry { status: TradeStatus::Cancelled, ledger: 8 },
        ]
    );
    assert_eq!(escrow.get_trade_timeline(2), Err(ContractError::TradeNotFound));
}

#[test]
fn get_missing_trade_fails() {
    let escrow = ready();
    assert_eq!(escrow.get_trade(1), Err(ContractError::TradeNotFound));
    assert_eq!(escrow.get_trade(0), Err(ContractError::TradeNotFound));
}

#[test]
fn system_config_counts_trades() {
    let mut escrow = ready();
    escrow.create_trade(SELLER, BUYER, 1000, None, None, 0).unwrap();
    escrow.create_trade(SELLER, BUYER, 1000, None, None, 0).unwrap();
    let config = escrow.get_system_config();
    assert_eq!(config.trade_counter, 2);
    assert!(!config.is_paused);
    assert_eq!(config.accumulated_fees, 0);
    assert_eq!(escrow.get_accumulated_fees(), 0);
}

#[test]
fn csv_has_exact_lines_oldest_first() {
    let mut escrow = ready();
    escrow.create_trade(SELLER, BUYER, 1000, None, None, 7).unwrap();
    escrow.create_trade(BUYER, SELLER, 250, None, None, 2).unwrap();
    escrow.create_trade(Address { id: 8 }, Address { id: 9 }, 5, None, None, 1).unwrap();
    escrow.cancel_trade(2, 11).unwrap();
    let csv = escrow.export_transaction_csv(SELLER, &all_history());
    assert_eq!(
        csv,
        "trade_id,seller,buyer,amount,fee,status,created_at,updated_at\n\
         2,3,2,250,2,Cancelled,2,11\n\
         1,2,3,1000,10,Created,7,7\n"
    );
    let empty = escrow.export_transaction_csv(Address { id: 42 }, &all_history());
    assert_eq!(empty, "trade_id,seller,buyer,amount,fee,status,created_at,updated_at\n");
}

#[test]
fn equal_keys_keep_creation_order() {
    let mut escrow = ready();
    escrow.create_trade(SELLER, BUYER, 300, None, None, 0).unwrap();
    escrow.create_trade(SELLER, BUYER, 100, None, None, 0).unwrap();
    escrow.create_trade(SELLER, BUYER, 300, None, None, 0).unwrap();
    escrow.create_trade(SELLER, BUYER, 100, None, None, 0).unwrap();
    let asc = SortCriterion { field: TradeSortField::Amount, order: SortOrder::Ascending };
    let page = escrow.search_trades(&any_trade(), &asc, 0, 10).unwrap();
    let ids: Vec<u64> = page.records.iter().map(|r| r.trade_id).collect();
    assert_eq!(ids, vec![2, 4, 1, 3]);
    let desc = SortCriterion { field: TradeSortField::Amount, order: SortOrder::Descending };
    let page = escrow.search_trades(&any_trade(), &desc, 0, 10).unwrap();
    let ids: Vec<u64> = page.records.iter().map(|r| r.trade_id).collect();
    assert_eq!(ids, vec![1, 3, 2, 4]);
}

#[test]
fn sort_by_fee_and_updated_at() {
    let mut escrow = ready();
    escrow.create_trade(SELLER, BUYER, 5000, None, None, 1).unwrap();
    escrow.create_trade(SELLER, BUYER, 1000, None, None, 2).unwrap();
    escrow.create_trade(SELLER, BUYER, 3000, None, None, 3).unwrap();
    escrow.cancel_trade(1, 9).unwrap();
    let by_fee = SortCriterion { field: TradeSortField::Fee, order: SortOrder::Ascending };
    let page = escrow.search_trades(&any_trade(), &by_fee, 0, 10).unwrap();
    let fees: Vec<u64> = page.records.iter().map(|r| r.fee).collect();
    assert_eq!(fees, vec![10, 30, 50]);
    let by_update = SortCriterion { field: TradeSortField::UpdatedAt, order: SortOrder::Descending };
    let page = escrow.search_trades(&any_trade(), &by_update, 0, 10).unwrap();
    let ids: Vec<u64> = page.records.iter().map(|r| r.trade_id).collect();
    assert_eq!(ids, vec![1, 3, 2]);
}

#[test]
fn pages_follow_on_and_end() {
    let mut escrow = ready();
    for i in 0..7u64 {
        escrow.create_trade(SELLER, BUYER, 100 + i, None, None, i as u32).unwrap();
    }
    let asc = SortCriterion { field: TradeSortField::CreatedAt, order: SortOrder::Ascending };
    let first = escrow.search_trades(&any_trade(), &asc, 0, 3).unwrap();
    let second = escrow.search_trades(&any_trade(), &asc, 3, 3).unwrap();
    let both = escrow.search_trades(&any_trade(), &asc, 0, 6).unwrap();
    let joined: Vec<u64> =
        first.records.iter().chain(second.records.iter()).map(|r| r.trade_id).collect();
    let whole: Vec<u64> = both.records.iter().map(|r| r.trade_id).collect();
    assert_eq!(joined, whole);
    assert_eq!(whole, vec![1, 2, 3, 4, 5, 6]);
    let last = escrow.search_trades(&any_trade(), &asc, 6, 3).unwrap();
    assert_eq!(last.records.len(), 1);
    let beyond = escrow.search_trades(&any_trade(), &asc, 7, 3).unwrap();
    assert_eq!(beyond.records.len(), 0);
    assert_eq!(beyond.total, 7);
    assert_eq!(beyond.offset, 7);
    assert_eq!(beyond.limit, 3);
    let huge = escrow.search_trades(&any_trade(), &asc, u32::MAX, u32::MAX).unwrap();
    assert_eq!(huge.records.len(), 0);
    let all = escrow.search_trades(&any_trade(), &asc, 2, u32::MAX).unwrap();
    assert_eq!(all.records.len(), 5);
}

#[test]
fn history_records_all_match_the_filter() {
    let mut escrow = ready();
    let other = Address { id: 5 };
    escrow.create_trade(SELLER, BUYER, 100, None, None, 10).unwrap();
    escrow.create_trade(other, SELLER, 200, None, None, 20).unwrap();
    escrow.create_trade(other, BUYER, 300, None, None, 30).unwrap();
    escrow.create_trade(SELLER, other, 400, None, None, 40).unwrap();
    escrow.cancel_trade(4, 41).unwrap();
    let filter = HistoryFilter { status: Some(TradeStatus::Created), from_ledger: Some(15), to_ledger: None };
    let page = escrow.get_transaction_history(SELLER, &filter, SortOrder::Ascending, 0, 10);
    assert_eq!(page.total, 1);
    assert_eq!(page.records[0].trade_id, 2);
    for r in page.records.iter() {
        assert!(r.seller == SELLER || r.buyer == SELLER);
        assert_eq!(r.status, TradeStatus::Created);
        assert!(r.created_at >= 15);
    }
}

#[test]
fn account_search_covers_buyer_side() {
    let mut escrow = ready();
    let other = Address { id: 5 };
    escrow.create_trade(SELLER, BUYER, 100, None, None, 0).unwrap();
    escrow.create_trade(other, SELLER, 200, None, None, 0).unwrap();
    escrow.create_trade(other, BUYER, 300, None, None, 0).unwrap();
    let asc = SortCriterion { field: TradeSortField::CreatedAt, order: SortOrder::Ascending };
    let page = escrow.search_trades_for_address(SELLER, &any_trade(), &asc, 0, 10).unwrap();
    let ids: Vec<u64> = page.records.iter().map(|r| r.trade_id).collect();
    assert_eq!(ids, vec![1, 2]);
    let bad = TradeFilter { min_amount: Some(5), max_amount: Some(4), ..any_trade() };
    assert_eq!(
        escrow.search_trades_for_address(SELLER, &bad, &asc, 0, 10),
        Err(ContractError::InvalidAmountRange)
    );
}

#[test]
fn search_errors_name_the_range() {
    let escrow = ready();
    let asc = SortCriterion { field: TradeSortField::CreatedAt, order: SortOrder::Ascending };
    let amounts = TradeFilter { min_amount: Some(5), max_amount: Some(4), ..any_trade() };
    assert_eq!(escrow.search_trades(&amounts, &asc, 0, 10), Err(ContractError::InvalidAmountRange));
    let ledgers = TradeFilter { from_ledger: Some(5), to_ledger: Some(4), ..any_trade() };
    assert_eq!(escrow.search_trades(&ledgers, &asc, 0, 10), Err(ContractError::InvalidLedgerRange));
    let equal = TradeFilter { min_amount: Some(5), max_amount: Some(5), ..any_trade() };
    assert!(escrow.search_trades(&equal, &asc, 0, 10).is_ok());
}

#[test]
fn preset_rules() {
    let mut escrow = ready();
    let asc = SortCriterion { field: TradeSortField::CreatedAt, order: SortOrder::Ascending };
    assert_eq!(
        escrow.save_filter_preset(SELLER, vec![b'n'; 65], any_trade(), asc, 0),
        Err(ContractError::PresetNameTooLong)
    );
    for _ in 0..20 {
        escrow.save_filter_preset(SELLER, vec![b'n'; 64], any_trade(), asc, 0).unwrap();
    }
    assert_eq!(
        escrow.save_filter_preset(SELLER, b"one more".to_vec(), any_trade(), asc, 0),
        Err(ContractError::TooManyPresets)
    );
    // another user is not limited by the seller's presets
    assert_eq!(escrow.save_filter_preset(BUYER, b"mine".to_vec(), any_trade(), asc, 3), Ok(21));
    escrow.delete_filter_preset(SELLER, 1).unwrap();
    assert_eq!(escrow.save_filter_preset(SELLER, b"again".to_vec(), any_trade(), asc, 0), Ok(22));
    assert_eq!(escrow.get_filter_preset(1), Err(ContractError::PresetNotFound));
    assert_eq!(escrow.get_filter_preset(23), Err(ContractError::PresetNotFound));
    assert_eq!(escrow.delete_filter_preset(SELLER, 1), Err(ContractError::PresetNotFound));
    assert_eq!(
        escrow.update_filter_preset(SELLER, 21, b"x".to_vec(), any_trade(), asc, 4),
        Err(ContractError::Unauthorized)
    );
    assert_eq!(
        escrow.update_filter_preset(BUYER, 21, vec![b'n'; 65], any_trade(), asc, 4),
        Err(ContractError::PresetNameTooLong)
    );
    assert_eq!(escrow.search_with_preset(1, 0, 10), Err(ContractError::PresetNotFound));
    let listed = escrow.list_filter_presets(BUYER);
    assert_eq!(listed.len(), 1);
    assert_eq!(listed[0].id, 21);
    assert_eq!(listed[0].name, b"mine".to_vec());
    assert_eq!(listed[0].created_at, 3);
}

#[test]
fn updated_preset_keeps_creation_time() {
    let mut escrow = ready();
    let asc = SortCriterion { field: TradeSortField::CreatedAt, order: SortOrder::Ascending };
    let desc = SortCriterion { field: TradeSortField::Amount, order: SortOrder::Descending };
    let id = escrow.save_filter_preset(SELLER, b"a".to_vec(), any_trade(), asc, 2).unwrap();
    escrow.update_filter_preset(SELLER, id, b"b".to_vec(), any_trade(), desc, 9).unwrap();
    let p = escrow.get_filter_preset(id).unwrap();
    assert_eq!(p.name, b"b".to_vec());
    assert_eq!(p.sort, desc);
    assert_eq!(p.created_at, 2);
    assert_eq!(p.updated_at, 9);
    assert_eq!(p.owner, SELLER);
}

#[test]
fn preset_search_uses_its_sort() {
    let mut escrow = ready();
    escrow.create_trade(SELLER, BUYER, 100, None, None, 0).unwrap();
    escrow.create_trade(SELLER, BUYER, 300, None, None, 0).unwrap();
    escrow.create_trade(SELLER, BUYER, 200, None, None, 0).unwrap();
    let desc = SortCriterion { field: TradeSortField::Amount, order: SortOrder::Descending };
    let id = escrow.save_filter_preset(BUYER, b"by amount".to_vec(), any_trade(), desc, 0).unwrap();
    let page = escrow.search_with_preset(id, 1, 10).unwrap();
    let amounts: Vec<u64> = page.records.iter().map(|r| r.amount).collect();
    assert_eq!(amounts, vec![200, 100]);
    assert_eq!(page.total, 3);
    let bad = TradeFilter { from_ledger: Some(9), to_ledger: Some(1), ..any_trade() };
    let bad_id = escrow.save_filter_preset(BUYER, b"bad".to_vec(), bad, desc, 0).unwrap();
    assert_eq!(escrow.search_with_preset(bad_id, 0, 10), Err(ContractError::InvalidLedgerRange));
}

#[test]
fn pause_flag_holds_until_set_again() {
    let mut escrow = ready();
    escrow.create_trade(SELLER, BUYER, 1000, None, None, 0).unwrap();
    escrow.set_paused(true).unwrap();
    escrow.update_fee(200).unwrap();
    escrow.register_arbitrator(Address { id: 9 }).unwrap();
    escrow
        .save_filter_preset(SELLER, b"p".to_vec(), any_trade(), SortCriterion {
            field: TradeSortField::Amount,
            order: SortOrder::Ascending,
        }, 0)
        .unwrap();
    assert_eq!(escrow.initialize(ADMIN, TOKEN, 100), Err(ContractError::AlreadyInitialized));
    assert_eq!(escrow.require_not_paused(), Err(ContractError::ContractPaused));
    assert_eq!(escrow.cancel_trade(9, 1), Err(ContractError::ContractPaused));
    escrow.set_paused(false).unwrap();
    escrow.remove_arbitrator(Address { id: 9 }).unwrap();
    escrow.delete_filter_preset(SELLER, 1).unwrap();
    assert_eq!(escrow.require_not_paused(), Ok(()));
    assert_eq!(escrow.cancel_trade(1, 2), Ok(()));
}
