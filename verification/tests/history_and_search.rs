use stellar_escrow::{
    Address, Escrow, HistoryFilter, SortCriterion, SortOrder, TradeFilter, TradeSortField,
    TradeStatus,
};

fn setup() -> (Escrow, Address, Address, Address) {
    let mut escrow = Escrow::new();
    let admin = Address { id: 1 };
    let seller = Address { id: 2 };
    let buyer = Address { id: 3 };
    let token = Address { id: 4 };
    escrow.initialize(admin, token, 100).unwrap(); // 1% fee
    (escrow, admin, seller, buyer)
}

fn no_filter() -> HistoryFilter {
    HistoryFilter { status: None, from_ledger: None, to_ledger: None }
}

fn empty_trade_filter() -> TradeFilter {
    TradeFilter {
        status: None,
        min_amount: None,
        max_amount: None,
        from_ledger: None,
        to_ledger: None,
        seller: None,
        buyer: None,
    }
}

fn sort_by_created_asc() -> SortCriterion {
    SortCriterion { field: TradeSortField::CreatedAt, order: SortOrder::Ascending }
}

// =============================================================================
// History
// =============================================================================

#[test]
fn test_history_empty_for_new_address() {
    let (escrow, _, seller, _) = setup();
    let page = escrow.get_transaction_history(seller, &no_filter(), SortOrder::Ascending, 0, 10);
    assert_eq!(page.total, 0);
    assert_eq!(page.records.len(), 0);
}

#[test]
fn test_history_shows_created_trade() {
    let (mut escrow, _, seller, buyer) = setup();
    let trade_id = escrow.create_trade(seller, buyer, 1000, None, None, 0).unwrap();
    let page = escrow.get_transaction_history(seller, &no_filter(), SortOrder::Ascending, 0, 10);
    assert_eq!(page.total, 1);
    let record = page.records.get(0).unwrap();
    assert_eq!(record.trade_id, trade_id);
    assert_eq!(record.amount, 1000);
    assert_eq!(record.status, TradeStatus::Created);
}

#[test]
fn test_history_visible_from_buyer_address() {
    let (mut escrow, _, seller, buyer) = setup();
    escrow.create_trade(seller, buyer, 500, None, None, 0).unwrap();
    let page = escrow.get_transaction_history(buyer, &no_filter(), SortOrder::Ascending, 0, 10);
    assert_eq!(page.total, 1);
}

#[test]
fn test_history_filter_by_status() {
    let (mut escrow, _, seller, buyer) = setup();
    escrow.create_trade(seller, buyer, 1000, None, None, 0).unwrap();
    escrow.create_trade(seller, buyer, 2000, None, None, 0).unwrap();
    escrow.cancel_trade(1, 0).unwrap();
    let filter = HistoryFilter { status: Some(TradeStatus::Cancelled), from_ledger: None, to_ledger: None };
    let page = escrow.get_transaction_history(seller, &filter, SortOrder::Ascending, 0, 10);
    assert_eq!(page.total, 1);
    assert_eq!(page.records.get(0).unwrap().status, TradeStatus::Cancelled);
}

#[test]
fn test_history_filter_by_ledger_range() {
    let (mut escrow, _, seller, buyer) = setup();
    escrow.create_trade(seller, buyer, 1000, None, None, 1).unwrap();
    escrow.create_trade(seller, buyer, 2000, None, None, 100).unwrap();
    let filter = HistoryFilter { status: None, from_ledger: Some(50), to_ledger: Some(200) };
    let page = escrow.get_transaction_history(seller, &filter, SortOrder::Ascending, 0, 10);
    assert_eq!(page.total, 1);
    assert_eq!(page.records.get(0).unwrap().amount, 2000);
}

#[test]
fn test_history_sort_descending() {
    let (mut escrow, _, seller, buyer) = setup();
    escrow.create_trade(seller, buyer, 100, None, None, 1).unwrap();
    escrow.create_trade(seller, buyer, 200, None, None, 10).unwrap();
    let page = escrow.get_transaction_history(seller, &no_filter(), SortOrder::Descending, 0, 10);
    assert_eq!(page.records.get(0).unwrap().amount, 200);
    assert_eq!(page.records.get(1).unwrap().amount, 100);
}

#[test]
fn test_history_pagination() {
    let (mut escrow, _, seller, buyer) = setup();
    for _ in 0..5 {
        escrow.create_trade(seller, buyer, 1000, None, None, 0).unwrap();
    }
    let page1 = escrow.get_transaction_history(seller, &no_filter(), SortOrder::Ascending, 0, 3);
    assert_eq!(page1.records.len(), 3);
    assert_eq!(page1.total, 5);
    let page2 = escrow.get_transaction_history(seller, &no_filter(), SortOrder::Ascending, 3, 3);
    assert_eq!(page2.records.len(), 2);
}

#[test]
fn test_export_csv_returns_header_and_rows() {
    let (mut escrow, _, seller, buyer) = setup();
    escrow.create_trade(seller, buyer, 1000, None, None, 0).unwrap();
    let csv = escrow.export_transaction_csv(
        seller,
        &HistoryFilter { status: None, from_ledger: None, to_ledger: None },
    );
    assert!(csv.len() > 0);
}

// =============================================================================
// Advanced filtering
// =============================================================================

#[test]
fn test_search_trades_empty_state() {
    let (escrow, _, _, _) = setup();
    let page = escrow.search_trades(&empty_trade_filter(), &sort_by_created_asc(), 0, 10).unwrap();
    assert_eq!(page.total, 0);
}

#[test]
fn test_search_trades_returns_all_without_filter() {
    let (mut escrow, _, seller, buyer) = setup();
    escrow.create_trade(seller, buyer, 1000, None, None, 0).unwrap();
    escrow.create_trade(seller, buyer, 2000, None, None, 0).unwrap();
    let page = escrow.search_trades(&empty_trade_filter(), &sort_by_created_asc(), 0, 10).unwrap();
    assert_eq!(page.total, 2);
}

#[test]
fn test_search_filter_by_status() {
    let (mut escrow, _, seller, buyer) = setup();
    escrow.create_trade(seller, buyer, 1000, None, None, 0).unwrap();
    escrow.create_trade(seller, buyer, 2000, None, None, 0).unwrap();
    escrow.cancel_trade(1, 0).unwrap();
    let filter = TradeFilter { status: Some(TradeStatus::Cancelled), ..empty_trade_filter() };
    let page = escrow.search_trades(&filter, &sort_by_created_asc(), 0, 10).unwrap();
    assert_eq!(page.total, 1);
    assert_eq!(page.records.get(0).unwrap().status, TradeStatus::Cancelled);
}

#[test]
fn test_search_filter_by_min_amount() {
    let (mut escrow, _, seller, buyer) = setup();
    escrow.create_trade(seller, buyer, 500, None, None, 0).unwrap();
    escrow.create_trade(seller, buyer, 2000, None, None, 0).unwrap();
    let filter = TradeFilter { min_amount: Some(1000), ..empty_trade_filter() };
    let page = escrow.search_trades(&filter, &sort_by_created_asc(), 0, 10).unwrap();
    assert_eq!(page.total, 1);
    assert_eq!(page.records.get(0).unwrap().amount, 2000);
}

#[test]
fn test_search_filter_by_max_amount() {
    let (mut escrow, _, seller, buyer) = setup();
    escrow.create_trade(seller, buyer, 500, None, None, 0).unwrap();
    escrow.create_trade(seller, buyer, 2000, None, None, 0).unwrap();
    let filter = TradeFilter { max_amount: Some(1000), ..empty_trade_filter() };
    let page = escrow.search_trades(&filter, &sort_by_created_asc(), 0, 10).unwrap();
    assert_eq!(page.total, 1);
    assert_eq!(page.records.get(0).unwrap().amount, 500);
}

#[test]
fn test_search_filter_by_amount_range() {
    let (mut escrow, _, seller, buyer) = setup();
    escrow.create_trade(seller, buyer, 100, None, None, 0).unwrap();
    escrow.create_trade(seller, buyer, 500, None, None, 0).unwrap();
    escrow.create_trade(seller, buyer, 5000, None, None, 0).unwrap();
    let filter = TradeFilter { min_amount: Some(200), max_amount: Some(1000), ..empty_trade_filter() };
    let page = escrow.search_trades(&filter, &sort_by_created_asc(), 0, 10).unwrap();
    assert_eq!(page.total, 1);
    assert_eq!(page.records.get(0).unwrap().amount, 500);
}

#[test]
fn test_search_filter_by_seller() {
    let (mut escrow, _, seller, buyer) = setup();
    let other_seller = Address { id: 5 };
    escrow.create_trade(seller, buyer, 1000, None, None, 0).unwrap();
    escrow.create_trade(other_seller, buyer, 2000, None, None, 0).unwrap();
    let filter = TradeFilter { seller: Some(seller), ..empty_trade_filter() };
    let page = escrow.search_trades(&filter, &sort_by_created_asc(), 0, 10).unwrap();
    assert_eq!(page.total, 1);
    assert_eq!(page.records.get(0).unwrap().seller, seller);
}

#[test]
fn test_search_filter_by_buyer() {
    let (mut escrow, _, seller, buyer) = setup();
    let other_buyer = Address { id: 5 };
    escrow.create_trade(seller, buyer, 1000, None, None, 0).unwrap();
    escrow.create_trade(seller, other_buyer, 2000, None, None, 0).unwrap();
    let filter = TradeFilter { buyer: Some(buyer), ..empty_trade_filter() };
    let page = escrow.search_trades(&filter, &sort_by_created_asc(), 0, 10).unwrap();
    assert_eq!(page.total, 1);
    assert_eq!(page.records.get(0).unwrap().buyer, buyer);
}

#[test]
fn test_search_multi_criteria_filter() {
    let (mut escrow, _, seller, buyer) = setup();
    escrow.create_trade(seller, buyer, 500, None, None, 0).unwrap();
    escrow.create_trade(seller, buyer, 1500, None, None, 0).unwrap();
    escrow.cancel_trade(1, 0).unwrap();
    // status=Cancelled AND amount>=200
    let filter = TradeFilter {
        status: Some(TradeStatus::Cancelled),
        min_amount: Some(200),
        ..empty_trade_filter()
    };
    let page = escrow.search_trades(&filter, &sort_by_created_asc(), 0, 10).unwrap();
    assert_eq!(page.total, 1);
    assert_eq!(page.records.get(0).unwrap().amount, 500);
}

#[test]
fn test_search_sort_by_amount_descending() {
    let (mut escrow, _, seller, buyer) = setup();
    escrow.create_trade(seller, buyer, 300, None, None, 0).unwrap();
    escrow.create_trade(seller, buyer, 100, None, None, 0).unwrap();
    escrow.create_trade(seller, buyer, 200, None, None, 0).unwrap();
    let sort = SortCriterion { field: TradeSortField::Amount, order: SortOrder::Descending };
    let page = escrow.search_trades(&empty_trade_filter(), &sort, 0, 10).unwrap();
    assert_eq!(page.records.get(0).unwrap().amount, 300);
    assert_eq!(page.records.get(1).unwrap().amount, 200);
    assert_eq!(page.records.get(2).unwrap().amount, 100);
}

#[test]
fn test_search_sort_by_amount_ascending() {
    let (mut escrow, _, seller, buyer) = setup();
    escrow.create_trade(seller, buyer, 300, None, None, 0).unwrap();
    escrow.create_trade(seller, buyer, 100, None, None, 0).unwrap();
    escrow.create_trade(seller, buyer, 200, None, None, 0).unwrap();
    let sort = SortCriterion { field: TradeSortField::Amount, order: SortOrder::Ascending };
    let page = escrow.search_trades(&empty_trade_filter(), &sort, 0, 10).unwrap();
    assert_eq!(page.records.get(0).unwrap().amount, 100);
    assert_eq!(page.records.get(2).unwrap().amount, 300);
}

#[test]
fn test_search_invalid_amount_range_returns_error() {
    let (escrow, _, _, _) = setup();
    let filter = TradeFilter { min_amount: Some(1000), max_amount: Some(100), ..empty_trade_filter() };
    assert!(escrow.search_trades(&filter, &sort_by_created_asc(), 0, 10).is_err());
}

#[test]
fn test_search_invalid_ledger_range_returns_error() {
    let (escrow, _, _, _) = setup();
    let filter = TradeFilter { from_ledger: Some(500), to_ledger: Some(100), ..empty_trade_filter() };
    assert!(escrow.search_trades(&filter, &sort_by_created_asc(), 0, 10).is_err());
}

#[test]
fn test_search_pagination() {
    let (mut escrow, _, seller, buyer) = setup();
    for _ in 0..5 {
        escrow.create_trade(seller, buyer, 1000, None, None, 0).unwrap();
    }
    let page1 = escrow.search_trades(&empty_trade_filter(), &sort_by_created_asc(), 0, 3).unwrap();
    assert_eq!(page1.records.len(), 3);
    assert_eq!(page1.total, 5);
    let page2 = escrow.search_trades(&empty_trade_filter(), &sort_by_created_asc(), 3, 3).unwrap();
    assert_eq!(page2.records.len(), 2);
}

#[test]
fn test_search_trades_for_address() {
    let (mut escrow, _, seller, buyer) = setup();
    let other = Address { id: 5 };
    escrow.create_trade(seller, buyer, 1000, None, None, 0).unwrap();
    escrow.create_trade(other, buyer, 2000, None, None, 0).unwrap();
    // seller's index only has trade 1
    let page = escrow
        .search_trades_for_address(seller, &empty_trade_filter(), &sort_by_created_asc(), 0, 10)
        .unwrap();
    assert_eq!(page.total, 1);
    assert_eq!(page.records.get(0).unwrap().amount, 1000);
}

// =============================================================================
// Filter presets
// =============================================================================

#[test]
fn test_save_and_retrieve_preset() {
    let (mut escrow, _, seller, _) = setup();
    let name = b"my preset".to_vec();
    let preset_id = escrow
        .save_filter_preset(seller, name, empty_trade_filter(), sort_by_created_asc(), 0)
        .unwrap();
    let preset = escrow.get_filter_preset(preset_id).unwrap();
    assert_eq!(preset.id, preset_id);
    assert_eq!(preset.owner, seller);
}

#[test]
fn test_list_presets_for_user() {
    let (mut escrow, _, seller, _) = setup();
    let name1 = b"preset one".to_vec();
    let name2 = b"preset two".to_vec();
    escrow.save_filter_preset(seller, name1, empty_trade_filter(), sort_by_created_asc(), 0).unwrap();
    escrow.save_filter_preset(seller, name2, empty_trade_filter(), sort_by_created_asc(), 0).unwrap();
    let presets = escrow.list_filter_presets(seller);
    assert_eq!(presets.len(), 2);
}

#[test]
fn test_update_preset() {
    let (mut escrow, _, seller, _) = setup();
    let name = b"original".to_vec();
    let preset_id = escrow
        .save_filter_preset(seller, name, empty_trade_filter(), sort_by_created_asc(), 0)
        .unwrap();
    let new_name = b"updated".to_vec();
    let new_filter = TradeFilter { min_amount: Some(100), ..empty_trade_filter() };
    escrow
        .update_filter_preset(seller, preset_id, new_name, new_filter, sort_by_created_asc(), 0)
        .unwrap();
    let preset = escrow.get_filter_preset(preset_id).unwrap();
    assert_eq!(preset.filter.min_amount, Some(100));
}

#[test]
fn test_delete_preset() {
    let (mut escrow, _, seller, _) = setup();
    let name = b"to delete".to_vec();
    let preset_id = escrow
        .save_filter_preset(seller, name, empty_trade_filter(), sort_by_created_asc(), 0)
        .unwrap();
    escrow.delete_filter_preset(seller, preset_id).unwrap();
    assert!(escrow.get_filter_preset(preset_id).is_err());
}

#[test]
fn test_delete_preset_removes_from_list() {
    let (mut escrow, _, seller, _) = setup();
    let name = b"p1".to_vec();
    let preset_id = escrow
        .save_filter_preset(seller, name, empty_trade_filter(), sort_by_created_asc(), 0)
        .unwrap();
    escrow.delete_filter_preset(seller, preset_id).unwrap();
    let presets = escrow.list_filter_presets(seller);
    assert_eq!(presets.len(), 0);
}

#[test]
fn test_unauthorized_delete_fails() {
    let (mut escrow, _, seller, buyer) = setup();
    let name = b"mine".to_vec();
    let preset_id = escrow
        .save_filter_preset(seller, name, empty_trade_filter(), sort_by_created_asc(), 0)
        .unwrap();
    assert!(escrow.delete_filter_preset(buyer, preset_id).is_err());
}

#[test]
fn test_search_with_preset() {
    let (mut escrow, _, seller, buyer) = setup();
    escrow.create_trade(seller, buyer, 500, None, None, 0).unwrap();
    escrow.create_trade(seller, buyer, 1500, None, None, 0).unwrap();
    let filter = TradeFilter { min_amount: Some(1000), ..empty_trade_filter() };
    let name = b"big trades".to_vec();
    let preset_id = escrow.save_filter_preset(seller, name, filter, sort_by_created_asc(), 0).unwrap();
    let page = escrow.search_with_preset(preset_id, 0, 10).unwrap();
    assert_eq!(page.total, 1);
    assert_eq!(page.records.get(0).unwrap().amount, 1500);
}

#[test]
fn test_preset_persistence_across_calls() {
    let (mut escrow, _, seller, _) = setup();
    let name = b"persistent".to_vec();
    let filter = TradeFilter { status: Some(TradeStatus::Created), ..empty_trade_filter() };
    let preset_id = escrow.save_filter_preset(seller, name, filter, sort_by_created_asc(), 0).unwrap();
    // Retrieve in a separate call
    let preset = escrow.get_filter_preset(preset_id).unwrap();
    assert_eq!(preset.filter.status, Some(TradeStatus::Created));
}
