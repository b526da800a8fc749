//! Properties of the escrow that hold across its operations.
use vstd::prelude::*;
use crate::types::{
    is_record_of, Address, TimelineEntry, HistoryFilter, SortCriterion, TradeFilter, TradeMetadata,
    TradeSortField, TradeStatus, TransactionRecord,
};
use crate::escrow::{
    after_cancel, after_create, cancel_trade_error, create_trade_error, fee_for, EscrowModel,
    BPS_DENOMINATOR,
};
use crate::escrow::presets::{
    after_delete_preset, after_save_preset, after_update_preset, preset_access_error,
    save_preset_error,
};
use crate::ordering::{
    increasing, lemma_arrangement_exists, lemma_positions_where, positions_where, precedes,
    sorts_after,
};
use crate::errors::ContractError;
use crate::export::{decimal, digit_char};
use crate::operations::{not_paused_result, run, step, EscrowOp};
use crate::queries::{involves, key_of, page_len, query_accepts, query_pred, Query};

verus! {

/// The sort key of the trade that record `r` shows.
pub open spec fn record_sort_key(r: TransactionRecord, field: TradeSortField) -> int {
    match field {
        TradeSortField::CreatedAt => r.created_at as int,
        TradeSortField::UpdatedAt => r.updated_at as int,
        TradeSortField::Amount => r.amount as int,
        TradeSortField::Fee => r.fee as int,
    }
}

/// Record `r` meets every condition of query `q`.
pub open spec fn record_matches(q: Query, r: TransactionRecord) -> bool {
    let status_ok = |want: Option<TradeStatus>| want matches Some(s) ==> r.status == s;
    let from_ok = |lo: Option<u32>| lo matches Some(l) ==> l <= r.created_at;
    let to_ok = |hi: Option<u32>| hi matches Some(h) ==> r.created_at <= h;
    let search_ok = |f: TradeFilter|
        {
            &&& status_ok(f.status)
            &&& (f.min_amount matches Some(lo) ==> lo <= r.amount)
            &&& (f.max_amount matches Some(hi) ==> r.amount <= hi)
            &&& from_ok(f.from_ledger)
            &&& to_ok(f.to_ledger)
            &&& (f.seller matches Some(s) ==> r.seller == s)
            &&& (f.buyer matches Some(b) ==> r.buyer == b)
        };
    match q {
        Query::History(a, f) => (r.seller == a || r.buyer == a) && status_ok(f.status) && from_ok(
            f.from_ledger,
        ) && to_ok(f.to_ledger),
        Query::Search(f) => search_ok(f),
        Query::AccountSearch(a, f) => (r.seller == a || r.buyer == a) && search_ok(f),
    }
}

/// A query selects exactly the trades it accepts, each once, in creation order.
pub proof fn lemma_selected_are_the_matches(m: EscrowModel, q: Query)
    requires
        m.wf(),
    ensures
        forall|p: usize| #[trigger]
            m.selected(q).contains(p) <==> p < m.trades.len() && query_accepts(q, m.trades[p as int]),
        increasing(m.selected(q)),
        m.selected(q).len() <= m.trades.len(),
{
    lemma_positions_where(m.trades.len(), query_pred(m.trades, q));
}

/// Every record on a page of a query meets the query's conditions: a
/// history holds only trades of its account that its filter accepts, and a
/// search only trades that its filter accepts.
pub proof fn lemma_page_shows_only_matches(
    m: EscrowModel,
    records: Seq<TransactionRecord>,
    total: u32,
    q: Query,
    sort: SortCriterion,
    offset: u32,
    limit: u32,
)
    requires
        m.wf(),
        m.is_query_result(records, total, q, sort, offset, limit),
    ensures
        forall|k: int| 0 <= k < records.len() ==> record_matches(q, #[trigger] records[k]),
{
    let sel = m.selected(q);
    lemma_selected_are_the_matches(m, q);
    lemma_arrangement_exists(sel, key_of(m.trades, sort.field), sort.order);
    let arr = m.sorted(sel, sort);
    assert forall|k: int| 0 <= k < records.len() implies record_matches(q, #[trigger] records[k]) by {
        let p = arr[offset + k];
        assert(arr.contains(p));
        assert(sel.contains(p));
        assert(is_record_of(records[k], m.trades[p as int]));
    }
}

/// The records on a page come in the order of the sort criterion: no record
/// sorts after a record that follows it.
pub proof fn lemma_page_in_sort_order(
    m: EscrowModel,
    records: Seq<TransactionRecord>,
    total: u32,
    q: Query,
    sort: SortCriterion,
    offset: u32,
    limit: u32,
)
    requires
        m.wf(),
        m.is_query_result(records, total, q, sort, offset, limit),
    ensures
        forall|k1: int, k2: int|
            0 <= k1 < k2 < records.len() ==> !sorts_after(
                record_sort_key(#[trigger] records[k1], sort.field),
                record_sort_key(#[trigger] records[k2], sort.field),
                sort.order,
            ),
{
    let sel = m.selected(q);
    lemma_selected_are_the_matches(m, q);
    lemma_arrangement_exists(sel, key_of(m.trades, sort.field), sort.order);
    let arr = m.sorted(sel, sort);
    assert forall|k1: int, k2: int| 0 <= k1 < k2 < records.len() implies !sorts_after(
        record_sort_key(#[trigger] records[k1], sort.field),
        record_sort_key(#[trigger] records[k2], sort.field),
        sort.order,
    ) by {
        let p1 = arr[offset + k1];
        let p2 = arr[offset + k2];
        assert(precedes(
            key_of(m.trades, sort.field)(p1),
            p1 as int,
            key_of(m.trades, sort.field)(p2),
            p2 as int,
            sort.order,
        ));
        assert(is_record_of(records[k1], m.trades[p1 as int]));
        assert(is_record_of(records[k2], m.trades[p2 as int]));
    }
}

/// A page of `limit` records followed by the next page of `limit` records
/// together hold as many records as one page of twice the size.
pub proof fn lemma_pages_follow_on(total: int, offset: u32, limit: u32)
    requires
        0 <= total,
        offset + limit + limit <= u32::MAX,
    ensures
        page_len(total, offset, limit) + page_len(total, (offset + limit) as u32, limit) == page_len(
            total,
            offset,
            (limit + limit) as u32,
        ),
{
}

/// The page that starts where another page of the same query ends holds
/// the trades that follow, so paging shows every matching trade once.
pub proof fn lemma_next_page_continues(
    m: EscrowModel,
    first: Seq<TransactionRecord>,
    second: Seq<TransactionRecord>,
    both: Seq<TransactionRecord>,
    positions: Seq<usize>,
    offset: u32,
    limit: u32,
)
    requires
        offset + limit + limit <= u32::MAX,
        m.is_page(first, positions, offset, limit),
        m.is_page(second, positions, (offset + limit) as u32, limit),
        m.is_page(both, positions, offset, (limit + limit) as u32),
    ensures
        both.len() == first.len() + second.len(),
        forall|k: int|
            0 <= k < first.len() ==> is_record_of(#[trigger] first[k], m.trades[positions[offset + k] as int])
                && is_record_of(both[k], m.trades[positions[offset + k] as int]),
        first.len() < limit ==> second.len() == 0,
        forall|k: int|
            0 <= k < second.len() ==> is_record_of(
                #[trigger] second[k],
                m.trades[positions[offset + first.len() + k] as int],
            ) && is_record_of(both[first.len() + k], m.trades[positions[offset + first.len() + k] as int]),
{
    lemma_pages_follow_on(positions.len() as int, offset, limit);
    assert forall|k: int| 0 <= k < second.len() implies is_record_of(
        #[trigger] second[k],
        m.trades[positions[offset + first.len() + k] as int],
    ) && is_record_of(both[first.len() + k], m.trades[positions[offset + first.len() + k] as int]) by {
        assert(first.len() == limit);
    }
}

/// A search without conditions selects every trade, in creation order.
pub proof fn lemma_empty_filter_selects_all(m: EscrowModel, f: TradeFilter)
    requires
        m.wf(),
        f.status is None,
        f.min_amount is None,
        f.max_amount is None,
        f.from_ledger is None,
        f.to_ledger is None,
        f.seller is None,
        f.buyer is None,
    ensures
        m.selected(Query::Search(f)) == Seq::new(m.trades.len(), |i: int| i as usize),
{
    lemma_all_positions(m.trades.len() as nat, query_pred(m.trades, Query::Search(f)));
}

proof fn lemma_all_positions(n: nat, pred: spec_fn(int) -> bool)
    requires
        forall|p: int| 0 <= p < n ==> #[trigger] pred(p),
    ensures
        positions_where(n, pred) == Seq::new(n, |i: int| i as usize),
    decreases n,
{
    if n > 0 {
        lemma_all_positions((n - 1) as nat, pred);
        assert(pred(n - 1));
        assert(Seq::new(n, |i: int| i as usize) =~= Seq::new((n - 1) as nat, |i: int| i as usize).push(
            (n - 1) as usize,
        ));
    } else {
        assert(Seq::new(n, |i: int| i as usize) =~= Seq::<usize>::empty());
    }
}

/// A new trade shows at once in the histories of its seller and of its
/// buyer, with status `Created`.
pub proof fn lemma_new_trade_in_histories(
    m: EscrowModel,
    seller: Address,
    buyer: Address,
    amount: u64,
    arbitrator: Option<Address>,
    metadata: Option<TradeMetadata>,
    ledger: u32,
    f: HistoryFilter,
)
    requires
        m.wf(),
        m.trades.len() < u32::MAX,
        create_trade_error(m, amount, arbitrator, metadata) is None,
        f.status is None || f.status == Some(TradeStatus::Created),
        f.from_ledger is None || f.from_ledger->0 <= ledger,
        f.to_ledger is None || ledger <= f.to_ledger->0,
    ensures
        ({
            let m2 = after_create(m, seller, buyer, amount, arbitrator, metadata, ledger);
            let pos = m.trades.len() as usize;
            &&& m2.selected(Query::History(seller, f)).contains(pos)
            &&& m2.selected(Query::History(buyer, f)).contains(pos)
            &&& m2.trades[pos as int].status == TradeStatus::Created
            &&& m2.trades[pos as int].id == m.trades.len() + 1
        }),
{
    let m2 = after_create(m, seller, buyer, amount, arbitrator, metadata, ledger);
    let pos = m.trades.len() as usize;
    lemma_fee_at_most_amount(amount, m.fee_bps);
    assert(m2.wf());
    lemma_selected_are_the_matches(m2, Query::History(seller, f));
    lemma_selected_are_the_matches(m2, Query::History(buyer, f));
    assert(query_accepts(Query::History(seller, f), m2.trades[pos as int]));
    assert(query_accepts(Query::History(buyer, f), m2.trades[pos as int]));
}

/// Creating a trade keeps the invariant, and the fee it takes is the
/// rounded-down share of the amount at the current rate, never more than
/// the amount.
pub proof fn lemma_create_keeps_invariant(
    m: EscrowModel,
    seller: Address,
    buyer: Address,
    amount: u64,
    arbitrator: Option<Address>,
    metadata: Option<TradeMetadata>,
    ledger: u32,
)
    requires
        m.wf(),
        m.trades.len() < u32::MAX,
        create_trade_error(m, amount, arbitrator, metadata) is None,
    ensures
        after_create(m, seller, buyer, amount, arbitrator, metadata, ledger).wf(),
        fee_for(amount, m.fee_bps) <= amount,
{
    lemma_fee_at_most_amount(amount, m.fee_bps);
}

/// The fee never exceeds the amount.
pub proof fn lemma_fee_at_most_amount(amount: u64, fee_bps: u32)
    requires
        fee_bps <= BPS_DENOMINATOR,
    ensures
        0 <= fee_for(amount, fee_bps) <= amount,
{
    assert(0 <= (amount as int) * (fee_bps as int) <= (amount as int) * 10000) by (nonlinear_arith)
        requires
            fee_bps <= 10000,
    ;
    assert((amount as int) * (fee_bps as int) / 10000 <= amount) by (nonlinear_arith)
        requires
            0 <= (amount as int) * (fee_bps as int) <= (amount as int) * 10000,
    ;
}

/// A cancelled trade leaves the `Created` histories and shows in the
/// `Cancelled` ones; its timeline ends with the cancellation, and no other
/// trade changes.
pub proof fn lemma_cancel_moves_trade(m: EscrowModel, trade_id: u64, ledger: u32, a: Address)
    requires
        m.wf(),
        cancel_trade_error(m, trade_id) is None,
        involves(m.trade(trade_id), a),
    ensures
        ({
            let m2 = after_cancel(m, trade_id, ledger);
            let pos = (trade_id - 1) as usize;
            let cancelled = HistoryFilter {
                status: Some(TradeStatus::Cancelled),
                from_ledger: None,
                to_ledger: None,
            };
            let created = HistoryFilter {
                status: Some(TradeStatus::Created),
                from_ledger: None,
                to_ledger: None,
            };
            &&& m2.wf()
            &&& m2.selected(Query::History(a, cancelled)).contains(pos)
            &&& !m2.selected(Query::History(a, created)).contains(pos)
            &&& m2.timelines[pos as int].last().status == TradeStatus::Cancelled
            &&& forall|i: int| 0 <= i < m.trades.len() && i != pos ==> m2.trades[i] == m.trades[i]
        }),
{
    let m2 = after_cancel(m, trade_id, ledger);
    let pos = (trade_id - 1) as usize;
    let cancelled = HistoryFilter {
        status: Some(TradeStatus::Cancelled),
        from_ledger: None,
        to_ledger: None,
    };
    let created = HistoryFilter { status: Some(TradeStatus::Created), from_ledger: None, to_ledger: None };
    assert(m2.wf());
    lemma_selected_are_the_matches(m2, Query::History(a, cancelled));
    lemma_selected_are_the_matches(m2, Query::History(a, created));
    assert(query_accepts(Query::History(a, cancelled), m2.trades[pos as int]));
}

/// A saved preset can be read back, and is listed among its owner's presets.
pub proof fn lemma_saved_preset_reads_back(
    m: EscrowModel,
    owner: Address,
    name: Vec<u8>,
    filter: TradeFilter,
    sort: SortCriterion,
    ledger: u32,
)
    requires
        m.wf(),
        m.presets.len() < u32::MAX,
        save_preset_error(m, owner, name@) is None,
    ensures
        ({
            let m2 = after_save_preset(m, owner, name, filter, sort, ledger);
            let id = (m.presets.len() + 1) as u64;
            &&& m2.wf()
            &&& m2.has_preset(id)
            &&& m2.preset(id).owner == owner
            &&& m2.preset(id).filter == filter
            &&& m2.preset(id).sort == sort
            &&& m2.preset(id).name@ == name@
            &&& m2.presets_of(owner).contains((id - 1) as usize)
        }),
{
    let m2 = after_save_preset(m, owner, name, filter, sort, ledger);
    lemma_positions_where(
        m2.presets.len(),
        |p: int| m2.presets[p] is Some && m2.presets[p]->0.owner == owner,
    );
}

/// An updated preset reads back with its new name, filter and sort.
pub proof fn lemma_updated_preset_reads_back(
    m: EscrowModel,
    owner: Address,
    id: u64,
    name: Vec<u8>,
    filter: TradeFilter,
    sort: SortCriterion,
    ledger: u32,
)
    requires
        m.wf(),
        preset_access_error(m, owner, id) is None,
    ensures
        ({
            let m2 = after_update_preset(m, id, name, filter, sort, ledger);
            &&& m2.wf()
            &&& m2.has_preset(id)
            &&& m2.preset(id).owner == owner
            &&& m2.preset(id).filter == filter
            &&& m2.preset(id).sort == sort
            &&& m2.preset(id).name@ == name@
            &&& m2.preset(id).created_at == m.preset(id).created_at
        }),
{
}

/// A deleted preset can no longer be read, nor is it listed; every other
/// preset stays as it was.
pub proof fn lemma_deleted_preset_is_gone(m: EscrowModel, owner: Address, id: u64)
    requires
        m.wf(),
        preset_access_error(m, owner, id) is None,
    ensures
        ({
            let m2 = after_delete_preset(m, id);
            &&& m2.wf()
            &&& !m2.has_preset(id)
            &&& !m2.presets_of(owner).contains((id - 1) as usize)
            &&& forall|other: u64| other != id ==> m2.has_preset(other) == m.has_preset(other)
            &&& forall|other: u64| other != id && m.has_preset(other) ==> m2.preset(other) == m.preset(other)
        }),
{
    let m2 = after_delete_preset(m, id);
    lemma_positions_where(
        m2.presets.len(),
        |p: int| m2.presets[p] is Some && m2.presets[p]->0.owner == owner,
    );
}

/// Only `set_paused` changes the pause flag: every other operation, whether
/// it succeeds or is refused, leaves it as it was.
pub proof fn lemma_step_keeps_pause(m: EscrowModel, op: EscrowOp)
    requires
        !(op is SetPaused),
    ensures
        step(m, op).paused == m.paused,
{
}

/// Operations other than `set_paused`, however many and in whatever order,
/// leave the pause flag as it was.
pub proof fn lemma_run_keeps_pause(m: EscrowModel, ops: Seq<EscrowOp>)
    requires
        forall|i: int| 0 <= i < ops.len() ==> !(#[trigger] ops[i] is SetPaused),
    ensures
        run(m, ops).paused == m.paused,
    decreases ops.len(),
{
    if ops.len() > 0 {
        lemma_run_keeps_pause(m, ops.drop_last());
        lemma_step_keeps_pause(run(m, ops.drop_last()), ops.last());
    }
}

/// Running `a` and then `b` is running `a + b`.
pub proof fn lemma_run_concat(m: EscrowModel, a: Seq<EscrowOp>, b: Seq<EscrowOp>)
    ensures
        run(m, a + b) == run(run(m, a), b),
    decreases b.len(),
{
    if b.len() == 0 {
        assert(a + b =~= a);
    } else {
        lemma_run_concat(m, a, b.drop_last());
        assert((a + b).drop_last() =~= a + b.drop_last());
        assert((a + b).last() == b.last());
    }
}

/// Once `set_paused(paused)` has succeeded, `require_not_paused` answers by
/// that flag, whatever other operations come after: `ContractPaused` after
/// `set_paused(true)`, `Ok` after `set_paused(false)`.
pub proof fn lemma_last_set_paused_decides(
    m: EscrowModel,
    before: Seq<EscrowOp>,
    paused: bool,
    after: Seq<EscrowOp>,
)
    requires
        run(m, before).initialized(),
        forall|i: int| 0 <= i < after.len() ==> !(#[trigger] after[i] is SetPaused),
    ensures
        not_paused_result(run(m, before.push(EscrowOp::SetPaused(paused)) + after)) == (if paused {
            Err(ContractError::ContractPaused)
        } else {
            Ok(())
        }),
{
    let prefix = before.push(EscrowOp::SetPaused(paused));
    lemma_run_concat(m, prefix, after);
    assert(prefix.drop_last() =~= before);
    lemma_run_keeps_pause(run(m, prefix), after);
}

/// An escrow that is not paused, such as a new one, stays unpaused through
/// any operations but `set_paused`, `initialize` among them: every guarded
/// operation gets past `require_not_paused`.
pub proof fn lemma_unpaused_until_set_paused(m: EscrowModel, ops: Seq<EscrowOp>)
    requires
        !m.paused,
        forall|i: int| 0 <= i < ops.len() ==> !(#[trigger] ops[i] is SetPaused),
    ensures
        not_paused_result(run(m, ops)) == Ok::<(), ContractError>(()),
{
    lemma_run_keeps_pause(m, ops);
}

/// A search selects a trade exactly when the trade meets every condition
/// the filter sets: the status, the amount within `min_amount..=max_amount`,
/// the creation ledger within `from_ledger..=to_ledger`, the seller and the
/// buyer. Nothing else about the trade, such as when it last changed,
/// plays a part.
pub proof fn lemma_search_selects_exactly(m: EscrowModel, f: TradeFilter, p: usize)
    requires
        m.wf(),
        p < m.trades.len(),
    ensures
        m.selected(Query::Search(f)).contains(p) <==> {
            let t = m.trades[p as int];
            &&& (f.status is None || f.status == Some(t.status))
            &&& (f.min_amount is None || f.min_amount->0 <= t.amount)
            &&& (f.max_amount is None || t.amount <= f.max_amount->0)
            &&& (f.from_ledger is None || f.from_ledger->0 <= t.created_at)
            &&& (f.to_ledger is None || t.created_at <= f.to_ledger->0)
            &&& (f.seller is None || f.seller == Some(t.seller))
            &&& (f.buyer is None || f.buyer == Some(t.buyer))
        },
{
    lemma_selected_are_the_matches(m, Query::Search(f));
}

/// Like `lemma_search_selects_exactly`, among the trades of an account.
pub proof fn lemma_account_search_selects_exactly(
    m: EscrowModel,
    a: Address,
    f: TradeFilter,
    p: usize,
)
    requires
        m.wf(),
        p < m.trades.len(),
    ensures
        m.selected(Query::AccountSearch(a, f)).contains(p) <==> {
            let t = m.trades[p as int];
            &&& (t.seller == a || t.buyer == a)
            &&& (f.status is None || f.status == Some(t.status))
            &&& (f.min_amount is None || f.min_amount->0 <= t.amount)
            &&& (f.max_amount is None || t.amount <= f.max_amount->0)
            &&& (f.from_ledger is None || f.from_ledger->0 <= t.created_at)
            &&& (f.to_ledger is None || t.created_at <= f.to_ledger->0)
            &&& (f.seller is None || f.seller == Some(t.seller))
            &&& (f.buyer is None || f.buyer == Some(t.buyer))
        },
{
    lemma_selected_are_the_matches(m, Query::AccountSearch(a, f));
}

/// An account's history holds a trade exactly when the account sells or
/// buys in it, its status is the filter's status if one is set, and its
/// creation ledger lies within `from_ledger..=to_ledger`; when it last
/// changed plays no part.
pub proof fn lemma_history_selects_exactly(m: EscrowModel, a: Address, f: HistoryFilter, p: usize)
    requires
        m.wf(),
        p < m.trades.len(),
    ensures
        m.selected(Query::History(a, f)).contains(p) <==> {
            let t = m.trades[p as int];
            &&& (t.seller == a || t.buyer == a)
            &&& (f.status is None || f.status == Some(t.status))
            &&& (f.from_ledger is None || f.from_ledger->0 <= t.created_at)
            &&& (f.to_ledger is None || t.created_at <= f.to_ledger->0)
        },
{
    lemma_selected_are_the_matches(m, Query::History(a, f));
}

/// The number that a text of decimal digits stands for, the last digit the
/// units, each character `c` standing for `c - '0'`.
pub open spec fn decimal_value(s: Seq<char>) -> int
    decreases s.len(),
{
    if s.len() == 0 {
        0
    } else {
        decimal_value(s.drop_last()) * 10 + (s.last() as int - '0' as int)
    }
}

proof fn lemma_digit_char_value(d: nat)
    requires
        d < 10,
    ensures
        digit_char(d) as int - '0' as int == d,
        '0' <= digit_char(d) <= '9',
{
    assert('0' as int == 48);
    assert('1' as int == 49 && '2' as int == 50 && '3' as int == 51 && '4' as int == 52);
    assert('5' as int == 53 && '6' as int == 54 && '7' as int == 55 && '8' as int == 56);
    assert('9' as int == 57);
}

/// Every number written into the exported text reads back as itself: its
/// text consists of the characters `'0'..='9'` and stands for the number.
pub proof fn lemma_decimal_reads_back(n: nat)
    ensures
        decimal_value(decimal(n)) == n,
        decimal(n).len() >= 1,
        forall|i: int| 0 <= i < decimal(n).len() ==> '0' <= #[trigger] decimal(n)[i] <= '9',
    decreases n,
{
    lemma_digit_char_value(n % 10);
    if n >= 10 {
        lemma_decimal_reads_back(n / 10);
        let s = decimal(n);
        assert(s.drop_last() =~= decimal(n / 10));
        assert(s.last() == digit_char(n % 10));
        assert(decimal_value(s) == decimal_value(decimal(n / 10)) * 10 + (digit_char(n % 10) as int
            - '0' as int));
        assert(n == (n / 10) * 10 + n % 10);
        assert forall|i: int| 0 <= i < s.len() implies '0' <= #[trigger] s[i] <= '9' by {
            if i < s.len() - 1 {
                assert(s[i] == decimal(n / 10)[i]);
            }
        }
    } else {
        assert(decimal(n).drop_last() =~= Seq::<char>::empty());
        assert(n % 10 == n);
        assert(decimal_value(decimal(n)) == decimal_value(Seq::<char>::empty()) * 10 + (digit_char(n)
            as int - '0' as int));
    }
}

/// A trade that `create_trade` stores holds exactly what the call was given:
/// the next id, the seller, buyer, amount, arbitrator and metadata passed in,
/// the fee as the rounded-down share `amount * fee_bps / 10000`, status
/// `Created`, and the call's ledger as both creation and change time; its
/// timeline holds just that creation. No earlier trade changes.
pub proof fn lemma_created_trade_holds_arguments(
    m: EscrowModel,
    seller: Address,
    buyer: Address,
    amount: u64,
    arbitrator: Option<Address>,
    metadata: Option<TradeMetadata>,
    ledger: u32,
)
    requires
        m.wf(),
        m.trades.len() < u32::MAX,
        m.initialized(),
        !m.paused,
        amount > 0,
        arbitrator is None || m.arbitrators.contains(arbitrator->0),
        metadata is None || create_trade_error(m, amount, arbitrator, metadata) is None,
    ensures
        ({
            let m2 = step(m, EscrowOp::CreateTrade(seller, buyer, amount, arbitrator, metadata, ledger));
            let t = m2.trades[m.trades.len() as int];
            &&& m2.trades.len() == m.trades.len() + 1
            &&& t.id == m.trades.len() + 1
            &&& t.seller == seller
            &&& t.buyer == buyer
            &&& t.amount == amount
            &&& t.arbitrator == arbitrator
            &&& t.metadata == metadata
            &&& t.fee == (amount as int) * (m.fee_bps as int) / 10000
            &&& t.status == TradeStatus::Created
            &&& t.created_at == ledger
            &&& t.updated_at == ledger
            &&& m2.timelines[m.trades.len() as int] == seq![TimelineEntry { status: TradeStatus::Created, ledger }]
            &&& forall|i: int| 0 <= i < m.trades.len() ==> m2.trades[i] == m.trades[i]
        }),
{
    lemma_fee_at_most_amount(amount, m.fee_bps);
}

/// `create_trade` with no metadata is refused exactly when the escrow is
/// not initialized, is paused, the amount is zero, or the named arbitrator
/// is not registered.
pub proof fn lemma_create_refused_only_when(
    m: EscrowModel,
    seller: Address,
    buyer: Address,
    amount: u64,
    arbitrator: Option<Address>,
    ledger: u32,
)
    ensures
        create_trade_error(m, amount, arbitrator, None) is None <==> {
            &&& m.admin is Some
            &&& !m.paused
            &&& amount > 0
            &&& (arbitrator is None || m.arbitrators.contains(arbitrator->0))
        },
{
}

/// `cancel_trade` succeeds exactly on an unpaused escrow for an existing
/// trade whose status is `Created`, whatever its parties, amount, arbitrator
/// or metadata. It then makes that trade `Cancelled` as of the call's ledger,
/// keeps every other field of it and every other trade, and ends its
/// timeline with the cancellation.
pub proof fn lemma_cancel_succeeds_exactly(m: EscrowModel, trade_id: u64, ledger: u32)
    requires
        m.wf(),
    ensures
        cancel_trade_error(m, trade_id) is None <==> {
            &&& !m.paused
            &&& 1 <= trade_id <= m.trades.len()
            &&& m.trades[trade_id - 1].status == TradeStatus::Created
        },
        cancel_trade_error(m, trade_id) is None ==> ({
            let m2 = step(m, EscrowOp::CancelTrade(trade_id, ledger));
            let old_t = m.trades[trade_id - 1];
            let t = m2.trades[trade_id - 1];
            &&& m2.trades.len() == m.trades.len()
            &&& t.status == TradeStatus::Cancelled
            &&& t.updated_at == ledger
            &&& t.id == old_t.id && t.seller == old_t.seller && t.buyer == old_t.buyer
            &&& t.amount == old_t.amount && t.fee == old_t.fee && t.arbitrator == old_t.arbitrator
            &&& t.created_at == old_t.created_at && t.metadata == old_t.metadata
            &&& m2.timelines[trade_id - 1] == m.timelines[trade_id - 1].push(
                TimelineEntry { status: TradeStatus::Cancelled, ledger },
            )
            &&& forall|i: int| 0 <= i < m.trades.len() && i != trade_id - 1 ==> m2.trades[i] == m.trades[i]
        }),
        cancel_trade_error(m, trade_id) is Some ==> step(m, EscrowOp::CancelTrade(trade_id, ledger)) == m,
{
}

} // verus!
