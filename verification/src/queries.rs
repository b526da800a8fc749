//! Paged, filtered and sorted views of the stored trades: an account's
//! transaction history and the trade search.
//!
//! Every query selects the trades it matches, arranges them by a sort key
//! (ties keep the order in which the trades were created) and returns the
//! page that starts at `offset` and holds at most `limit` records, together
//! with the number of matching trades.
use vstd::prelude::*;
use crate::types::{
    is_record_of, Address, HistoryFilter, HistoryPage, SortCriterion, SortOrder, Trade,
    TradeFilter, TradeSearchPage, TradeSortField, TradeStatus, TransactionRecord,
};
use crate::errors::ContractError;
use crate::escrow::{record_of, Escrow, EscrowModel};
use crate::ordering::{
    arrangement, increasing, is_arrangement, lemma_arrangement_unique, lemma_insert_keeps_arrangement,
    lemma_positions_where, positions_where, sorts_after,
};

verus! {

/// `t` is a trade of account `a`: `a` sells or buys in it.
pub open spec fn involves(t: Trade, a: Address) -> bool {
    t.seller == a || t.buyer == a
}

/// `t` matches every condition that `f` sets.
pub open spec fn history_accepts(f: HistoryFilter, t: Trade) -> bool {
    &&& (f.status matches Some(s) ==> t.status == s)
    &&& (f.from_ledger matches Some(l) ==> l <= t.created_at)
    &&& (f.to_ledger matches Some(l) ==> t.created_at <= l)
}

/// `t` matches every condition that `f` sets.
pub open spec fn search_accepts(f: TradeFilter, t: Trade) -> bool {
    &&& (f.status matches Some(s) ==> t.status == s)
    &&& (f.min_amount matches Some(m) ==> m <= t.amount)
    &&& (f.max_amount matches Some(m) ==> t.amount <= m)
    &&& (f.from_ledger matches Some(l) ==> l <= t.created_at)
    &&& (f.to_ledger matches Some(l) ==> t.created_at <= l)
    &&& (f.seller matches Some(s) ==> t.seller == s)
    &&& (f.buyer matches Some(b) ==> t.buyer == b)
}

/// The error a search with filter `f` is refused with, if any: a minimum
/// above its maximum.
pub open spec fn search_error(f: TradeFilter) -> Option<ContractError> {
    if f.min_amount matches Some(lo) && f.max_amount matches Some(hi) && lo > hi {
        Some(ContractError::InvalidAmountRange)
    } else if f.from_ledger matches Some(lo) && f.to_ledger matches Some(hi) && lo > hi {
        Some(ContractError::InvalidLedgerRange)
    } else {
        None
    }
}

/// The value of field `field` of trade `t`, by which trades are sorted.
pub open spec fn sort_key(t: Trade, field: TradeSortField) -> int {
    match field {
        TradeSortField::CreatedAt => t.created_at as int,
        TradeSortField::UpdatedAt => t.updated_at as int,
        TradeSortField::Amount => t.amount as int,
        TradeSortField::Fee => t.fee as int,
    }
}

/// The sort key of the trade at each position of `trades`.
pub open spec fn key_of(trades: Seq<Trade>, field: TradeSortField) -> spec_fn(usize) -> int {
    |p: usize| sort_key(trades[p as int], field)
}

/// The number of records on the page at `offset` of at most `limit`
/// records, out of `total`.
pub open spec fn page_len(total: int, offset: u32, limit: u32) -> int {
    if offset >= total {
        0
    } else if total - offset < limit {
        total - offset
    } else {
        limit as int
    }
}

/// What a query selects.
#[derive(Clone, Copy, Debug)]
pub enum Query {
    /// The trades of an account that a history filter accepts.
    History(Address, HistoryFilter),
    /// The trades that a search filter accepts.
    Search(TradeFilter),
    /// The trades of an account that a search filter accepts.
    AccountSearch(Address, TradeFilter),
}

pub open spec fn query_accepts(q: Query, t: Trade) -> bool {
    match q {
        Query::History(a, f) => involves(t, a) && history_accepts(f, t),
        Query::Search(f) => search_accepts(f, t),
        Query::AccountSearch(a, f) => involves(t, a) && search_accepts(f, t),
    }
}

pub open spec fn query_pred(trades: Seq<Trade>, q: Query) -> spec_fn(int) -> bool {
    |p: int| query_accepts(q, trades[p])
}

impl EscrowModel {
    /// The positions of the trades that query `q` selects, in creation order.
    pub open spec fn selected(self, q: Query) -> Seq<usize> {
        positions_where(self.trades.len(), query_pred(self.trades, q))
    }

    /// `positions` in the order of `sort`.
    pub open spec fn sorted(self, positions: Seq<usize>, sort: SortCriterion) -> Seq<usize> {
        arrangement(positions, key_of(self.trades, sort.field), sort.order)
    }

    /// `records` is the page of the trades at `positions` that starts at
    /// `offset` and holds at most `limit` records.
    pub open spec fn is_page(
        self,
        records: Seq<TransactionRecord>,
        positions: Seq<usize>,
        offset: u32,
        limit: u32,
    ) -> bool {
        &&& records.len() == page_len(positions.len() as int, offset, limit)
        &&& forall|k: int|
            0 <= k < records.len() ==> is_record_of(
                #[trigger] records[k],
                self.trades[positions[offset + k] as int],
            )
    }

    /// The page of query `q` under `sort`, with the number of trades it selects.
    pub open spec fn is_query_result(
        self,
        records: Seq<TransactionRecord>,
        total: u32,
        q: Query,
        sort: SortCriterion,
        offset: u32,
        limit: u32,
    ) -> bool {
        &&& total == self.selected(q).len()
        &&& self.is_page(records, self.sorted(self.selected(q), sort), offset, limit)
    }
}

/// The sort order of a history: by creation ledger.
pub open spec fn history_sort(order: SortOrder) -> SortCriterion {
    SortCriterion { field: TradeSortField::CreatedAt, order }
}

fn option_matches_status(want: Option<TradeStatus>, status: TradeStatus) -> (b: bool)
    ensures
        b == (want matches Some(s) ==> status == s),
{
    match want {
        Some(s) => s == status,
        None => true,
    }
}

fn at_least_u32(lo: Option<u32>, v: u32) -> (b: bool)
    ensures
        b == (lo matches Some(l) ==> l <= v),
{
    match lo {
        Some(l) => l <= v,
        None => true,
    }
}

fn at_most_u32(hi: Option<u32>, v: u32) -> (b: bool)
    ensures
        b == (hi matches Some(h) ==> v <= h),
{
    match hi {
        Some(h) => v <= h,
        None => true,
    }
}

fn at_least_u64(lo: Option<u64>, v: u64) -> (b: bool)
    ensures
        b == (lo matches Some(l) ==> l <= v),
{
    match lo {
        Some(l) => l <= v,
        None => true,
    }
}

fn at_most_u64(hi: Option<u64>, v: u64) -> (b: bool)
    ensures
        b == (hi matches Some(h) ==> v <= h),
{
    match hi {
        Some(h) => v <= h,
        None => true,
    }
}

fn same_address(want: Option<Address>, a: Address) -> (b: bool)
    ensures
        b == (want matches Some(w) ==> a == w),
{
    match want {
        Some(w) => a == w,
        None => true,
    }
}

fn history_accepts_exec(f: &HistoryFilter, t: &Trade) -> (b: bool)
    ensures
        b == history_accepts(*f, *t),
{
    option_matches_status(f.status, t.status) && at_least_u32(f.from_ledger, t.created_at)
        && at_most_u32(f.to_ledger, t.created_at)
}

fn search_accepts_exec(f: &TradeFilter, t: &Trade) -> (b: bool)
    ensures
        b == search_accepts(*f, *t),
{
    option_matches_status(f.status, t.status) && at_least_u64(f.min_amount, t.amount)
        && at_most_u64(f.max_amount, t.amount) && at_least_u32(f.from_ledger, t.created_at)
        && at_most_u32(f.to_ledger, t.created_at) && same_address(f.seller, t.seller)
        && same_address(f.buyer, t.buyer)
}

fn query_accepts_exec(q: &Query, t: &Trade) -> (b: bool)
    ensures
        b == query_accepts(*q, *t),
{
    match q {
        Query::History(a, f) => (t.seller == *a || t.buyer == *a) && history_accepts_exec(f, t),
        Query::Search(f) => search_accepts_exec(f, t),
        Query::AccountSearch(a, f) => (t.seller == *a || t.buyer == *a) && search_accepts_exec(
            f,
            t,
        ),
    }
}

/// Refuses a search filter whose minimum lies above its maximum.
pub fn check_search_filter(f: &TradeFilter) -> (r: Result<(), ContractError>)
    ensures
        r == match search_error(*f) {
            Some(e) => Err(e),
            None => Ok(()),
        },
{
    if let (Some(lo), Some(hi)) = (f.min_amount, f.max_amount) {
        if lo > hi {
            return Err(ContractError::InvalidAmountRange);
        }
    }
    if let (Some(lo), Some(hi)) = (f.from_ledger, f.to_ledger) {
        if lo > hi {
            return Err(ContractError::InvalidLedgerRange);
        }
    }
    Ok(())
}

fn sort_key_exec(t: &Trade, field: TradeSortField) -> (k: u64)
    ensures
        k == sort_key(*t, field),
{
    match field {
        TradeSortField::CreatedAt => t.created_at as u64,
        TradeSortField::UpdatedAt => t.updated_at as u64,
        TradeSortField::Amount => t.amount,
        TradeSortField::Fee => t.fee,
    }
}

/// Whether key `k` sorts after key `kx` in `order`.
fn sorts_after_exec(k: u64, kx: u64, order: SortOrder) -> (b: bool)
    ensures
        b == sorts_after(k as int, kx as int, order),
{
    match order {
        SortOrder::Ascending => k > kx,
        SortOrder::Descending => k < kx,
    }
}

impl Escrow {
    /// The positions of the trades that `q` selects, in creation order.
    pub(crate) fn select(&self, q: &Query) -> (sel: Vec<usize>)
        requires
            self.wf(),
        ensures
            sel@ == self@.selected(*q),
    {
        let ghost trades = self@.trades;
        let n = self.trades_len();
        let mut sel: Vec<usize> = Vec::new();
        let mut i: usize = 0;
        while i < n
            invariant
                n == trades.len(),
                i <= n,
                trades == self@.trades,
                sel@ == positions_where(i as nat, query_pred(trades, *q)),
            decreases n - i,
        {
            if query_accepts_exec(q, self.trade_at(i)) {
                sel.push(i);
            }
            i = i + 1;
        }
        sel
    }

    /// The positions in `members` arranged in the order of `sort`.
    pub(crate) fn arrange(&self, members: &Vec<usize>, sort: SortCriterion) -> (r: Vec<usize>)
        requires
            self.wf(),
            increasing(members@),
            forall|i: int| 0 <= i < members@.len() ==> #[trigger] members@[i] < self@.trades.len(),
        ensures
            is_arrangement(r@, members@, key_of(self@.trades, sort.field), sort.order),
            forall|i: int| 0 <= i < r@.len() ==> #[trigger] r@[i] < self@.trades.len(),
            r@.len() == members@.len(),
    {
        let ghost key = key_of(self@.trades, sort.field);
        let ghost order = sort.order;
        let mut r: Vec<usize> = Vec::new();
        let mut i: usize = 0;
        while i < members.len()
            invariant
                i <= members@.len(),
                increasing(members@),
                forall|j: int| 0 <= j < members@.len() ==> #[trigger] members@[j] < self@.trades.len(),
                key == key_of(self@.trades, sort.field),
                order == sort.order,
                is_arrangement(r@, members@.take(i as int), key, order),
                r@.len() == i,
                forall|j: int| 0 <= j < r@.len() ==> #[trigger] r@[j] < self@.trades.len(),
            decreases members@.len() - i,
        {
            let x = members[i];
            let kx = sort_key_exec(self.trade_at(x), sort.field);
            let mut p: usize = 0;
            while p < r.len() && !sorts_after_exec(sort_key_exec(self.trade_at(r[p]), sort.field), kx, sort.order)
                invariant
                    p <= r@.len(),
                    forall|j: int| 0 <= j < r@.len() ==> #[trigger] r@[j] < self@.trades.len(),
                    forall|q: int| 0 <= q < p ==> !sorts_after(key(#[trigger] r@[q]), kx as int, order),
                    key == key_of(self@.trades, sort.field),
                    order == sort.order,
                    kx == key(x),
                decreases r@.len() - p,
            {
                p = p + 1;
            }
            proof {
                lemma_insert_keeps_arrangement(r@, members@, i as int, p as int, key, order);
            }
            r.insert(p, x);
            i = i + 1;
        }
        assert(members@.take(members@.len() as int) =~= members@);
        r
    }

    /// Records of the trades at `arranged[offset..]`, at most `limit` of them.
    fn page(&self, arranged: &Vec<usize>, offset: u32, limit: u32) -> (records: Vec<
        TransactionRecord,
    >)
        requires
            self.wf(),
            forall|i: int| 0 <= i < arranged@.len() ==> #[trigger] arranged@[i] < self@.trades.len(),
        ensures
            self@.is_page(records@, arranged@, offset, limit),
    {
        let total = arranged.len();
        let mut records: Vec<TransactionRecord> = Vec::new();
        if (offset as usize) >= total {
            return records;
        }
        let start = offset as usize;
        let end: usize = if total - start < limit as usize {
            total
        } else {
            start + limit as usize
        };
        let mut k: usize = start;
        while k < end
            invariant
                start <= k <= end <= total,
                total == arranged@.len(),
                start == offset,
                end - start == page_len(total as int, offset, limit),
                records@.len() == k - start,
                forall|i: int| 0 <= i < arranged@.len() ==> #[trigger] arranged@[i] < self@.trades.len(),
                forall|j: int|
                    0 <= j < records@.len() ==> is_record_of(
                        #[trigger] records@[j],
                        self@.trades[arranged@[offset + j] as int],
                    ),
            decreases end - k,
        {
            let rec = record_of(self.trade_at(arranged[k]));
            records.push(rec);
            k = k + 1;
        }
        records
    }

    /// The page of query `q` under `sort`, with the number of trades it selects.
    fn run_query(&self, q: &Query, sort: SortCriterion, offset: u32, limit: u32) -> (r: (
        Vec<TransactionRecord>,
        u32,
    ))
        requires
            self.wf(),
        ensures
            self@.is_query_result(r.0@, r.1, *q, sort, offset, limit),
    {
        let sel = self.select(q);
        proof {
            lemma_positions_where(self@.trades.len(), query_pred(self@.trades, *q));
        }
        let arranged = self.arrange(&sel, sort);
        proof {
            lemma_arrangement_unique(arranged@, sel@, key_of(self@.trades, sort.field), sort.order);
        }
        let records = self.page(&arranged, offset, limit);
        (records, sel.len() as u32)
    }

    /// The trades in which `address` sells or buys and which `filter`
    /// accepts, ordered by creation ledger in `order`: the page at `offset`
    /// of at most `limit` records, and how many trades match in all.
    pub fn get_transaction_history(
        &self,
        address: Address,
        filter: &HistoryFilter,
        order: SortOrder,
        offset: u32,
        limit: u32,
    ) -> (page: HistoryPage)
        requires
            self.wf(),
        ensures
            self@.is_query_result(
                page.records@,
                page.total,
                Query::History(address, *filter),
                history_sort(order),
                offset,
                limit,
            ),
            page.offset == offset,
            page.limit == limit,
    {
        let q = Query::History(address, *filter);
        let (records, total) = self.run_query(
            &q,
            SortCriterion { field: TradeSortField::CreatedAt, order },
            offset,
            limit,
        );
        HistoryPage { records, total, offset, limit }
    }

    /// The trades that `filter` accepts, ordered by `sort`: the page at
    /// `offset` of at most `limit` records, and how many trades match in all.
    /// A filter whose minimum lies above its maximum is refused.
    pub fn search_trades(
        &self,
        filter: &TradeFilter,
        sort: &SortCriterion,
        offset: u32,
        limit: u32,
    ) -> (r: Result<TradeSearchPage, ContractError>)
        requires
            self.wf(),
        ensures
            search_error(*filter) matches Some(e) ==> r == Err::<TradeSearchPage, ContractError>(e),
            search_error(*filter) is None ==> (r matches Ok(page) && self@.is_query_result(
                page.records@,
                page.total,
                Query::Search(*filter),
                *sort,
                offset,
                limit,
            ) && page.offset == offset && page.limit == limit),
    {
        check_search_filter(filter)?;
        let q = Query::Search(*filter);
        let (records, total) = self.run_query(&q, *sort, offset, limit);
        Ok(TradeSearchPage { records, total, offset, limit })
    }

    /// Like `search_trades`, among the trades in which `address` sells or buys.
    pub fn search_trades_for_address(
        &self,
        address: Address,
        filter: &TradeFilter,
        sort: &SortCriterion,
        offset: u32,
        limit: u32,
    ) -> (r: Result<TradeSearchPage, ContractError>)
        requires
            self.wf(),
        ensures
            search_error(*filter) matches Some(e) ==> r == Err::<TradeSearchPage, ContractError>(e),
            search_error(*filter) is None ==> (r matches Ok(page) && self@.is_query_result(
                page.records@,
                page.total,
                Query::AccountSearch(address, *filter),
                *sort,
                offset,
                limit,
            ) && page.offset == offset && page.limit == limit),
    {
        check_search_filter(filter)?;
        let q = Query::AccountSearch(address, *filter);
        let (records, total) = self.run_query(&q, *sort, offset, limit);
        Ok(TradeSearchPage { records, total, offset, limit })
    }
}

} // verus!
