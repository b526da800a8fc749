//! Export of an account's history as comma-separated text.
//!
//! The text starts with a header line and has one line per trade, in the
//! order of the history sorted by ascending creation ledger:
//! `trade_id,seller,buyer,amount,fee,status,created_at,updated_at`, with
//! numbers in decimal, accounts by their number, and the status by name.
use vstd::prelude::*;
use crate::types::{Address, HistoryFilter, SortCriterion, SortOrder, Trade, TradeSortField, TradeStatus};
use crate::escrow::Escrow;
use crate::ordering::{lemma_arrangement_unique, lemma_positions_where};
use crate::queries::{history_sort, key_of, query_pred, Query};

verus! {

/// The character of decimal digit `d`.
pub open spec fn digit_char(d: nat) -> char {
    if d == 0 {
        '0'
    } else if d == 1 {
        '1'
    } else if d == 2 {
        '2'
    } else if d == 3 {
        '3'
    } else if d == 4 {
        '4'
    } else if d == 5 {
        '5'
    } else if d == 6 {
        '6'
    } else if d == 7 {
        '7'
    } else if d == 8 {
        '8'
    } else {
        '9'
    }
}

/// `n` written in decimal, without leading zeros.
pub open spec fn decimal(n: nat) -> Seq<char>
    decreases n,
{
    if n < 10 {
        seq![digit_char(n)]
    } else {
        decimal(n / 10).push(digit_char(n % 10))
    }
}

pub open spec fn status_name(s: TradeStatus) -> Seq<char> {
    match s {
        TradeStatus::Created => "Created"@,
        TradeStatus::Funded => "Funded"@,
        TradeStatus::Completed => "Completed"@,
        TradeStatus::Disputed => "Disputed"@,
        TradeStatus::Cancelled => "Cancelled"@,
    }
}

pub open spec fn csv_header() -> Seq<char> {
    "trade_id,seller,buyer,amount,fee,status,created_at,updated_at\n"@
}

/// The line of trade `t`.
pub open spec fn csv_line(t: Trade) -> Seq<char> {
    decimal(t.id as nat) + ","@ + decimal(t.seller.id as nat) + ","@ + decimal(t.buyer.id as nat)
        + ","@ + decimal(t.amount as nat) + ","@ + decimal(t.fee as nat) + ","@ + status_name(
        t.status,
    ) + ","@ + decimal(t.created_at as nat) + ","@ + decimal(t.updated_at as nat) + "\n"@
}

/// The lines of the trades at `positions`, in that order.
pub open spec fn csv_lines(trades: Seq<Trade>, positions: Seq<usize>) -> Seq<char>
    decreases positions.len(),
{
    if positions.len() == 0 {
        Seq::empty()
    } else {
        csv_lines(trades, positions.drop_last()) + csv_line(trades[positions.last() as int])
    }
}

fn append_digit(out: &mut String, d: u64)
    requires
        d < 10,
    ensures
        final(out)@ == old(out)@.push(digit_char(d as nat)),
{
    let ghost before = out@;
    if d == 0 {
        out.append("0");
        proof {
            reveal_strlit("0");
        }
    } else if d == 1 {
        out.append("1");
        proof {
            reveal_strlit("1");
        }
    } else if d == 2 {
        out.append("2");
        proof {
            reveal_strlit("2");
        }
    } else if d == 3 {
        out.append("3");
        proof {
            reveal_strlit("3");
        }
    } else if d == 4 {
        out.append("4");
        proof {
            reveal_strlit("4");
        }
    } else if d == 5 {
        out.append("5");
        proof {
            reveal_strlit("5");
        }
    } else if d == 6 {
        out.append("6");
        proof {
            reveal_strlit("6");
        }
    } else if d == 7 {
        out.append("7");
        proof {
            reveal_strlit("7");
        }
    } else if d == 8 {
        out.append("8");
        proof {
            reveal_strlit("8");
        }
    } else {
        out.append("9");
        proof {
            reveal_strlit("9");
        }
    }
    assert(out@ =~= before.push(digit_char(d as nat)));
}

/// Appends `n` in decimal.
fn append_decimal(out: &mut String, n: u64)
    ensures
        final(out)@ == old(out)@ + decimal(n as nat),
    decreases n,
{
    let ghost before = out@;
    if n >= 10 {
        append_decimal(out, n / 10);
    }
    append_digit(out, n % 10);
    proof {
        if n >= 10 {
            assert(out@ =~= before + decimal(n as nat));
        } else {
            assert(out@ =~= before + decimal(n as nat));
        }
    }
}

fn append_status(out: &mut String, s: TradeStatus)
    ensures
        final(out)@ == old(out)@ + status_name(s),
{
    match s {
        TradeStatus::Created => out.append("Created"),
        TradeStatus::Funded => out.append("Funded"),
        TradeStatus::Completed => out.append("Completed"),
        TradeStatus::Disputed => out.append("Disputed"),
        TradeStatus::Cancelled => out.append("Cancelled"),
    }
}

fn append_line(out: &mut String, t: &Trade)
    ensures
        final(out)@ == old(out)@ + csv_line(*t),
{
    let ghost before = out@;
    append_decimal(out, t.id);
    out.append(",");
    append_decimal(out, t.seller.id);
    out.append(",");
    append_decimal(out, t.buyer.id);
    out.append(",");
    append_decimal(out, t.amount);
    out.append(",");
    append_decimal(out, t.fee);
    out.append(",");
    append_status(out, t.status);
    out.append(",");
    append_decimal(out, t.created_at as u64);
    out.append(",");
    append_decimal(out, t.updated_at as u64);
    out.append("\n");
    assert(out@ =~= before + csv_line(*t));
}

impl Escrow {
    /// The history of `address` under `filter`, oldest first, as
    /// comma-separated text with a header line.
    pub fn export_transaction_csv(&self, address: Address, filter: &HistoryFilter) -> (csv: String)
        requires
            self.wf(),
        ensures
            csv@ == csv_header() + csv_lines(
                self@.trades,
                self@.sorted(
                    self@.selected(Query::History(address, *filter)),
                    history_sort(SortOrder::Ascending),
                ),
            ),
    {
        let q = Query::History(address, *filter);
        let sort = SortCriterion { field: TradeSortField::CreatedAt, order: SortOrder::Ascending };
        let sel = self.select(&q);
        proof {
            lemma_positions_where(self@.trades.len(), query_pred(self@.trades, q));
        }
        let arranged = self.arrange(&sel, sort);
        proof {
            lemma_arrangement_unique(arranged@, sel@, key_of(self@.trades, sort.field), sort.order);
        }
        let mut out = String::new();
        out.append("trade_id,seller,buyer,amount,fee,status,created_at,updated_at\n");
        let mut k: usize = 0;
        while k < arranged.len()
            invariant
                k <= arranged@.len(),
                forall|i: int| 0 <= i < arranged@.len() ==> #[trigger] arranged@[i] < self@.trades.len(),
                out@ == csv_header() + csv_lines(self@.trades, arranged@.take(k as int)),
            decreases arranged@.len() - k,
        {
            let t = self.trade_at(arranged[k]);
            append_line(&mut out, t);
            proof {
                assert(arranged@.take(k + 1).drop_last() =~= arranged@.take(k as int));
            }
            k = k + 1;
        }
        assert(arranged@.take(arranged@.len() as int) =~= arranged@);
        out
    }
}

} // verus!
