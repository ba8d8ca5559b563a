//! Trigger evaluation.
//!
//! One evaluation step matches every stored alert row against the quotes
//! fetched for this pass and collects the hashes of the rows whose trigger
//! condition holds. Rows missing any of symbol, price level or hash are
//! skipped, never an error; a row whose symbol has no quote is skipped as
//! well.

use vstd::prelude::*;
use crate::db::TableConfig;
use crate::price::{within_band, within_band_check};
use crate::row::{field_of, number_field_of, text_field_of, FieldValue, Row};
use crate::text::str_eq;

verus! {

/// A symbol/price pair obtained from the price provider for one pass.
pub struct Quote {
    pub symbol: String,
    /// Fixed-point units (see `price`).
    pub price: i64,
}

/// The quotes of a pass, as pairs of symbol text and price value.
pub open spec fn quotes_view(qs: Seq<Quote>) -> Seq<(Seq<char>, int)> {
    Seq::new(qs.len(), |i: int| (qs[i].symbol@, qs[i].price as int))
}

/// The comparison a row asks for: a one-sided breakout (`Sell`), a one-sided
/// breakdown (`Buy`), the legacy tolerance band when no direction is stored
/// (`Band`), or none at all when a direction is stored but unreadable
/// (`Inert`).
#[derive(Clone, Copy, Debug, PartialEq, Eq, Structural)]
pub enum TriggerRule {
    Sell,
    Buy,
    Band,
    Inert,
}

/// Whether `rule` fires for a threshold and a quoted price.
pub open spec fn rule_fires(rule: TriggerRule, level: int, quote: int) -> bool {
    match rule {
        TriggerRule::Sell => quote >= level,
        TriggerRule::Buy => quote <= level,
        TriggerRule::Band => within_band(level, quote),
        TriggerRule::Inert => false,
    }
}

/// The rule a row asks for, read from its `initial_direction` column: an
/// absent column means the legacy band; a present one that is not the text
/// `"sell"` or `"buy"` never fires.
pub open spec fn rule_of_row(row: Row) -> TriggerRule {
    match field_of(row@, "initial_direction"@) {
        Some(FieldValue::Text(d)) => if d@ == "sell"@ {
            TriggerRule::Sell
        } else if d@ == "buy"@ {
            TriggerRule::Buy
        } else {
            TriggerRule::Inert
        },
        Some(_) => TriggerRule::Inert,
        None => TriggerRule::Band,
    }
}

/// The alert a row describes — its symbol, threshold and hash — when all
/// three are present; `None` marks a malformed row, which is skipped.
pub open spec fn row_alert_parts(row: Row, cfg: TableConfig) -> Option<(Seq<char>, int, Seq<char>)> {
    match (
        text_field_of(row@, cfg.symbol_column_name@),
        number_field_of(row@, cfg.price_level_column_name@),
        text_field_of(row@, cfg.hash_column_name@),
    ) {
        (Some(sym), Some(level), Some(hash)) => Some((sym, level, hash)),
        _ => None,
    }
}

/// The price quoted for `symbol`, taking the first matching quote.
pub open spec fn quote_of(quotes: Seq<(Seq<char>, int)>, symbol: Seq<char>) -> Option<int>
    decreases quotes.len(),
{
    if quotes.len() == 0 {
        None
    } else if quotes[0].0 == symbol {
        Some(quotes[0].1)
    } else {
        quote_of(quotes.drop_first(), symbol)
    }
}

/// Whether a row's alert triggers against the quotes of this pass.
pub open spec fn row_triggered(row: Row, quotes: Seq<(Seq<char>, int)>, cfg: TableConfig) -> bool {
    match row_alert_parts(row, cfg) {
        Some(parts) => match quote_of(quotes, parts.0) {
            Some(q) => rule_fires(rule_of_row(row), parts.1, q),
            None => false,
        },
        None => false,
    }
}

/// The hashes of the triggering rows, in row order; a hash shared by two
/// triggering rows appears twice.
pub open spec fn triggered_hashes(
    rows: Seq<Row>,
    quotes: Seq<(Seq<char>, int)>,
    cfg: TableConfig,
) -> Seq<Seq<char>>
    decreases rows.len(),
{
    if rows.len() == 0 {
        Seq::empty()
    } else {
        let prefix = triggered_hashes(rows.drop_last(), quotes, cfg);
        match row_alert_parts(rows.last(), cfg) {
            Some(parts) => if row_triggered(rows.last(), quotes, cfg) {
                prefix.push(parts.2)
            } else {
                prefix
            },
            None => prefix,
        }
    }
}

/// Decides `rule_fires` for machine prices.
pub fn rule_fires_check(rule: TriggerRule, level: i64, quote: i64) -> (r: bool)
    ensures
        r == rule_fires(rule, level as int, quote as int),
{
    match rule {
        TriggerRule::Sell => quote >= level,
        TriggerRule::Buy => quote <= level,
        TriggerRule::Band => within_band_check(level, quote),
        TriggerRule::Inert => false,
    }
}

/// Reads the rule a row asks for.
pub fn read_rule(row: &Row) -> (r: TriggerRule)
    ensures
        r == rule_of_row(*row),
{
    match row.get("initial_direction") {
        Some(FieldValue::Text(d)) => {
            if str_eq(d.as_str(), "sell") {
                TriggerRule::Sell
            } else if str_eq(d.as_str(), "buy") {
                TriggerRule::Buy
            } else {
                TriggerRule::Inert
            }
        },
        Some(_) => TriggerRule::Inert,
        None => TriggerRule::Band,
    }
}

/// The price quoted for `symbol`, taking the first matching quote.
pub fn find_quote(quotes: &Vec<Quote>, symbol: &str) -> (r: Option<i64>)
    ensures
        match r {
            Some(p) => quote_of(quotes_view(quotes@), symbol@) == Some(p as int),
            None => quote_of(quotes_view(quotes@), symbol@) is None,
        },
{
    let ghost qv = quotes_view(quotes@);
    let n = quotes.len();
    let mut i: usize = 0;
    proof {
        assert(qv.skip(0) =~= qv);
    }
    while i < n
        invariant
            i <= n,
            n == quotes@.len(),
            qv == quotes_view(quotes@),
            qv.len() == n,
            quote_of(qv, symbol@) == quote_of(qv.skip(i as int), symbol@),
        decreases n - i,
    {
        proof {
            assert(qv.skip(i as int)[0] == qv[i as int]);
            assert(qv.skip(i as int).drop_first() =~= qv.skip(i as int + 1));
        }
        if str_eq(quotes[i].symbol.as_str(), symbol) {
            return Some(quotes[i].price);
        }
        i += 1;
    }
    proof {
        assert(qv.skip(n as int).len() == 0);
    }
    None
}

/// Collects the hashes of the rows that trigger against `quotes`, in row
/// order. The pure step of the evaluation pass: rows and quotes in, hashes
/// out, nothing else consulted.
pub fn check_triggered_alert_hashes(
    rows: &Vec<Row>,
    quotes: &Vec<Quote>,
    config: &TableConfig,
) -> (out: Vec<String>)
    ensures
        out.deep_view() == triggered_hashes(rows@, quotes_view(quotes@), *config),
{
    let mut out: Vec<String> = Vec::new();
    let n = rows.len();
    let mut i: usize = 0;
    proof {
        assert(rows@.take(0).len() == 0);
        assert(out.deep_view() =~= triggered_hashes(rows@.take(0), quotes_view(quotes@), *config));
    }
    while i < n
        invariant
            i <= n,
            n == rows@.len(),
            out.deep_view() == triggered_hashes(rows@.take(i as int), quotes_view(quotes@), *config),
        decreases n - i,
    {
        let ghost pre = out.deep_view();
        let row = &rows[i];
        let sym = row.get_text(config.symbol_column_name.as_str());
        let level = row.get_number(config.price_level_column_name.as_str());
        let hash = row.get_text(config.hash_column_name.as_str());
        match (sym, level, hash) {
            (Some(sym), Some(level), Some(hash)) => {
                match find_quote(quotes, sym.as_str()) {
                    Some(q) => {
                        let rule = read_rule(row);
                        if rule_fires_check(rule, level, q) {
                            out.push(hash.clone());
                        }
                    },
                    None => {},
                }
            },
            _ => {},
        }
        proof {
            assert(rows@.take(i as int + 1).drop_last() =~= rows@.take(i as int));
            assert(rows@.take(i as int + 1).last() == rows@[i as int]);
            match row_alert_parts(rows@[i as int], *config) {
                Some(parts) => {
                    if row_triggered(rows@[i as int], quotes_view(quotes@), *config) {
                        assert(out.deep_view() =~= pre.push(parts.2));
                    }
                },
                None => {},
            }
        }
        i += 1;
    }
    proof {
        assert(rows@.take(n as int) =~= rows@);
    }
    out
}

/// An evaluation step has no state of its own: over the same rows and the
/// same quotes it yields the same triggered hashes, however often it is run.
pub proof fn lemma_evaluation_deterministic(
    rows1: Seq<Row>,
    rows2: Seq<Row>,
    quotes1: Seq<(Seq<char>, int)>,
    quotes2: Seq<(Seq<char>, int)>,
    cfg: TableConfig,
)
    requires
        rows1 == rows2,
        quotes1 == quotes2,
    ensures
        triggered_hashes(rows1, quotes1, cfg) == triggered_hashes(rows2, quotes2, cfg),
{
}

/// A sell alert triggers exactly when the quote reached its level, a buy
/// alert exactly when the quote fell to it, and a legacy alert exactly
/// within the tolerance band around it.
pub proof fn lemma_trigger_rule(
    row: Row,
    quotes: Seq<(Seq<char>, int)>,
    cfg: TableConfig,
    sym: Seq<char>,
    level: int,
    hash: Seq<char>,
    q: int,
)
    requires
        row_alert_parts(row, cfg) == Some((sym, level, hash)),
        quote_of(quotes, sym) == Some(q),
    ensures
        rule_of_row(row) == TriggerRule::Sell ==> (row_triggered(row, quotes, cfg) <==> q
            >= level),
        rule_of_row(row) == TriggerRule::Buy ==> (row_triggered(row, quotes, cfg) <==> q
            <= level),
        rule_of_row(row) == TriggerRule::Band ==> (row_triggered(row, quotes, cfg)
            <==> within_band(level, q)),
{
}

/// Whether `row` has all three fields, triggers against `quotes`, and
/// stores the hash `h`.
pub open spec fn row_triggers_hash(
    row: Row,
    quotes: Seq<(Seq<char>, int)>,
    cfg: TableConfig,
    h: Seq<char>,
) -> bool {
    &&& row_triggered(row, quotes, cfg)
    &&& match row_alert_parts(row, cfg) {
        Some(parts) => parts.2 == h,
        None => false,
    }
}

/// The triggered hashes are exactly the hashes of the triggering rows: a
/// hash is collected iff some row with all three fields present triggers
/// under it — so a malformed row never shows up in the collection.
pub proof fn lemma_triggered_membership(
    rows: Seq<Row>,
    quotes: Seq<(Seq<char>, int)>,
    cfg: TableConfig,
)
    ensures
        forall|h: Seq<char>| #[trigger]
            triggered_hashes(rows, quotes, cfg).contains(h) <==> exists|i: int|
                0 <= i < rows.len() && row_triggers_hash(#[trigger] rows[i], quotes, cfg, h),
    decreases rows.len(),
{
    if rows.len() > 0 {
        let shorter = rows.drop_last();
        lemma_triggered_membership(shorter, quotes, cfg);
        let prefix = triggered_hashes(shorter, quotes, cfg);
        let whole = triggered_hashes(rows, quotes, cfg);
        assert forall|h: Seq<char>| #[trigger] whole.contains(h) implies exists|i: int|
            0 <= i < rows.len() && row_triggers_hash(#[trigger] rows[i], quotes, cfg, h) by {
            let k = choose|k: int| 0 <= k < whole.len() && whole[k] == h;
            if k < prefix.len() {
                assert(prefix.contains(h));
                let i = choose|i: int|
                    0 <= i < shorter.len() && row_triggers_hash(shorter[i], quotes, cfg, h);
                assert(rows[i] == shorter[i]);
                assert(row_triggers_hash(rows[i], quotes, cfg, h));
            } else {
                assert(row_triggers_hash(rows[rows.len() - 1], quotes, cfg, h));
            }
        }
        assert forall|h: Seq<char>|
            (exists|i: int|
                0 <= i < rows.len() && row_triggers_hash(
                    #[trigger] rows[i],
                    quotes,
                    cfg,
                    h,
                )) implies #[trigger] whole.contains(h) by {
            let i = choose|i: int|
                0 <= i < rows.len() && row_triggers_hash(rows[i], quotes, cfg, h);
            if i < rows.len() - 1 {
                assert(shorter[i] == rows[i]);
                assert(row_triggers_hash(shorter[i], quotes, cfg, h));
                assert(prefix.contains(h));
                let k = choose|k: int| 0 <= k < prefix.len() && prefix[k] == h;
                assert(whole[k] == h);
            } else {
                assert(whole.last() == h);
            }
        }
    }
}

/// A malformed row — one missing symbol, price level or hash — never
/// contributes: dropping it from the listing leaves the triggered hashes
/// unchanged.
pub proof fn lemma_malformed_row_skipped(
    rows: Seq<Row>,
    i: int,
    quotes: Seq<(Seq<char>, int)>,
    cfg: TableConfig,
)
    requires
        0 <= i < rows.len(),
        row_alert_parts(rows[i], cfg) is None,
    ensures
        triggered_hashes(rows.remove(i), quotes, cfg) == triggered_hashes(rows, quotes, cfg),
    decreases rows.len(),
{
    if i == rows.len() - 1 {
        assert(rows.remove(i) =~= rows.drop_last());
    } else {
        let shorter = rows.drop_last();
        assert(shorter[i] == rows[i]);
        lemma_malformed_row_skipped(shorter, i, quotes, cfg);
        assert(rows.remove(i).drop_last() =~= shorter.remove(i));
        assert(rows.remove(i).last() == rows.last());
    }
}

} // verus!
