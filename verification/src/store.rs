//! Reading store results.
//!
//! The store hands every query result back as generic rows; these functions
//! shape such results into the values the rest of the pass works with:
//! the distinct symbols in use, the stored hashes, one alert's details, and
//! the row id a hash resolves to.

use vstd::prelude::*;
use crate::db::TableConfig;
use crate::errors::SupabaseError;
use crate::row::{field_of, number_field_of, text_field_of, FieldValue, Row};
use crate::text::str_eq;
use crate::Alert;
use vstd::string::StringExecFns;

verus! {

/// The symbol a row stores, if any.
pub open spec fn row_symbol(row: Row, cfg: TableConfig) -> Option<Seq<char>> {
    text_field_of(row@, cfg.symbol_column_name@)
}

/// The hash a row stores, if any.
pub open spec fn row_hash(row: Row, cfg: TableConfig) -> Option<Seq<char>> {
    text_field_of(row@, cfg.hash_column_name@)
}

/// Whether some row among `rows` stores the symbol `s`.
pub open spec fn rows_have_symbol(rows: Seq<Row>, cfg: TableConfig, s: Seq<char>) -> bool {
    exists|i: int| 0 <= i < rows.len() && row_symbol(#[trigger] rows[i], cfg) == Some(s)
}

/// The hashes stored by `rows`, in row order, rows without a text hash
/// skipped.
pub open spec fn row_hashes(rows: Seq<Row>, cfg: TableConfig) -> Seq<Seq<char>>
    decreases rows.len(),
{
    if rows.len() == 0 {
        Seq::empty()
    } else {
        let prefix = row_hashes(rows.drop_last(), cfg);
        match row_hash(rows.last(), cfg) {
            Some(h) => prefix.push(h),
            None => prefix,
        }
    }
}

/// Whether `v` holds a string reading `s`.
pub fn contains_str(v: &Vec<String>, s: &str) -> (r: bool)
    ensures
        r == v.deep_view().contains(s@),
{
    let n = v.len();
    let mut i: usize = 0;
    while i < n
        invariant
            i <= n,
            n == v@.len(),
            forall|j: int| 0 <= j < i ==> v.deep_view()[j] != s@,
        decreases n - i,
    {
        if str_eq(v[i].as_str(), s) {
            proof {
                assert(v.deep_view()[i as int] == s@);
            }
            return true;
        }
        i += 1;
    }
    false
}

/// The distinct symbols the given rows reference, in first-occurrence
/// order: a symbol is listed exactly when some row stores it, and no
/// symbol is listed twice.
pub fn unique_symbols(rows: &Vec<Row>, config: &TableConfig) -> (out: Vec<String>)
    ensures
        forall|s: Seq<char>| #[trigger]
            out.deep_view().contains(s) <==> rows_have_symbol(rows@, *config, s),
        forall|i: int, j: int| 0 <= i < j < out@.len() ==> out@[i]@ != out@[j]@,
{
    let mut out: Vec<String> = Vec::new();
    let n = rows.len();
    let mut i: usize = 0;
    while i < n
        invariant
            i <= n,
            n == rows@.len(),
            forall|s: Seq<char>| #[trigger]
                out.deep_view().contains(s) <==> rows_have_symbol(
                    rows@.take(i as int),
                    *config,
                    s,
                ),
            forall|p: int, q: int| 0 <= p < q < out@.len() ==> out@[p]@ != out@[q]@,
        decreases n - i,
    {
        let ghost pre = out.deep_view();
        let ghost taken = rows@.take(i as int);
        let ghost taken1 = rows@.take(i as int + 1);
        proof {
            assert(taken1.drop_last() =~= taken);
            assert(taken1.last() == rows@[i as int]);
            assert(forall|j: int| 0 <= j < i ==> taken1[j] == taken[j]);
        }
        let row = &rows[i];
        match row.get_text(config.symbol_column_name.as_str()) {
            Some(sym) => {
                if !contains_str(&out, sym.as_str()) {
                    out.push(sym.clone());
                    proof {
                        assert(out.deep_view() =~= pre.push(sym@));
                        assert forall|p: int, q: int|
                            0 <= p < q < out@.len() implies out@[p]@ != out@[q]@ by {
                            if q == out@.len() - 1 {
                                assert(pre[p] == out@[p]@);
                                assert(out@[q]@ == sym@);
                                assert(!pre.contains(sym@));
                            }
                        }
                        assert forall|s: Seq<char>| #[trigger]
                            out.deep_view().contains(s) implies rows_have_symbol(
                            taken1,
                            *config,
                            s,
                        ) by {
                            let k = choose|k: int|
                                0 <= k < out.deep_view().len() && out.deep_view()[k] == s;
                            if k < pre.len() {
                                assert(pre.contains(s));
                                let j = choose|j: int|
                                    0 <= j < taken.len() && row_symbol(taken[j], *config)
                                        == Some(s);
                                assert(row_symbol(taken1[j], *config) == Some(s));
                            } else {
                                assert(s == sym@);
                                assert(row_symbol(taken1[i as int], *config) == Some(s));
                            }
                        }
                        assert forall|s: Seq<char>|
                            rows_have_symbol(taken1, *config, s) implies #[trigger]
                        out.deep_view().contains(s) by {
                            let j = choose|j: int|
                                0 <= j < taken1.len() && row_symbol(taken1[j], *config) == Some(
                                    s,
                                );
                            if j < i {
                                assert(row_symbol(taken[j], *config) == Some(s));
                                assert(rows_have_symbol(taken, *config, s));
                                assert(pre.contains(s));
                                let k = choose|k: int| 0 <= k < pre.len() && pre[k] == s;
                                assert(out.deep_view()[k] == s);
                            } else {
                                assert(out.deep_view()[pre.len() as int] == sym@);
                            }
                        }
                    }
                } else {
                    proof {
                        assert forall|s: Seq<char>|
                            rows_have_symbol(taken1, *config, s) implies #[trigger]
                        out.deep_view().contains(s) by {
                            let j = choose|j: int|
                                0 <= j < taken1.len() && row_symbol(taken1[j], *config) == Some(
                                    s,
                                );
                            if j < i {
                                assert(row_symbol(taken[j], *config) == Some(s));
                                assert(rows_have_symbol(taken, *config, s));
                            } else {
                                assert(s == sym@);
                            }
                        }
                        assert forall|s: Seq<char>| #[trigger]
                            out.deep_view().contains(s) implies rows_have_symbol(
                            taken1,
                            *config,
                            s,
                        ) by {
                            let j = choose|j: int|
                                0 <= j < taken.len() && row_symbol(taken[j], *config) == Some(s);
                            assert(row_symbol(taken1[j], *config) == Some(s));
                        }
                    }
                }
            },
            None => {
                proof {
                    assert forall|s: Seq<char>|
                        rows_have_symbol(taken1, *config, s) implies #[trigger]
                    out.deep_view().contains(s) by {
                        let j = choose|j: int|
                            0 <= j < taken1.len() && row_symbol(taken1[j], *config) == Some(s);
                        assert(j < i);
                        assert(row_symbol(taken[j], *config) == Some(s));
                        assert(rows_have_symbol(taken, *config, s));
                    }
                    assert forall|s: Seq<char>| #[trigger]
                        out.deep_view().contains(s) implies rows_have_symbol(
                        taken1,
                        *config,
                        s,
                    ) by {
                        let j = choose|j: int|
                            0 <= j < taken.len() && row_symbol(taken[j], *config) == Some(s);
                        assert(row_symbol(taken1[j], *config) == Some(s));
                    }
                }
            },
        }
        i += 1;
    }
    proof {
        assert(rows@.take(n as int) =~= rows@);
    }
    out
}

/// The hashes stored by the given rows, in row order; a row without a text
/// hash is skipped.
pub fn hashes_of_rows(rows: &Vec<Row>, config: &TableConfig) -> (out: Vec<String>)
    ensures
        out.deep_view() == row_hashes(rows@, *config),
{
    let mut out: Vec<String> = Vec::new();
    let n = rows.len();
    let mut i: usize = 0;
    proof {
        assert(rows@.take(0).len() == 0);
        assert(out.deep_view() =~= row_hashes(rows@.take(0), *config));
    }
    while i < n
        invariant
            i <= n,
            n == rows@.len(),
            out.deep_view() == row_hashes(rows@.take(i as int), *config),
        decreases n - i,
    {
        let ghost pre = out.deep_view();
        let row = &rows[i];
        match row.get_text(config.hash_column_name.as_str()) {
            Some(h) => {
                out.push(h.clone());
            },
            None => {},
        }
        proof {
            assert(rows@.take(i as int + 1).drop_last() =~= rows@.take(i as int));
            assert(rows@.take(i as int + 1).last() == rows@[i as int]);
            match row_hash(rows@[i as int], *config) {
                Some(h) => {
                    assert(out.deep_view() =~= pre.push(h));
                },
                None => {},
            }
        }
        i += 1;
    }
    proof {
        assert(rows@.take(n as int) =~= rows@);
    }
    out
}

/// The details — user id, price level, symbol — of the first of the rows a
/// hash lookup returned, each missing piece its own error.
pub fn details_from_rows(rows: &Vec<Row>, config: &TableConfig) -> (r: Result<
    (String, i64, String),
    SupabaseError,
>)
    ensures
        ({
            if rows@.len() == 0 {
                r matches Err(SupabaseError::FetchError(m)) && m@ == "No results found"@
            } else {
                match text_field_of(rows@[0]@, config.user_id_column_name@) {
                    None => r matches Err(SupabaseError::FetchError(m)) && m@
                        == "User ID not found"@,
                    Some(user) => match number_field_of(
                        rows@[0]@,
                        config.price_level_column_name@,
                    ) {
                        None => r matches Err(SupabaseError::FetchError(m)) && m@
                            == "Price level not found"@,
                        Some(level) => match text_field_of(rows@[0]@, config.symbol_column_name@) {
                            None => r matches Err(SupabaseError::FetchError(m)) && m@
                                == "Symbol not found"@,
                            Some(symbol) => r matches Ok(d) && d.0@ == user && d.1 as int == level
                                && d.2@ == symbol,
                        },
                    },
                }
            }
        }),
{
    if rows.len() == 0 {
        return Err(SupabaseError::FetchError(String::from_str("No results found")));
    }
    let row = &rows[0];
    let user = match row.get_text(config.user_id_column_name.as_str()) {
        Some(u) => u.clone(),
        None => {
            return Err(SupabaseError::FetchError(String::from_str("User ID not found")));
        },
    };
    let level = match row.get_number(config.price_level_column_name.as_str()) {
        Some(p) => p,
        None => {
            return Err(SupabaseError::FetchError(String::from_str("Price level not found")));
        },
    };
    let symbol = match row.get_text(config.symbol_column_name.as_str()) {
        Some(s) => s.clone(),
        None => {
            return Err(SupabaseError::FetchError(String::from_str("Symbol not found")));
        },
    };
    Ok((user, level, symbol))
}

/// The row id a hash lookup resolved to. The hash must select exactly one
/// row — none is not found, several are ambiguous — and that row must carry
/// an integer `id`.
pub fn resolve_id_from_rows(rows: &Vec<Row>) -> (r: Result<i64, SupabaseError>)
    ensures
        rows@.len() == 0 ==> (r matches Err(SupabaseError::FetchError(m)) && m@
            == "No results found"@),
        rows@.len() > 1 ==> (r matches Err(SupabaseError::FetchError(m)) && m@
            == "Several rows match the hash"@),
        rows@.len() == 1 ==> match field_of(rows@[0]@, "id"@) {
            Some(FieldValue::Number(id)) => r matches Ok(v) && v == id,
            Some(_) => r matches Err(SupabaseError::FetchError(m)) && m@
                == "ID is not an integer"@,
            None => r matches Err(SupabaseError::FetchError(m)) && m@ == "ID field is missing"@,
        },
{
    if rows.len() == 0 {
        return Err(SupabaseError::FetchError(String::from_str("No results found")));
    }
    if rows.len() > 1 {
        return Err(SupabaseError::FetchError(String::from_str("Several rows match the hash")));
    }
    let row = &rows[0];
    match row.get("id") {
        Some(FieldValue::Number(id)) => Ok(*id),
        Some(_) => Err(SupabaseError::FetchError(String::from_str("ID is not an integer"))),
        None => Err(SupabaseError::FetchError(String::from_str("ID field is missing"))),
    }
}

/// Whether a lookup found any row: the decision of a hash's existence
/// check.
pub fn rows_exist(rows: &Vec<Row>) -> (r: bool)
    ensures
        r == (rows@.len() > 0),
{
    rows.len() > 0
}

/// The row an alert is stored as, under the configured column names.
pub fn alert_to_row(alert: &Alert, config: &TableConfig) -> (row: Row)
    ensures
        row@.len() == 4,
        row@[0].0@ == config.hash_column_name@,
        row@[0].1 matches FieldValue::Text(h) && h@ == alert.hash@,
        row@[1].0@ == config.price_level_column_name@,
        row@[1].1 matches FieldValue::Number(p) && p == alert.price_level,
        row@[2].0@ == config.user_id_column_name@,
        row@[2].1 matches FieldValue::Text(u) && u@ == alert.user_id@,
        row@[3].0@ == config.symbol_column_name@,
        row@[3].1 matches FieldValue::Text(s) && s@ == alert.symbol@,
{
    let mut fields: Vec<(String, FieldValue)> = Vec::new();
    fields.push((config.hash_column_name.clone(), FieldValue::Text(alert.hash.clone())));
    fields.push(
        (config.price_level_column_name.clone(), FieldValue::Number(alert.price_level)),
    );
    fields.push((config.user_id_column_name.clone(), FieldValue::Text(alert.user_id.clone())));
    fields.push((config.symbol_column_name.clone(), FieldValue::Text(alert.symbol.clone())));
    Row { fields }
}

} // verus!
