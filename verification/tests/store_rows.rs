use trade_alerts::db::{Supabase, TableConfig};
use trade_alerts::errors::{SupabaseError, TableConfigError, XylexApiError};
use trade_alerts::row::{FieldValue, Row};
use trade_alerts::store::{
    alert_to_row, contains_str, details_from_rows, hashes_of_rows, resolve_id_from_rows,
    rows_exist, unique_symbols,
};
use trade_alerts::success::{SupabaseSuccess, XylexApiSuccess};
use trade_alerts::Alert;

fn config() -> TableConfig {
    TableConfig::new(
        "alerts".to_string(),
        "hash".to_string(),
        "price_level".to_string(),
        "user_id".to_string(),
        "symbol".to_string(),
    )
}

fn full_row(symbol: &str, level: i64, hash: &str, user: &str) -> Row {
    Row {
        fields: vec![
            ("symbol".to_string(), FieldValue::Text(symbol.to_string())),
            ("price_level".to_string(), FieldValue::Number(level)),
            ("hash".to_string(), FieldValue::Text(hash.to_string())),
            ("user_id".to_string(), FieldValue::Text(user.to_string())),
        ],
    }
}

#[test]
fn row_lookup_takes_the_first_entry() {
    let row = Row {
        fields: vec![
            ("k".to_string(), FieldValue::Text("first".to_string())),
            ("k".to_string(), FieldValue::Text("second".to_string())),
        ],
    };
    match row.get("k") {
        Some(FieldValue::Text(s)) => assert_eq!(s, "first"),
        other => panic!("wrong value"),
    }
    assert!(row.get("missing").is_none());
}

#[test]
fn typed_getters_check_the_value_shape() {
    let row = full_row("EURUSD", 110000, "h1", "u1");
    assert_eq!(row.get_text("symbol").map(|s| s.as_str()), Some("EURUSD"));
    assert_eq!(row.get_number("price_level"), Some(110000));
    assert!(row.get_text("price_level").is_none());
    assert!(row.get_number("symbol").is_none());
}

#[test]
fn unique_symbols_deduplicates_in_first_occurrence_order() {
    let mut no_symbol = full_row("GBPUSD", 1, "h4", "u4");
    no_symbol.fields.retain(|f| f.0 != "symbol");
    let rows = vec![
        full_row("EURUSD", 1, "h1", "u1"),
        full_row("AAPL", 2, "h2", "u2"),
        full_row("EURUSD", 3, "h3", "u3"),
        no_symbol,
    ];
    let symbols = unique_symbols(&rows, &config());
    assert_eq!(symbols, vec!["EURUSD".to_string(), "AAPL".to_string()]);
}

#[test]
fn contains_str_reports_membership() {
    let v = vec!["EURUSD".to_string(), "AAPL".to_string()];
    assert!(contains_str(&v, "AAPL"));
    assert!(!contains_str(&v, "GBPUSD"));
}

#[test]
fn hashes_of_rows_skips_rows_without_text_hash() {
    let mut no_hash = full_row("EURUSD", 1, "h2", "u2");
    no_hash.fields.retain(|f| f.0 != "hash");
    let mut numeric_hash = full_row("EURUSD", 1, "h3", "u3");
    numeric_hash.fields.retain(|f| f.0 != "hash");
    numeric_hash
        .fields
        .push(("hash".to_string(), FieldValue::Number(7)));
    let rows = vec![full_row("EURUSD", 1, "h1", "u1"), no_hash, numeric_hash];
    let hashes = hashes_of_rows(&rows, &config());
    assert_eq!(hashes, vec!["h1".to_string()]);
}

#[test]
fn details_from_rows_reads_the_first_row() {
    let rows = vec![
        full_row("EURUSD", 110000, "h1", "u1"),
        full_row("AAPL", 1, "h2", "u2"),
    ];
    let details = details_from_rows(&rows, &config()).expect("details");
    assert_eq!(details.0, "u1");
    assert_eq!(details.1, 110000);
    assert_eq!(details.2, "EURUSD");
}

#[test]
fn details_from_rows_errors_name_the_missing_piece() {
    match details_from_rows(&Vec::new(), &config()) {
        Err(SupabaseError::FetchError(m)) => assert_eq!(m, "No results found"),
        other => panic!("wrong outcome"),
    }
    let mut no_user = full_row("EURUSD", 110000, "h1", "u1");
    no_user.fields.retain(|f| f.0 != "user_id");
    match details_from_rows(&vec![no_user], &config()) {
        Err(SupabaseError::FetchError(m)) => assert_eq!(m, "User ID not found"),
        other => panic!("wrong outcome"),
    }
    let mut no_level = full_row("EURUSD", 110000, "h1", "u1");
    no_level.fields.retain(|f| f.0 != "price_level");
    match details_from_rows(&vec![no_level], &config()) {
        Err(SupabaseError::FetchError(m)) => assert_eq!(m, "Price level not found"),
        other => panic!("wrong outcome"),
    }
    let mut no_symbol = full_row("EURUSD", 110000, "h1", "u1");
    no_symbol.fields.retain(|f| f.0 != "symbol");
    match details_from_rows(&vec![no_symbol], &config()) {
        Err(SupabaseError::FetchError(m)) => assert_eq!(m, "Symbol not found"),
        other => panic!("wrong outcome"),
    }
}

#[test]
fn resolve_id_needs_exactly_one_row_with_integer_id() {
    let with_id = Row {
        fields: vec![("id".to_string(), FieldValue::Number(41))],
    };
    assert_eq!(resolve_id_from_rows(&vec![with_id]).ok(), Some(41));

    match resolve_id_from_rows(&Vec::new()) {
        Err(SupabaseError::FetchError(m)) => assert_eq!(m, "No results found"),
        other => panic!("wrong outcome"),
    }

    let a = Row {
        fields: vec![("id".to_string(), FieldValue::Number(1))],
    };
    let b = Row {
        fields: vec![("id".to_string(), FieldValue::Number(2))],
    };
    match resolve_id_from_rows(&vec![a, b]) {
        Err(SupabaseError::FetchError(m)) => assert_eq!(m, "Several rows match the hash"),
        other => panic!("wrong outcome"),
    }

    let text_id = Row {
        fields: vec![("id".to_string(), FieldValue::Text("41".to_string()))],
    };
    match resolve_id_from_rows(&vec![text_id]) {
        Err(SupabaseError::FetchError(m)) => assert_eq!(m, "ID is not an integer"),
        other => panic!("wrong outcome"),
    }

    let no_id = Row {
        fields: vec![("x".to_string(), FieldValue::Number(41))],
    };
    match resolve_id_from_rows(&vec![no_id]) {
        Err(SupabaseError::FetchError(m)) => assert_eq!(m, "ID field is missing"),
        other => panic!("wrong outcome"),
    }
}

#[test]
fn rows_exist_decides_emptiness() {
    assert!(!rows_exist(&Vec::new()));
    assert!(rows_exist(&vec![full_row("EURUSD", 1, "h1", "u1")]));
}

#[test]
fn alert_to_row_uses_the_configured_column_names() {
    let alert = Alert::new(
        "h-1".to_string(),
        110000,
        "EURUSD".to_string(),
        "u-1".to_string(),
    );
    let row = alert_to_row(&alert, &config());
    assert_eq!(row.get_text("hash").map(|s| s.as_str()), Some("h-1"));
    assert_eq!(row.get_number("price_level"), Some(110000));
    assert_eq!(row.get_text("user_id").map(|s| s.as_str()), Some("u-1"));
    assert_eq!(row.get_text("symbol").map(|s| s.as_str()), Some("EURUSD"));
    assert_eq!(row.fields.len(), 4);
}

#[test]
fn constructors_keep_their_arguments() {
    let alert = Alert::new(
        "h".to_string(),
        109000,
        "EURUSD".to_string(),
        "1234".to_string(),
    );
    assert_eq!(alert.hash, "h");
    assert_eq!(alert.price_level, 109000);
    assert_eq!(alert.symbol, "EURUSD");
    assert_eq!(alert.user_id, "1234");

    let store = Supabase::new("key".to_string(), "url".to_string());
    assert_eq!(store.key, "key");
    assert_eq!(store.url, "url");

    let cfg = config();
    assert_eq!(cfg.tablename, "alerts");
    assert_eq!(cfg.hash_column_name, "hash");
    assert_eq!(cfg.price_level_column_name, "price_level");
    assert_eq!(cfg.user_id_column_name, "user_id");
    assert_eq!(cfg.symbol_column_name, "symbol");
}

#[test]
fn error_messages_name_the_failure() {
    assert_eq!(
        SupabaseError::FetchError("boom".to_string()).message(),
        "Fetch Error: boom"
    );
    assert_eq!(
        SupabaseError::InsertionError("dup".to_string()).message(),
        "Insertion Error: dup"
    );
    assert_eq!(
        TableConfigError::InvalidConfiguration("missing".to_string()).message(),
        "Invalid Configuration: missing"
    );
    assert_eq!(
        XylexApiError::EnvAuthenticationError("no key".to_string()).message(),
        "Environment-based authentication error: no key"
    );
}

#[test]
fn success_messages_describe_the_outcome() {
    assert_eq!(
        SupabaseSuccess::InsertionSuccess.message(),
        "Insertion succeeded."
    );
    assert_eq!(
        XylexApiSuccess::OperationSuccessful.message(),
        "Operation completed successfully."
    );
}
