use trade_alerts::db::TableConfig;
use trade_alerts::errors::XylexApiError;
use trade_alerts::evaluate::{check_triggered_alert_hashes, Quote};
use trade_alerts::pass::{EvaluationPass, PassPhase};
use trade_alerts::row::{FieldValue, Row};

fn config() -> TableConfig {
    TableConfig::new(
        "alerts".to_string(),
        "hash".to_string(),
        "price_level".to_string(),
        "user_id".to_string(),
        "symbol".to_string(),
    )
}

fn alert_row(symbol: &str, level: i64, hash: &str, direction: Option<&str>) -> Row {
    let mut fields = vec![
        ("symbol".to_string(), FieldValue::Text(symbol.to_string())),
        ("price_level".to_string(), FieldValue::Number(level)),
        ("hash".to_string(), FieldValue::Text(hash.to_string())),
    ];
    if let Some(d) = direction {
        fields.push((
            "initial_direction".to_string(),
            FieldValue::Text(d.to_string()),
        ));
    }
    Row { fields }
}

fn quote(symbol: &str, price: i64) -> Quote {
    Quote {
        symbol: symbol.to_string(),
        price,
    }
}

#[test]
fn sell_triggers_at_boundary() {
    // Price levels are fixed-point: 1.1000 is 110000 units.
    let rows = vec![alert_row("EURUSD", 110000, "h-sell", Some("sell"))];
    let quotes = vec![quote("EURUSD", 110000)];
    let out = check_triggered_alert_hashes(&rows, &quotes, &config());
    assert_eq!(out, vec!["h-sell".to_string()]);
}

#[test]
fn sell_does_not_trigger_below_level() {
    let rows = vec![alert_row("EURUSD", 110000, "h-sell", Some("sell"))];
    let quotes = vec![quote("EURUSD", 109999)];
    let out = check_triggered_alert_hashes(&rows, &quotes, &config());
    assert!(out.is_empty());
}

#[test]
fn buy_does_not_trigger_above_level() {
    // 1.1001 quoted against a 1.1000 buy alert.
    let rows = vec![alert_row("EURUSD", 110000, "h-buy", Some("buy"))];
    let quotes = vec![quote("EURUSD", 110010)];
    let out = check_triggered_alert_hashes(&rows, &quotes, &config());
    assert!(out.is_empty());
}

#[test]
fn buy_triggers_at_and_below_level() {
    let rows = vec![alert_row("EURUSD", 110000, "h-buy", Some("buy"))];
    let at = check_triggered_alert_hashes(&rows, &vec![quote("EURUSD", 110000)], &config());
    assert_eq!(at, vec!["h-buy".to_string()]);
    let below = check_triggered_alert_hashes(&rows, &vec![quote("EURUSD", 109000)], &config());
    assert_eq!(below, vec!["h-buy".to_string()]);
}

#[test]
fn legacy_band_inside_and_outside() {
    // 100.0 is 10000000 units; 100.0009 (10000090) lies within the band,
    // 100.002 (10000200) does not.
    let rows = vec![alert_row("XAUUSD", 10000000, "h-band", None)];
    let inside = check_triggered_alert_hashes(&rows, &vec![quote("XAUUSD", 10000090)], &config());
    assert_eq!(inside, vec!["h-band".to_string()]);
    let outside = check_triggered_alert_hashes(&rows, &vec![quote("XAUUSD", 10000200)], &config());
    assert!(outside.is_empty());
}

#[test]
fn legacy_band_exact_edges() {
    // Level 1.0 (100000 units): the band spans 0.99999 to 1.00001.
    let rows = vec![alert_row("EURUSD", 100000, "h-band", None)];
    let cfg = config();
    let lower = check_triggered_alert_hashes(&rows, &vec![quote("EURUSD", 99999)], &cfg);
    assert_eq!(lower, vec!["h-band".to_string()]);
    let below = check_triggered_alert_hashes(&rows, &vec![quote("EURUSD", 99998)], &cfg);
    assert!(below.is_empty());
    let upper = check_triggered_alert_hashes(&rows, &vec![quote("EURUSD", 100001)], &cfg);
    assert_eq!(upper, vec!["h-band".to_string()]);
    let above = check_triggered_alert_hashes(&rows, &vec![quote("EURUSD", 100002)], &cfg);
    assert!(above.is_empty());
}

#[test]
fn malformed_rows_are_skipped() {
    let mut no_symbol = alert_row("EURUSD", 110000, "h1", Some("sell"));
    no_symbol.fields.retain(|f| f.0 != "symbol");
    let mut no_level = alert_row("EURUSD", 110000, "h2", Some("sell"));
    no_level.fields.retain(|f| f.0 != "price_level");
    let mut no_hash = alert_row("EURUSD", 110000, "h3", Some("sell"));
    no_hash.fields.retain(|f| f.0 != "hash");
    let good = alert_row("EURUSD", 110000, "h-good", Some("sell"));
    let rows = vec![no_symbol, no_level, no_hash, good];
    let quotes = vec![quote("EURUSD", 120000)];
    let out = check_triggered_alert_hashes(&rows, &quotes, &config());
    assert_eq!(out, vec!["h-good".to_string()]);
}

#[test]
fn row_without_quote_is_skipped() {
    let rows = vec![alert_row("GBPUSD", 110000, "h1", Some("sell"))];
    let quotes = vec![quote("EURUSD", 120000)];
    let out = check_triggered_alert_hashes(&rows, &quotes, &config());
    assert!(out.is_empty());
}

#[test]
fn unknown_direction_never_triggers() {
    let rows = vec![alert_row("EURUSD", 110000, "h1", Some("hold"))];
    let quotes = vec![quote("EURUSD", 110000)];
    let out = check_triggered_alert_hashes(&rows, &quotes, &config());
    assert!(out.is_empty());
}

#[test]
fn non_text_direction_never_triggers() {
    let mut row = alert_row("EURUSD", 110000, "h1", None);
    row.fields
        .push(("initial_direction".to_string(), FieldValue::Number(1)));
    let quotes = vec![quote("EURUSD", 110000)];
    let out = check_triggered_alert_hashes(&vec![row], &quotes, &config());
    assert!(out.is_empty());
}

#[test]
fn duplicate_hashes_are_kept_in_row_order() {
    let rows = vec![
        alert_row("EURUSD", 110000, "h-twice", Some("sell")),
        alert_row("EURUSD", 105000, "h-twice", Some("sell")),
        alert_row("EURUSD", 100000, "h-other", Some("sell")),
    ];
    let quotes = vec![quote("EURUSD", 120000)];
    let out = check_triggered_alert_hashes(&rows, &quotes, &config());
    assert_eq!(
        out,
        vec![
            "h-twice".to_string(),
            "h-twice".to_string(),
            "h-other".to_string()
        ]
    );
}

#[test]
fn evaluation_is_deterministic() {
    let rows = vec![
        alert_row("EURUSD", 110000, "h1", Some("sell")),
        alert_row("AAPL", 10000000, "h2", None),
    ];
    let quotes = vec![quote("EURUSD", 115000), quote("AAPL", 10000000)];
    let cfg = config();
    let first = check_triggered_alert_hashes(&rows, &quotes, &cfg);
    let second = check_triggered_alert_hashes(&rows, &quotes, &cfg);
    assert_eq!(first, second);
    assert_eq!(first, vec!["h1".to_string(), "h2".to_string()]);
}

#[test]
fn shared_symbol_only_triggering_alert_is_reaped() {
    // Two alerts watch AAPL at different levels; only one triggers, and
    // only its hash is asked to be deleted.
    let mut pass = EvaluationPass::new();
    pass.provide_symbols(vec!["AAPL".to_string()]);
    assert_eq!(pass.phase(), PassPhase::Quoting);
    assert_eq!(pass.next_symbol(), "AAPL".to_string());
    pass.provide_price(15000000);
    assert_eq!(pass.phase(), PassPhase::Evaluate);
    let rows = vec![
        alert_row("AAPL", 14000000, "h-hit", Some("sell")),
        alert_row("AAPL", 16000000, "h-miss", Some("sell")),
    ];
    pass.provide_rows(&rows, &config());
    assert_eq!(pass.phase(), PassPhase::Reaping);
    assert_eq!(pass.triggered_list(), &vec!["h-hit".to_string()]);
    assert_eq!(pass.next_hash(), "h-hit".to_string());
    pass.confirm_reaped();
    assert_eq!(pass.phase(), PassPhase::Done);
    assert_eq!(pass.reaped_count(), 1);
}

#[test]
fn quote_failure_aborts_with_symbol_named_and_no_deletion() {
    // The second of three symbols fails: the pass aborts, nothing was
    // triggered or deleted, and the error names the failing symbol.
    let mut pass = EvaluationPass::new();
    pass.provide_symbols(vec![
        "EURUSD".to_string(),
        "GBPUSD".to_string(),
        "AAPL".to_string(),
    ]);
    pass.provide_price(110000);
    assert_eq!(pass.phase(), PassPhase::Quoting);
    assert_eq!(pass.next_symbol(), "GBPUSD".to_string());
    let err = pass.fail_quote("connection refused");
    match err {
        XylexApiError::NetworkError(m) => assert_eq!(m, "GBPUSD: connection refused"),
        other => panic!("wrong error variant: {:?}", other),
    }
    assert_eq!(pass.phase(), PassPhase::Aborted);
    assert_eq!(pass.reaped_count(), 0);
    assert!(pass.triggered_list().is_empty());
}

#[test]
fn reap_failure_keeps_earlier_deletions() {
    // The first triggered hash is deleted; resolving the second fails.
    // Reaping halts, the first deletion stands.
    let mut pass = EvaluationPass::new();
    pass.provide_symbols(vec!["EURUSD".to_string()]);
    pass.provide_price(120000);
    let rows = vec![
        alert_row("EURUSD", 110000, "h1", Some("sell")),
        alert_row("EURUSD", 115000, "h2", Some("sell")),
    ];
    pass.provide_rows(&rows, &config());
    assert_eq!(pass.next_hash(), "h1".to_string());
    pass.confirm_reaped();
    assert_eq!(pass.phase(), PassPhase::Reaping);
    assert_eq!(pass.next_hash(), "h2".to_string());
    pass.fail_reap();
    assert_eq!(pass.phase(), PassPhase::Aborted);
    assert_eq!(pass.reaped_count(), 1);
    assert_eq!(
        pass.triggered_list(),
        &vec!["h1".to_string(), "h2".to_string()]
    );
}

#[test]
fn empty_symbol_listing_finishes_without_quotes() {
    let mut pass = EvaluationPass::new();
    pass.provide_symbols(Vec::new());
    assert_eq!(pass.phase(), PassPhase::Evaluate);
    let rows = vec![alert_row("EURUSD", 110000, "h1", Some("sell"))];
    pass.provide_rows(&rows, &config());
    assert_eq!(pass.phase(), PassPhase::Done);
    assert!(pass.triggered_list().is_empty());
    assert_eq!(pass.reaped_count(), 0);
}
