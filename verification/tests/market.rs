use mm::market::book::{merge_depth_diffs, merge_side_liqs, DEPTH_LIMIT};
use mm::market::decimal::{code_text, parse_decimal, EXP_MIN, SIGNIFICAND_LIMIT};
use mm::market::liq::{liqs_from_levels, Depth, LevelError, Liq};
use mm::market::symbol::{Symbol, SymbolError};

fn liq(p: i128, a: i128) -> Liq {
    Liq::from_pa(p, a)
}

fn level(p: &str, a: &str) -> Vec<String> {
    vec![p.to_string(), a.to_string()]
}

/// The code of `m * 10^q`, negated when `neg`.
fn code(neg: bool, m: i128, q: i128) -> i128 {
    let c = (q - EXP_MIN) * (SIGNIFICAND_LIMIT as i128) + m;
    if neg { -c } else { c }
}

fn num(s: &str) -> i128 {
    parse_decimal(s).unwrap()
}

const E18: i128 = 1_000_000_000_000_000_000;

#[test]
fn decimal_reads_plain_numbers() {
    assert_eq!(parse_decimal("1.5"), Some(code(false, 15 * E18 / 10, -18)));
    assert_eq!(parse_decimal("12"), Some(code(false, 12 * E18 / 10, -17)));
    assert_eq!(parse_decimal("0.00000001"), Some(code(false, E18, -26)));
    assert_eq!(parse_decimal("1."), Some(code(false, E18, -18)));
    assert_eq!(parse_decimal("65432.10000000"), Some(code(false, 6543210 * E18 / 1_000_000, -14)));
    assert_eq!(parse_decimal("0"), Some(0));
}

#[test]
fn decimal_reads_float_syntax() {
    assert_eq!(parse_decimal(".5"), Some(code(false, 5 * E18, -19)));
    assert_eq!(parse_decimal("+2"), Some(code(false, 2 * E18, -18)));
    assert_eq!(parse_decimal("-1"), Some(code(true, E18, -18)));
    assert_eq!(parse_decimal("1e5"), Some(code(false, E18, -13)));
    assert_eq!(parse_decimal("1E+2"), Some(code(false, E18, -16)));
    assert_eq!(parse_decimal("25e-9"), Some(code(false, 25 * E18 / 10, -26)));
    assert_eq!(parse_decimal("0.000000001"), Some(code(false, E18, -27)));
    assert_eq!(parse_decimal("1.0000000000000"), Some(num("1")));
    assert_eq!(parse_decimal("0001.50"), Some(num("1.5")));
    assert_eq!(parse_decimal("-0"), Some(0));
    assert_eq!(parse_decimal("0e99999999999999999999999999999999999"), Some(0));
    assert_eq!(parse_decimal("100000000000000000000000e-23"), Some(num("1")));
    assert_eq!(parse_decimal("12345678901234567890123"), Some(code(false, 1234567890123456789, 4)));
    assert_eq!(parse_decimal("1e300"), Some(code(false, E18, 282)));
    assert_eq!(parse_decimal("1e1000000000"), Some(code(false, E18, 1_000_000_000 - 18)));
    assert_eq!(parse_decimal("1e-99999999999999999999999999999999999"), Some(0));
}

#[test]
fn decimal_refuses_other_texts() {
    assert_eq!(parse_decimal(""), None);
    assert_eq!(parse_decimal("."), None);
    assert_eq!(parse_decimal("-"), None);
    assert_eq!(parse_decimal("1.2.3"), None);
    assert_eq!(parse_decimal("1e"), None);
    assert_eq!(parse_decimal("e5"), None);
    assert_eq!(parse_decimal("inf"), None);
    assert_eq!(parse_decimal("NaN"), None);
    assert_eq!(parse_decimal(" 1"), None);
    assert_eq!(parse_decimal("1e1000000019"), None);
    assert_eq!(parse_decimal("1e99999999999999999999999999999999999"), None);
}

#[test]
fn codes_order_as_numbers() {
    let texts = ["-1e3", "-2", "-1.5", "-1", "-0.001", "0", "1e-30", "0.5", "1", "1.5", "2", "1e3", "1.5e3"];
    let codes: Vec<i128> = texts.iter().map(|t| num(t)).collect();
    for i in 1..codes.len() {
        assert!(codes[i - 1] < codes[i], "{} < {}", texts[i - 1], texts[i]);
    }
    assert_eq!(num("1.50"), num("15e-1"));
}

#[test]
fn code_text_reads_back() {
    assert_eq!(code_text(num("1.5")), "1500000000000000000e-18");
    assert_eq!(code_text(num("-2e-3")), "-2000000000000000000e-21");
    assert_eq!(code_text(0), "0");
    for t in ["1.5", "-2e-3", "0", "12345.678", "9e300"] {
        assert_eq!(num(&code_text(num(t))), num(t));
        assert_eq!(code_text(num(t)).parse::<f64>().unwrap(), t.parse::<f64>().unwrap());
    }
}

#[test]
fn depth_from_levels_reads_price_then_amount() {
    let asks = vec![level("1.5", "2"), vec!["3".to_string(), "0.1".to_string(), "0".to_string(), "4".to_string()]];
    let bids = vec![level("-1", "1e-1")];
    let d = Depth::from_levels(&asks, &bids).unwrap();
    assert_eq!(d.asks, vec![liq(num("1.5"), num("2")), liq(num("3"), num("0.1"))]);
    assert_eq!(d.bids, vec![liq(num("-1"), num("0.1"))]);
}

#[test]
fn level_errors_name_the_first_bad_level() {
    assert!(matches!(liqs_from_levels(&vec![vec!["1".to_string()]]), Err(LevelError::MissingAmount)));
    match liqs_from_levels(&vec![level("1", "1"), level("x", "1"), level("2", "y")]) {
        Err(LevelError::BadNumber(t)) => assert_eq!(t, "x"),
        other => panic!("{other:?}"),
    }
    match liqs_from_levels(&vec![level("1", "nan")]) {
        Err(LevelError::BadNumber(t)) => assert_eq!(t, "nan"),
        other => panic!("{other:?}"),
    }
    match Depth::from_levels(&vec![level("1", "1")], &vec![level("2", "1e5000000000")]) {
        Err(LevelError::BadNumber(t)) => assert_eq!(t, "1e5000000000"),
        other => panic!("{other:?}"),
    }
    match Depth::from_levels(&vec![level("inf", "1")], &vec![level("2", "-")]) {
        Err(LevelError::BadNumber(t)) => assert_eq!(t, "inf"),
        other => panic!("{other:?}"),
    }
}

#[test]
fn merge_sorts_asks_ascending_and_bids_descending() {
    let side = vec![liq(5, 1), liq(3, 2), liq(9, 3)];
    assert_eq!(merge_side_liqs(&side, &vec![], true, 50), vec![liq(3, 2), liq(5, 1), liq(9, 3)]);
    assert_eq!(merge_side_liqs(&side, &vec![], false, 50), vec![liq(9, 3), liq(5, 1), liq(3, 2)]);
}

#[test]
fn merge_zero_amount_removes_and_update_replaces() {
    let side = vec![liq(3, 2), liq(5, 1), liq(9, 3)];
    let diffs = vec![liq(5, 0), liq(9, 7), liq(4, 4), liq(100, 0)];
    assert_eq!(merge_side_liqs(&side, &diffs, true, 50), vec![liq(3, 2), liq(4, 4), liq(9, 7)]);
}

#[test]
fn merge_keeps_the_last_update_of_a_price() {
    let diffs = vec![liq(5, 1), liq(5, 2), liq(6, 0), liq(6, 3)];
    assert_eq!(merge_side_liqs(&vec![], &diffs, true, 50), vec![liq(5, 2), liq(6, 3)]);
}

#[test]
fn merge_cuts_to_the_limit_keeping_the_best() {
    let side: Vec<Liq> = (1..=60i128).map(|p| liq(p, 1)).collect();
    let asks = merge_side_liqs(&side, &vec![], true, DEPTH_LIMIT);
    assert_eq!(asks.len(), 50);
    assert_eq!(asks[0], liq(1, 1));
    assert_eq!(asks[49], liq(50, 1));
    let bids = merge_side_liqs(&side, &vec![], false, DEPTH_LIMIT);
    assert_eq!(bids.len(), 50);
    assert_eq!(bids[0], liq(60, 1));
    assert_eq!(bids[49], liq(11, 1));
}

#[test]
fn merge_of_a_merged_side_changes_nothing() {
    let side = vec![liq(7, 1), liq(2, 2), liq(7, 3), liq(4, 0)];
    let once = merge_side_liqs(&side, &vec![liq(1, 5)], true, 3);
    let twice = merge_side_liqs(&once, &vec![], true, 3);
    assert_eq!(once, twice);
    assert_eq!(once, vec![liq(1, 5), liq(2, 2), liq(7, 3)]);
}

#[test]
fn merge_depth_diffs_merges_both_sides() {
    let snapshot = Depth { asks: vec![liq(10, 1)], bids: vec![liq(8, 1)] };
    let diffs = vec![
        Depth { asks: vec![liq(11, 2)], bids: vec![liq(8, 0)] },
        Depth { asks: vec![liq(10, 0)], bids: vec![liq(7, 5), liq(9, 1)] },
    ];
    let merged = merge_depth_diffs(&snapshot, &diffs);
    assert_eq!(merged.asks, vec![liq(11, 2)]);
    assert_eq!(merged.bids, vec![liq(9, 1), liq(7, 5)]);
}

#[test]
fn symbol_new_uppercases_currencies() {
    let s = Symbol::new("exmo".to_string(), "btc".to_string(), "usdt".to_string());
    assert_eq!(s.eg, "exmo");
    assert_eq!(s.bs, "BTC");
    assert_eq!(s.qt, "USDT");
    assert_eq!(s.to_string(), "exmo:BTC/USDT");
}

#[test]
fn symbol_reads_its_text() {
    let s = Symbol::try_from_text("exmo:btc/USDT").unwrap();
    assert_eq!(s.eg, "exmo");
    assert_eq!(s.bs, "BTC");
    assert_eq!(s.qt, "USDT");
    let back = Symbol::try_from_text(&s.to_string()).unwrap();
    assert!(back.same_as(&s));
    let blank = Symbol::try_from_text(":/").unwrap();
    assert_eq!(blank.to_string(), ":/");
}

#[test]
fn symbol_text_errors_carry_the_bad_part() {
    match Symbol::try_from_text("exmoBTC/USDT") {
        Err(SymbolError::BadSymbol(t)) => assert_eq!(t, "exmoBTC/USDT"),
        Ok(_) => panic!("no exchange separator"),
    }
    match Symbol::try_from_text("exmo:BTC-USDT") {
        Err(SymbolError::BadSymbol(t)) => assert_eq!(t, "BTC-USDT"),
        Ok(_) => panic!("no currency separator"),
    }
    assert!(Symbol::try_from_text("a:b:c/d").is_err());
    assert!(Symbol::try_from_text("a:b/c/d").is_err());
}
