use stmt_proc::amount::parse_amount;
use stmt_proc::dates::normalize_date;
use stmt_proc::errors::StmtError;
use stmt_proc::statement_processor::derive_txn_source;
use stmt_proc::txn_store::TxnStore;

#[test]
fn source_code_is_first_six_of_base_name() {
    assert_eq!(derive_txn_source("HDFC12_statement_jan.csv").unwrap(), "HDFC12");
    assert_eq!(derive_txn_source("some/dir/HDFC12_statement_jan.csv").unwrap(), "HDFC12");
    assert_eq!(derive_txn_source("ab.csv").unwrap(), "ab.csv");
}

#[test]
fn short_base_name_is_rejected() {
    assert!(matches!(derive_txn_source("a.csv"), Err(StmtError::FormatError { .. })));
    assert!(matches!(
        derive_txn_source("long/path/a.csv"),
        Err(StmtError::FormatError { .. })
    ));
    assert!(matches!(derive_txn_source(""), Err(StmtError::FormatError { .. })));
}

#[test]
fn two_digit_years_use_the_pivot() {
    assert_eq!(normalize_date("05/03/69", 2).unwrap(), "1969-03-05");
    assert_eq!(normalize_date("1/2/68", 2).unwrap(), "2068-02-01");
    assert_eq!(normalize_date("31/12/99", 2).unwrap(), "1999-12-31");
    assert_eq!(normalize_date("01/01/00", 2).unwrap(), "2000-01-01");
}

#[test]
fn calendar_validity_is_enforced() {
    assert_eq!(normalize_date("29/02/24", 2).unwrap(), "2024-02-29");
    assert!(normalize_date("29/02/23", 2).is_none());
    assert!(normalize_date("31/02/24", 2).is_none());
    assert!(normalize_date("31/04/24", 2).is_none());
    assert!(normalize_date("00/01/24", 2).is_none());
    assert!(normalize_date("01/13/24", 2).is_none());
    assert_eq!(normalize_date("29/02/2000", 4).unwrap(), "2000-02-29");
    assert!(normalize_date("29/02/1900", 4).is_none());
}

#[test]
fn date_shape_is_enforced() {
    assert!(normalize_date("2024-03-15", 2).is_none());
    assert!(normalize_date("15/03/2024", 2).is_none());
    assert!(normalize_date("15/03/24", 4).is_none());
    assert!(normalize_date("15/03/", 4).is_none());
    assert!(normalize_date("//24", 2).is_none());
    assert!(normalize_date("", 2).is_none());
    assert_eq!(normalize_date("15/03/2024", 4).unwrap(), "2024-03-15");
}

#[test]
fn amounts_parse_as_plain_decimals() {
    let a = parse_amount("1250.50").unwrap();
    assert_eq!(a.text, "1250.50");
    assert_eq!(a.mantissa, 125050);
    assert_eq!(a.scale, 2);

    let b = parse_amount("0").unwrap();
    assert_eq!(b.mantissa, 0);
    assert_eq!(b.scale, 0);

    let c = parse_amount("0.05").unwrap();
    assert_eq!(c.mantissa, 5);
    assert_eq!(c.scale, 2);

    assert!(parse_amount("").is_none());
    assert!(parse_amount("12.").is_none());
    assert!(parse_amount(".5").is_none());
    assert!(parse_amount("1,000").is_none());
    assert!(parse_amount("-5").is_none());
    assert!(parse_amount("1e3").is_none());
    assert!(parse_amount("1.2.3").is_none());
    assert!(parse_amount("1234567890123456").is_none());
    assert_eq!(parse_amount("123456789012345").unwrap().mantissa, 123456789012345);
}

#[test]
fn export_renders_one_comma_line_per_row() {
    let grid = vec![
        vec!["Date".to_string()],
        vec![],
        vec![
            "01/02/24".to_string(),
            "COFFEE SHOP".to_string(),
            "R1".to_string(),
            "120.50".to_string(),
            String::new(),
            "1000.00".to_string(),
        ],
    ];
    let txns =
        stmt_proc::hdfc_bank_acct_processor::extract_bank_transactions(&grid, "HDFC01").unwrap();
    let mut store = TxnStore::new("out.csv");
    store.store_transactions(txns);
    let exported = store.export_transactions();
    let row_id = format!("{:x}", md5::compute("01/02/24|COFFEE SHOP|R1|120.50||1000.00"));
    let expected = format!(
        "{},HDFC01,2024-02-01,COFFEE SHOP,120.50,,,,,01/02/24|COFFEE SHOP|R1|120.50||1000.00",
        row_id
    );
    assert_eq!(exported, expected);
}

#[test]
fn store_keeps_batch_order_and_dedups_inside_a_batch() {
    let grid = vec![
        vec!["Date".to_string()],
        vec![],
        vec![
            "01/02/24".to_string(),
            "A".to_string(),
            "R1".to_string(),
            "1".to_string(),
            String::new(),
            "10".to_string(),
        ],
        vec![
            "02/02/24".to_string(),
            "B".to_string(),
            "R2".to_string(),
            "2".to_string(),
            String::new(),
            "8".to_string(),
        ],
    ];
    let txns =
        stmt_proc::hdfc_bank_acct_processor::extract_bank_transactions(&grid, "HDFC01").unwrap();
    let mut doubled = txns.clone();
    doubled.extend(txns.clone());
    let mut store = TxnStore::new("out.csv");
    store.store_transactions(doubled);
    assert_eq!(store.rows.len(), 2);
    assert_eq!(store.rows[0].narration, "A");
    assert_eq!(store.rows[1].narration, "B");
}
