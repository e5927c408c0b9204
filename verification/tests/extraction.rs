use stmt_proc::errors::StmtError;
use stmt_proc::hdfc_bank_acct_processor::extract_bank_transactions;
use stmt_proc::hdfc_credit_card_processor::extract_cc_transactions;
use stmt_proc::txn_store::TxnStore;

fn s(v: &str) -> String {
    v.to_string()
}

fn bank_row(date: &str, narr: &str, reference: &str, debit: &str, credit: &str, bal: &str) -> Vec<String> {
    vec![s(date), s(narr), s(reference), s(debit), s(credit), s(bal)]
}

fn cc_record(date: &str, narr: &str, amount: &str, marker: &str) -> Vec<String> {
    let mut rec = vec![String::new(); 55];
    rec[17] = s(date);
    rec[21] = s(narr);
    rec[48] = s(amount);
    rec[54] = s(marker);
    rec
}

/// A spreadsheet grid with the header at sheet row 5 (index 4), data at
/// sheet rows 7 and 8, an empty-date row at sheet row 9, and a valid-looking
/// row at sheet row 10.
fn sentinel_grid() -> Vec<Vec<String>> {
    vec![
        vec![s("Account statement")],
        vec![],
        vec![s("Some preamble")],
        vec![],
        vec![s("Date"), s("Narration"), s("Ref"), s("Withdrawal"), s("Deposit"), s("Balance")],
        vec![],
        bank_row("01/02/24", "COFFEE SHOP", "R1", "120.50", "", "1000.00"),
        bank_row("02/02/24", "SALARY", "R2", "", "55000", "56000.50"),
        bank_row("", "", "", "", "", ""),
        bank_row("03/02/24", "NEVER READ", "R4", "10", "", "55990.50"),
    ]
}

#[test]
fn bank_extraction_normalizes_every_field() {
    let grid = sentinel_grid();
    let txns = extract_bank_transactions(&grid, "HDFC01").unwrap();
    assert_eq!(txns.len(), 2);

    let t = &txns[0];
    assert_eq!(t.txn_source, "HDFC01");
    assert_eq!(t.txn_date, "2024-02-01");
    assert_eq!(t.narration, "COFFEE SHOP");
    assert_eq!(t.txn_amount.text, "120.50");
    assert_eq!(t.txn_amount.mantissa, 12050);
    assert_eq!(t.txn_amount.scale, 2);
    assert_eq!(t.credit_indicator, "");
    assert_eq!(t.txn_type, "");
    assert_eq!(t.category, "");
    assert_eq!(t.sub_category, "");
    assert_eq!(t.raw_data, "01/02/24|COFFEE SHOP|R1|120.50||1000.00");

    let t2 = &txns[1];
    assert_eq!(t2.txn_date, "2024-02-02");
    assert_eq!(t2.credit_indicator, "Yes");
    assert_eq!(t2.txn_amount.mantissa, 55000);
    assert_eq!(t2.txn_amount.scale, 0);
}

#[test]
fn bank_sentinel_stops_extraction() {
    // Rows after the first empty-date row are never emitted, even
    // well-formed ones.
    let grid = sentinel_grid();
    let txns = extract_bank_transactions(&grid, "HDFC01").unwrap();
    assert_eq!(txns.len(), 2);
    assert!(txns.iter().all(|t| t.narration != "NEVER READ"));
}

#[test]
fn bank_row_id_is_md5_of_raw_data() {
    let grid = sentinel_grid();
    let txns = extract_bank_transactions(&grid, "HDFC01").unwrap();
    for t in &txns {
        let expected = format!("{:x}", md5::compute(&t.raw_data));
        assert_eq!(t.row_id, expected);
    }
    // A fixed digest, so the scheme is pinned across digest crates too.
    assert_eq!(
        format!("{:x}", md5::compute("01/02/24|COFFEE SHOP|R1|120.50||1000.00")),
        txns[0].row_id
    );
}

#[test]
fn bank_extraction_is_deterministic() {
    let grid = sentinel_grid();
    let a = extract_bank_transactions(&grid, "HDFC01").unwrap();
    let b = extract_bank_transactions(&grid, "HDFC01").unwrap();
    let ids_a: Vec<&str> = a.iter().map(|t| t.row_id.as_str()).collect();
    let ids_b: Vec<&str> = b.iter().map(|t| t.row_id.as_str()).collect();
    assert_eq!(ids_a, ids_b);
}

#[test]
fn reimport_stores_no_duplicates() {
    let grid = sentinel_grid();
    let mut store = TxnStore::new("out.csv");
    let first = extract_bank_transactions(&grid, "HDFC01").unwrap();
    store.store_transactions(first);
    let once = store.export_transactions();
    assert_eq!(store.rows.len(), 2);

    let second = extract_bank_transactions(&grid, "HDFC01").unwrap();
    store.store_transactions(second);
    assert_eq!(store.rows.len(), 2);
    assert_eq!(store.export_transactions(), once);
}

#[test]
fn changing_a_hashed_cell_changes_the_row_id() {
    let g1 = vec![
        vec![s("Date")],
        vec![],
        bank_row("01/02/24", "COFFEE SHOP", "R1", "120.50", "", "1000.00"),
    ];
    let mut g2 = g1.clone();
    g2[2][1] = s("TEA SHOP");
    let t1 = &extract_bank_transactions(&g1, "HDFC01").unwrap()[0];
    let t2 = &extract_bank_transactions(&g2, "HDFC01").unwrap()[0];
    assert_ne!(t1.row_id, t2.row_id);
}

#[test]
fn changing_an_excluded_cell_keeps_the_row_id() {
    let g1 = vec![
        vec![s("Date")],
        vec![],
        vec![s("01/02/24"), s("COFFEE SHOP"), s("R1"), s("120.50"), s(""), s("1000.00"), s("extra")],
    ];
    let mut g2 = g1.clone();
    g2[2][6] = s("changed");
    let t1 = &extract_bank_transactions(&g1, "HDFC01").unwrap()[0];
    let t2 = &extract_bank_transactions(&g2, "HDFC01").unwrap()[0];
    assert_eq!(t1.row_id, t2.row_id);
}

#[test]
fn missing_header_is_not_recognized() {
    let grid = vec![
        vec![s("Account statement")],
        bank_row("01/02/24", "COFFEE SHOP", "R1", "120.50", "", "1000.00"),
    ];
    let r = extract_bank_transactions(&grid, "HDFC01");
    assert!(matches!(r, Err(StmtError::FormatNotRecognizedError)));
}

#[test]
fn bad_bank_date_aborts_the_import() {
    let grid = vec![
        vec![s("Date")],
        vec![],
        bank_row("31/02/24", "COFFEE SHOP", "R1", "120.50", "", "1000.00"),
    ];
    let r = extract_bank_transactions(&grid, "HDFC01");
    assert!(matches!(r, Err(StmtError::FormatError { .. })));
}

#[test]
fn bad_bank_amount_aborts_the_import() {
    let grid = vec![
        vec![s("Date")],
        vec![],
        bank_row("01/02/24", "COFFEE SHOP", "R1", "12x", "", "1000.00"),
    ];
    let r = extract_bank_transactions(&grid, "HDFC01");
    assert!(matches!(r, Err(StmtError::FormatError { .. })));
}

#[test]
fn both_or_neither_amount_cells_are_rejected() {
    let both = vec![
        vec![s("Date")],
        vec![],
        bank_row("01/02/24", "COFFEE SHOP", "R1", "120.50", "10", "1000.00"),
    ];
    assert!(matches!(
        extract_bank_transactions(&both, "HDFC01"),
        Err(StmtError::FormatError { .. })
    ));
    let neither = vec![
        vec![s("Date")],
        vec![],
        bank_row("01/02/24", "COFFEE SHOP", "R1", "", "", "1000.00"),
    ];
    assert!(matches!(
        extract_bank_transactions(&neither, "HDFC01"),
        Err(StmtError::FormatError { .. })
    ));
}

#[test]
fn short_bank_row_is_rejected() {
    let grid = vec![vec![s("Date")], vec![], vec![s("01/02/24"), s("ONLY TWO")]];
    let r = extract_bank_transactions(&grid, "HDFC01");
    assert!(matches!(r, Err(StmtError::FormatError { .. })));
}

#[test]
fn cc_field_derivation_debit_marker() {
    let recs = vec![cc_record("15/03/2024", "GROCERY STORE", "1250.50", "Dr")];
    let txns = extract_cc_transactions(&recs, "HDFC12").unwrap();
    assert_eq!(txns.len(), 1);
    let t = &txns[0];
    assert_eq!(t.txn_date, "2024-03-15");
    assert_eq!(t.credit_indicator, "");
    assert_eq!(t.narration, "GROCERY STORE");
    assert_eq!(t.txn_amount.mantissa as f64 / 100.0, 1250.50);
    assert_eq!(t.txn_amount.scale, 2);
    assert_eq!(t.raw_data, "15/03/2024|GROCERY STORE|1250.50|Dr");
    assert_eq!(t.row_id, format!("{:x}", md5::compute(&t.raw_data)));
}

#[test]
fn cc_field_derivation_credit_marker() {
    let recs = vec![cc_record("15/03/2024", "REFUND", "99.99", "Cr")];
    let txns = extract_cc_transactions(&recs, "HDFC12").unwrap();
    assert_eq!(txns[0].credit_indicator, "Yes");
}

#[test]
fn cc_sentinel_stops_extraction() {
    let recs = vec![
        cc_record("15/03/2024", "GROCERY STORE", "1250.50", "Dr"),
        cc_record("", "FOOTER", "0", "Dr"),
        cc_record("16/03/2024", "NEVER READ", "1", "Dr"),
    ];
    let txns = extract_cc_transactions(&recs, "HDFC12").unwrap();
    assert_eq!(txns.len(), 1);
    assert_eq!(txns[0].narration, "GROCERY STORE");
}

#[test]
fn cc_bad_marker_is_rejected() {
    let recs = vec![cc_record("15/03/2024", "GROCERY STORE", "1250.50", "XX")];
    let r = extract_cc_transactions(&recs, "HDFC12");
    assert!(matches!(r, Err(StmtError::FormatError { .. })));
}

#[test]
fn cc_short_record_is_rejected() {
    let mut rec = vec![String::new(); 30];
    rec[17] = s("15/03/2024");
    rec[21] = s("GROCERY STORE");
    let r = extract_cc_transactions(&vec![rec], "HDFC12");
    assert!(matches!(r, Err(StmtError::FormatError { .. })));
}
