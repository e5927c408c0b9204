use stmt_proc::errors::StmtError;
use stmt_proc::statement_processor_provider::StatementProcessorProvider;
use stmt_proc::txn_store::TxnStore;

/// One 55-field comma-separated line with the data fields at their fixed
/// offsets; `narr` may arrive already quoted.
fn cc_line(date: &str, narr: &str, amount: &str, marker: &str) -> String {
    let mut fields = vec![String::new(); 55];
    fields[17] = date.to_string();
    fields[21] = narr.to_string();
    fields[48] = amount.to_string();
    fields[54] = marker.to_string();
    fields.join(",")
}

#[test]
fn cc_parse_statement_end_to_end() {
    let mut processor =
        StatementProcessorProvider::get_processor("hdfc-cc", TxnStore::new("out.csv")).unwrap();
    let mut data = String::new();
    data.push_str(&cc_line("15/03/2024", "\"GROCERY, STORE\"", "1250.50", "Dr"));
    data.push('\n');
    data.push_str(&cc_line("16/03/2024", "REFUND", "99.99", "Cr"));
    data.push('\n');
    data.push_str(&cc_line("", "FOOTER", "", ""));
    data.push('\n');
    data.push_str(&cc_line("17/03/2024", "NEVER READ", "1", "Dr"));
    data.push('\n');

    processor
        .parse_statement("statements/HDFC12_statement_mar.csv", data.as_bytes())
        .unwrap();
    let store = processor.txn_store();
    assert_eq!(store.rows.len(), 2);
    assert_eq!(store.rows[0].txn_source, "HDFC12");
    assert_eq!(store.rows[0].txn_date, "2024-03-15");
    assert_eq!(store.rows[0].narration, "GROCERY, STORE");
    assert_eq!(store.rows[0].credit_indicator, "");
    assert_eq!(store.rows[1].txn_date, "2024-03-16");
    assert_eq!(store.rows[1].credit_indicator, "Yes");
    let expected_id = format!(
        "{:x}",
        md5::compute("15/03/2024|GROCERY, STORE|1250.50|Dr")
    );
    assert_eq!(store.rows[0].row_id, expected_id);
}

#[test]
fn cc_parse_twice_stores_each_row_once() {
    let mut processor =
        StatementProcessorProvider::get_processor("hdfc-cc", TxnStore::new("out.csv")).unwrap();
    let mut data = String::new();
    data.push_str(&cc_line("15/03/2024", "GROCERY STORE", "1250.50", "Dr"));
    data.push('\n');
    let path = "HDFC12_statement_mar.csv";
    processor.parse_statement(path, data.as_bytes()).unwrap();
    processor.parse_statement(path, data.as_bytes()).unwrap();
    assert_eq!(processor.txn_store().rows.len(), 1);
}

#[test]
fn cc_malformed_record_is_a_format_error() {
    let mut processor =
        StatementProcessorProvider::get_processor("hdfc-cc", TxnStore::new("out.csv")).unwrap();
    let data = b"\"unterminated,1,2\n";
    let r = processor.parse_statement("HDFC12_statement_mar.csv", data);
    assert!(matches!(r, Err(StmtError::FormatError { .. })));
    assert_eq!(processor.txn_store().rows.len(), 0);
}

#[test]
fn bank_parse_rejects_unreadable_workbook_bytes() {
    let mut processor =
        StatementProcessorProvider::get_processor("hdfc-sa", TxnStore::new("out.csv")).unwrap();
    let r = processor.parse_statement("HDFC01_statement.xls", b"not a workbook");
    assert!(matches!(r, Err(StmtError::FormatError { .. })));
    assert_eq!(processor.txn_store().rows.len(), 0);
}

#[test]
fn short_file_name_fails_before_the_bytes_are_read() {
    let mut processor =
        StatementProcessorProvider::get_processor("hdfc-sa", TxnStore::new("out.csv")).unwrap();
    let r = processor.parse_statement("a.xls", b"not a workbook");
    assert!(matches!(r, Err(StmtError::FormatError { .. })));
}
