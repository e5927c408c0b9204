use stmt_proc::errors::StmtError;
use stmt_proc::statement_processor::StatementProcessor;
use stmt_proc::statement_processor_provider::StatementProcessorProvider;
use stmt_proc::txn_store::TxnStore;

#[test]
fn test_get_hdfc_bank_acct_processor() {
    let txn_store = TxnStore::new(":memory:");
    let processor = StatementProcessorProvider::get_processor("hdfc-sa", txn_store)
        .expect("Failed to get HDFC Bank Account Processor");

    // Check that the processor is of the correct type
    assert!(matches!(processor, StatementProcessor::HdfcBankAcct(_)));
    assert_eq!(processor.statement_type(), "hdfc-sa");
}

#[test]
fn test_get_hdfc_credit_card_processor() {
    let txn_store = TxnStore::new(":memory:");
    let processor = StatementProcessorProvider::get_processor("hdfc-cc", txn_store)
        .expect("Failed to get HDFC Credit Card Processor");

    // Check that the processor is of the correct type
    assert!(matches!(processor, StatementProcessor::HdfcCreditCard(_)));
    assert_eq!(processor.statement_type(), "hdfc-cc");
}

#[test]
#[should_panic(expected = "Unsupported statement type")]
fn test_get_unsupported_processor() {
    let txn_store = TxnStore::new(":memory:");
    StatementProcessorProvider::get_processor("unsupported-type", txn_store)
        .map_err(|e| e.message())
        .expect("Expected panic for unsupported statement type");
}

#[test]
fn unknown_format_yields_unsupported_error_naming_the_key() {
    let txn_store = TxnStore::new(":memory:");
    let r = StatementProcessorProvider::get_processor("unknown-bank", txn_store);
    match r {
        Err(StmtError::UnsupportedStatementTypeError { key }) => {
            assert_eq!(key, "unknown-bank");
        }
        _ => panic!("expected the unsupported-type error"),
    }
}
