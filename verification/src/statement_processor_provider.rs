//! The processor registry: routes a statement-type key to the processor
//! bound to it, and fails explicitly for an unknown key.

use crate::errors::StmtError;
use crate::hdfc_bank_acct_processor::HdfcBankAcctStatementProcessor;
use crate::hdfc_credit_card_processor::HdfcCreditCardStatementProcessor;
use crate::statement_processor::StatementProcessor;
use crate::txn_store::TxnStore;
use vstd::prelude::*;
use vstd::string::*;

verus! {

/// The registry. Its mapping is static and closed: adding an institution
/// format means adding a processor and an arm here, at build time.
pub struct StatementProcessorProvider;

impl StatementProcessorProvider {
    /// Returns the processor bound to `key`, holding `txn_store` as its
    /// sink. Exactly the keys `hdfc-sa` and `hdfc-cc` are supported; any
    /// other key yields the unsupported-type error naming that key, and
    /// never a processor.
    pub fn get_processor(key: &str, txn_store: TxnStore) -> (r: Result<
        StatementProcessor,
        StmtError,
    >)
        ensures
            key@ == "hdfc-sa"@ ==> (r matches Ok(p) && p matches StatementProcessor::HdfcBankAcct(
                b,
            ) && b.base.statement_type@ == "hdfc-sa"@ && b.base.txn_store == txn_store),
            key@ == "hdfc-cc"@ ==> (r matches Ok(p)
                && p matches StatementProcessor::HdfcCreditCard(c) && c.base.statement_type@
                == "hdfc-cc"@ && c.base.txn_store == txn_store),
            key@ != "hdfc-sa"@ && key@ != "hdfc-cc"@ ==> (r matches Err(e)
                && e matches StmtError::UnsupportedStatementTypeError { key: k } && k@ == key@),
    {
        proof {
            reveal_strlit("hdfc-sa");
            reveal_strlit("hdfc-cc");
            assert("hdfc-sa"@[5] == 's' && "hdfc-cc"@[5] == 'c');
            assert("hdfc-sa"@ != "hdfc-cc"@);
        }
        let key_string = key.to_owned();
        if key_string == String::from_str("hdfc-sa") {
            Ok(StatementProcessor::HdfcBankAcct(HdfcBankAcctStatementProcessor::new(txn_store)))
        } else if key_string == String::from_str("hdfc-cc") {
            Ok(
                StatementProcessor::HdfcCreditCard(
                    HdfcCreditCardStatementProcessor::new(txn_store),
                ),
            )
        } else {
            Err(StmtError::UnsupportedStatementTypeError { key: key_string })
        }
    }
}

} // verus!
