//! The normalized transaction record and the shared processor state.

use crate::amount::{amount_wf, Amount, AmountView};
use crate::errors::{err_kind_of, ErrKind, StmtError};
use crate::hashing::md5_hex_of;
use crate::hdfc_bank_acct_processor::{bank_parse_spec, HdfcBankAcctStatementProcessor};
use crate::hdfc_credit_card_processor::{cc_parse_spec, HdfcCreditCardStatementProcessor};
use crate::txn_store::{spec_store, TxnStore};
use vstd::prelude::*;
use vstd::string::*;

verus! {

/// The cell at column `j` of a raw row; a missing cell reads as empty.
pub open spec fn cell(row: Seq<Seq<char>>, j: int) -> Seq<char> {
    if 0 <= j < row.len() {
        row[j]
    } else {
        Seq::empty()
    }
}

/// A partial batch in front of the outcome of extracting the rest: `None`
/// propagates a failure, otherwise the rows concatenate.
pub open spec fn prepend_rows(acc: Seq<TxnView>, rest: Option<Seq<TxnView>>) -> Option<
    Seq<TxnView>,
> {
    match rest {
        None => None,
        Some(ts) => Some(acc + ts),
    }
}

/// The file's base name: what follows the last `/` of the path.
pub open spec fn base_name_of(s: Seq<char>) -> Seq<char>
    decreases s.len(),
{
    if s.len() == 0 {
        s
    } else if s.last() == '/' {
        Seq::empty()
    } else {
        base_name_of(s.drop_last()).push(s.last())
    }
}

/// The source code of a statement file: the first six characters of its
/// base name; absent when the base name is shorter than six characters.
pub open spec fn txn_source_of(path: Seq<char>) -> Option<Seq<char>> {
    if base_name_of(path).len() >= 6 {
        Some(base_name_of(path).take(6))
    } else {
        None
    }
}

proof fn lemma_base_name_suffix(s: Seq<char>, st: int)
    requires
        0 <= st <= s.len(),
        forall|j: int| st <= j < s.len() ==> s[j] != '/',
        st > 0 ==> s[st - 1] == '/',
    ensures
        base_name_of(s) == s.subrange(st, s.len() as int),
    decreases s.len(),
{
    if s.len() == 0 {
        assert(s.subrange(0, 0) =~= s);
    } else if st == s.len() {
        assert(s.last() == '/');
        assert(base_name_of(s) =~= s.subrange(st, s.len() as int));
    } else {
        assert(s.last() == s[s.len() - 1]);
        assert(s.last() != '/');
        assert(forall|j: int|
            st <= j < s.drop_last().len() ==> #[trigger] s.drop_last()[j] == s[j]);
        if st > 0 {
            assert(s.drop_last()[st - 1] == s[st - 1]);
        }
        lemma_base_name_suffix(s.drop_last(), st);
        assert(base_name_of(s) =~= s.subrange(st, s.len() as int));
    }
}

/// Derives the source code from a statement file path: the first six
/// characters of the base name, or a `FormatError` when the base name is
/// too short.
pub fn derive_txn_source(file_path: &str) -> (r: Result<String, StmtError>)
    ensures
        match r {
            Ok(src) => txn_source_of(file_path@) == Some(src@),
            Err(e) => txn_source_of(file_path@) is None && e is FormatError,
        },
{
    let n = file_path.unicode_len();
    let mut st = n;
    while st > 0 && file_path.get_char(st - 1) != '/'
        invariant
            0 <= st <= n,
            n == file_path@.len(),
            forall|j: int| st <= j < n ==> file_path@[j] != '/',
        decreases st,
    {
        st = st - 1;
    }
    proof {
        lemma_base_name_suffix(file_path@, st as int);
    }
    if n - st < 6 {
        return Err(crate::errors::format_error(
            "file name too short to derive a source code",
        ));
    }
    let src = file_path.substring_char(st, st + 6);
    proof {
        assert(src@ =~= base_name_of(file_path@).take(6));
    }
    Ok(src.to_owned())
}

/// One normalized statement row, produced fresh per source row and
/// immutable once created.
#[derive(Debug, Clone)]
pub struct Transaction {
    /// Content hash of `raw_data`; the deduplication primary key.
    pub row_id: String,
    /// Short code identifying the originating file: the first six
    /// characters of the file's base name.
    pub txn_source: String,
    /// The transaction date, normalized to `YYYY-MM-DD`.
    pub txn_date: String,
    /// Free-text description, copied verbatim from the source row.
    pub narration: String,
    /// The transaction amount; non-negative, direction is not encoded here.
    pub txn_amount: Amount,
    /// `"Yes"` when money was received, empty otherwise.
    pub credit_indicator: String,
    /// Reserved for a downstream enrichment stage; empty at creation.
    pub txn_type: String,
    /// Reserved for a downstream enrichment stage; empty at creation.
    pub category: String,
    /// Reserved for a downstream enrichment stage; empty at creation.
    pub sub_category: String,
    /// The pipe-joined raw source fields that `row_id` hashes.
    pub raw_data: String,
}

#[verifier::ext_equal]
pub ghost struct TxnView {
    pub row_id: Seq<char>,
    pub txn_source: Seq<char>,
    pub txn_date: Seq<char>,
    pub narration: Seq<char>,
    pub txn_amount: AmountView,
    pub credit_indicator: Seq<char>,
    pub txn_type: Seq<char>,
    pub category: Seq<char>,
    pub sub_category: Seq<char>,
    pub raw_data: Seq<char>,
}

impl View for Transaction {
    type V = TxnView;

    open spec fn view(&self) -> TxnView {
        TxnView {
            row_id: self.row_id@,
            txn_source: self.txn_source@,
            txn_date: self.txn_date@,
            narration: self.narration@,
            txn_amount: self.txn_amount@,
            credit_indicator: self.credit_indicator@,
            txn_type: self.txn_type@,
            category: self.category@,
            sub_category: self.sub_category@,
            raw_data: self.raw_data@,
        }
    }
}

impl DeepView for Transaction {
    type V = TxnView;

    open spec fn deep_view(&self) -> TxnView {
        self.view()
    }
}

/// What holds of every transaction an extractor constructs: the identity is
/// the hash of the raw source fields, the amount is well formed, and the
/// enrichment fields are empty.
pub open spec fn txn_wf(t: TxnView) -> bool {
    &&& t.row_id == md5_hex_of(t.raw_data)
    &&& amount_wf(t.txn_amount)
    &&& t.txn_type == Seq::<char>::empty()
    &&& t.category == Seq::<char>::empty()
    &&& t.sub_category == Seq::<char>::empty()
}

/// State shared by every statement processor: the sink it stores into and
/// the statement-type key it serves.
pub struct StatementProcessorBase {
    pub txn_store: TxnStore,
    pub statement_type: String,
}

impl StatementProcessorBase {
    pub fn new(txn_store: TxnStore, statement_type: String) -> (r: Self)
        ensures
            r.txn_store == txn_store,
            r.statement_type == statement_type,
    {
        Self { txn_store, statement_type }
    }

    pub fn statement_type(&self) -> (r: String)
        ensures
            r@ == self.statement_type@,
    {
        self.statement_type.clone()
    }

    pub fn txn_store(&self) -> (r: &TxnStore)
        ensures
            *r == self.txn_store,
    {
        &self.txn_store
    }

    /// Hands a batch to the sink, which keeps at most one row per `row_id`.
    pub fn store_transactions(&mut self, transactions: Vec<Transaction>)
        ensures
            final(self).statement_type == old(self).statement_type,
            final(self).txn_store.csv_file == old(self).txn_store.csv_file,
            final(self).txn_store.rows.deep_view() == spec_store(
                old(self).txn_store.rows.deep_view(),
                transactions.deep_view(),
            ),
    {
        self.txn_store.store_transactions(transactions);
    }
}

/// The closed set of statement processors the registry can hand out; the
/// supported set is fixed at build time and dispatch is by variant.
pub enum StatementProcessor {
    HdfcBankAcct(HdfcBankAcctStatementProcessor),
    HdfcCreditCard(HdfcCreditCardStatementProcessor),
}

impl StatementProcessor {
    pub open spec fn spec_statement_type(self) -> Seq<char> {
        match self {
            StatementProcessor::HdfcBankAcct(p) => p.base.statement_type@,
            StatementProcessor::HdfcCreditCard(p) => p.base.statement_type@,
        }
    }

    pub open spec fn spec_txn_store(self) -> TxnStore {
        match self {
            StatementProcessor::HdfcBankAcct(p) => p.base.txn_store,
            StatementProcessor::HdfcCreditCard(p) => p.base.txn_store,
        }
    }

    /// What the processor's sink currently holds.
    pub open spec fn store_rows(self) -> Seq<TxnView> {
        self.spec_txn_store().rows.deep_view()
    }

    /// The import outcome this processor's rules assign to a file: its
    /// extracted transactions, or the kind of error that rejects it.
    pub open spec fn spec_parse(self, path: Seq<char>, data: Seq<u8>) -> Result<
        Seq<TxnView>,
        ErrKind,
    > {
        match self {
            StatementProcessor::HdfcBankAcct(_) => bank_parse_spec(path, data),
            StatementProcessor::HdfcCreditCard(_) => cc_parse_spec(path, data),
        }
    }

    /// The statement-type key this processor serves.
    pub fn statement_type(&self) -> (r: String)
        ensures
            r@ == self.spec_statement_type(),
    {
        match self {
            StatementProcessor::HdfcBankAcct(p) => p.base.statement_type(),
            StatementProcessor::HdfcCreditCard(p) => p.base.statement_type(),
        }
    }

    pub fn txn_store(&self) -> (r: &TxnStore)
        ensures
            *r == self.spec_txn_store(),
    {
        match self {
            StatementProcessor::HdfcBankAcct(p) => p.base.txn_store(),
            StatementProcessor::HdfcCreditCard(p) => p.base.txn_store(),
        }
    }

    /// Hands a batch to the sink, which keeps at most one row per `row_id`.
    pub fn store_transactions(&mut self, transactions: Vec<Transaction>)
        ensures
            (*final(self) is HdfcBankAcct) == (*old(self) is HdfcBankAcct),
            final(self).spec_statement_type() == old(self).spec_statement_type(),
            final(self).spec_txn_store().csv_file == old(self).spec_txn_store().csv_file,
            final(self).store_rows() == spec_store(
                old(self).store_rows(),
                transactions.deep_view(),
            ),
    {
        match self {
            StatementProcessor::HdfcBankAcct(p) => p.base.store_transactions(transactions),
            StatementProcessor::HdfcCreditCard(p) => p.base.store_transactions(transactions),
        }
    }

    /// Imports one statement file under this processor's rules; on success
    /// the extracted batch is stored in the sink, on any error nothing is.
    pub fn parse_statement(&mut self, file_path: &str, data: &[u8]) -> (r: Result<(), StmtError>)
        ensures
            (*final(self) is HdfcBankAcct) == (*old(self) is HdfcBankAcct),
            final(self).spec_statement_type() == old(self).spec_statement_type(),
            final(self).spec_txn_store().csv_file == old(self).spec_txn_store().csv_file,
            match old(self).spec_parse(file_path@, data@) {
                Ok(ts) => r is Ok && final(self).store_rows() == spec_store(
                    old(self).store_rows(),
                    ts,
                ),
                Err(k) => (r matches Err(e) && err_kind_of(e) == k) && *final(self) == *old(self),
            },
    {
        match self {
            StatementProcessor::HdfcBankAcct(p) => p.parse_statement(file_path, data),
            StatementProcessor::HdfcCreditCard(p) => p.parse_statement(file_path, data),
        }
    }
}

/// Determinism of import: the outcome a processor assigns to a file — and
/// with it the sequence of row identities — is a function of the file path
/// and the file bytes alone, so repeated parses of an unchanged file yield
/// identical transactions.
pub proof fn lemma_parse_deterministic(
    p1: StatementProcessor,
    p2: StatementProcessor,
    path: Seq<char>,
    data: Seq<u8>,
)
    requires
        (p1 is HdfcBankAcct) == (p2 is HdfcBankAcct),
    ensures
        p1.spec_parse(path, data) == p2.spec_parse(path, data),
{
}

} // verus!
