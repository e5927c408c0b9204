//! The delimited-text (credit card) statement processor.
//!
//! The statement is a headerless comma-separated file whose field layout is
//! known a priori: the date, narration, amount and debit/credit marker
//! stand at fixed offsets. Records run until the first record whose date
//! field is empty — the sentinel; nothing after it is read. Per record,
//! the date (day/month/four-digit-year) is normalized, the amount is read
//! from its single column, and the marker must be the literal `Cr` (money
//! received) or `Dr` (money spent). The record's identity hashes the four
//! raw fields, pipe-joined.

use crate::amount::{amount_parts, parse_amount, AmountView};
use crate::dates::{normalize_date, normalized_date};
use crate::errors::{err_kind_of, format_error, ErrKind, StmtError};
use crate::hashing::{calculate_md5, md5_hex_of};
use crate::statement_processor::{
    derive_txn_source, prepend_rows, txn_source_of, StatementProcessorBase, Transaction, TxnView,
};
use crate::text::{join_with, joined_with};
use crate::txn_store::{spec_store, TxnStore};
use vstd::prelude::*;
use vstd::string::*;

verus! {

/// Field layout of the delimited statement, in source order.
pub const CC_DATE_COL: usize = 17;

pub const CC_NARRATION_COL: usize = 21;

pub const CC_AMOUNT_COL: usize = 48;

pub const CC_MARKER_COL: usize = 54;

/// How many fields a data record must offer.
pub const CC_MIN_FIELDS: usize = 55;

/// What the delimited-text reader yields for a byte stream: the headerless
/// comma-separated records, one sequence of text fields per line; `None`
/// when some record is malformed (e.g., an unterminated quote). A function
/// of the bytes alone.
pub uninterp spec fn csv_records_of(data: Seq<u8>) -> Option<Seq<Seq<Seq<char>>>>;

/// Relies on csv::ReaderBuilder: headerless records read from an in-memory
/// byte stream, each field taken as text; a read error on any record fails
/// the whole file.
#[verifier::external_body]
fn read_delimited_records(data: &[u8]) -> (r: Option<Vec<Vec<String>>>)
    ensures
        match r {
            Some(g) => csv_records_of(data@) == Some(g.deep_view()),
            None => csv_records_of(data@) is None,
        },
{
    let mut rdr = csv::ReaderBuilder::new().has_headers(false).from_reader(data);
    let mut out: Vec<Vec<String>> = Vec::new();
    for rec in rdr.records() {
        match rec {
            Ok(record) => out.push(record.iter().map(|f| f.to_string()).collect()),
            Err(_) => return None,
        }
    }
    Some(out)
}

/// The transaction extracted from one non-sentinel record, or `None` when
/// the record is rejected: too few fields, an unparseable date, an invalid
/// amount, or a marker that is neither `Cr` nor `Dr`.
pub open spec fn cc_row_txn(rec: Seq<Seq<char>>, src: Seq<char>) -> Option<TxnView> {
    if rec.len() < CC_MIN_FIELDS {
        None
    } else {
        let date = rec[CC_DATE_COL as int];
        let narr = rec[CC_NARRATION_COL as int];
        let amt = rec[CC_AMOUNT_COL as int];
        let marker = rec[CC_MARKER_COL as int];
        let raw = joined_with(seq![date, narr, amt, marker], '|');
        match normalized_date(date, 4) {
            None => None,
            Some(dt) => {
                if marker != "Cr"@ && marker != "Dr"@ {
                    None
                } else {
                    match amount_parts(amt) {
                        None => None,
                        Some((man, sc)) => Some(
                            TxnView {
                                row_id: md5_hex_of(raw),
                                txn_source: src,
                                txn_date: dt,
                                narration: narr,
                                txn_amount: AmountView { text: amt, mantissa: man, scale: sc },
                                credit_indicator: if marker == "Cr"@ {
                                    "Yes"@
                                } else {
                                    Seq::empty()
                                },
                                txn_type: Seq::empty(),
                                category: Seq::empty(),
                                sub_category: Seq::empty(),
                                raw_data: raw,
                            },
                        ),
                    }
                }
            },
        }
    }
}

/// The transactions of the records from `i` on, up to the sentinel: the
/// first record whose date field is present but empty (or the end of the
/// file). `None` when some record before the sentinel is rejected; a
/// record too short to even hold the date column is rejected, not a
/// sentinel.
pub open spec fn cc_rows_from(records: Seq<Seq<Seq<char>>>, i: int, src: Seq<char>) -> Option<
    Seq<TxnView>,
>
    decreases records.len() - i,
{
    if i < 0 || i >= records.len() {
        Some(Seq::empty())
    } else if records[i].len() > CC_DATE_COL && records[i][CC_DATE_COL as int].len() == 0 {
        Some(Seq::empty())
    } else {
        match cc_row_txn(records[i], src) {
            None => None,
            Some(t) => prepend_rows(seq![t], cc_rows_from(records, i + 1, src)),
        }
    }
}

/// The whole import of a delimited-text statement, as a function of the
/// file path and the file bytes.
pub open spec fn cc_parse_spec(path: Seq<char>, data: Seq<u8>) -> Result<Seq<TxnView>, ErrKind> {
    match txn_source_of(path) {
        None => Err(ErrKind::Format),
        Some(src) => match csv_records_of(data) {
            None => Err(ErrKind::Format),
            Some(records) => match cc_rows_from(records, 0, src) {
                None => Err(ErrKind::Format),
                Some(ts) => Ok(ts),
            },
        },
    }
}

/// Extracts one non-sentinel record.
fn cc_row_transaction(rec: &Vec<String>, txn_source: &str) -> (r: Result<Transaction, StmtError>)
    ensures
        match cc_row_txn(rec.deep_view(), txn_source@) {
            Some(tv) => r matches Ok(t) && t@ == tv,
            None => r matches Err(e) && e is FormatError,
        },
{
    let ghost rdv = rec.deep_view();
    if rec.len() < CC_MIN_FIELDS {
        return Err(format_error("data record has too few fields"));
    }
    let fields: Vec<String> = vec![
        rec[CC_DATE_COL].clone(),
        rec[CC_NARRATION_COL].clone(),
        rec[CC_AMOUNT_COL].clone(),
        rec[CC_MARKER_COL].clone(),
    ];
    proof {
        assert(fields.deep_view() =~= seq![
            rdv[CC_DATE_COL as int],
            rdv[CC_NARRATION_COL as int],
            rdv[CC_AMOUNT_COL as int],
            rdv[CC_MARKER_COL as int],
        ]);
        reveal_strlit("|");
    }
    let raw_data = join_with(&fields, "|");
    let row_id = calculate_md5(raw_data.as_str());
    let txn_date = match normalize_date(rec[CC_DATE_COL].as_str(), 4) {
        Some(t) => t,
        None => {
            return Err(format_error("date field is not a valid day/month/year date"));
        },
    };
    let cr_label = String::from_str("Cr");
    let dr_label = String::from_str("Dr");
    let is_cr = rec[CC_MARKER_COL] == cr_label;
    let is_dr = rec[CC_MARKER_COL] == dr_label;
    if !is_cr && !is_dr {
        return Err(format_error("debit/credit marker is neither Cr nor Dr"));
    }
    let txn_amount = match parse_amount(rec[CC_AMOUNT_COL].as_str()) {
        Some(a) => a,
        None => {
            return Err(format_error("amount field is not a valid decimal number"));
        },
    };
    let credit_indicator = if is_cr {
        String::from_str("Yes")
    } else {
        String::new()
    };
    let t = Transaction {
        row_id,
        txn_source: txn_source.to_owned(),
        txn_date,
        narration: rec[CC_NARRATION_COL].clone(),
        txn_amount,
        credit_indicator,
        txn_type: String::new(),
        category: String::new(),
        sub_category: String::new(),
        raw_data,
    };
    proof {
        let tv = cc_row_txn(rdv, txn_source@).unwrap();
        assert(t@ =~= tv);
    }
    Ok(t)
}

/// Extracts every data record of the delimited file, from the first record
/// up to the sentinel.
pub fn extract_cc_transactions(records: &Vec<Vec<String>>, txn_source: &str) -> (r: Result<
    Vec<Transaction>,
    StmtError,
>)
    ensures
        match cc_rows_from(records.deep_view(), 0, txn_source@) {
            None => r matches Err(e) && e is FormatError,
            Some(ts) => r matches Ok(v) && v.deep_view() == ts,
        },
{
    let ghost dv = records.deep_view();
    let n = records.len();
    let mut txns: Vec<Transaction> = Vec::new();
    let mut j: usize = 0;
    proof {
        assert(txns.deep_view() =~= Seq::<TxnView>::empty());
        assert(prepend_rows(txns.deep_view(), cc_rows_from(dv, 0, txn_source@)) == cc_rows_from(
            dv,
            0,
            txn_source@,
        ));
    }
    while j < n
        invariant
            0 <= j <= n,
            dv == records.deep_view(),
            dv.len() == n,
            prepend_rows(txns.deep_view(), cc_rows_from(dv, j as int, txn_source@))
                == cc_rows_from(dv, 0, txn_source@),
        decreases n - j,
    {
        let rec = &records[j];
        proof {
            assert(dv[j as int] =~= rec.deep_view());
            assert(dv[j as int].len() == rec@.len());
        }
        let sentinel = if rec.len() <= CC_DATE_COL {
            false
        } else {
            let e = rec[CC_DATE_COL].as_str().is_empty();
            proof {
                assert(dv[j as int][CC_DATE_COL as int] == rec.deep_view()[CC_DATE_COL as int]);
            }
            e
        };
        if sentinel {
            proof {
                assert(dv[j as int].len() > CC_DATE_COL);
                assert(dv[j as int][CC_DATE_COL as int].len() == 0);
                assert(cc_rows_from(dv, j as int, txn_source@) == Some(Seq::<TxnView>::empty()));
                assert(txns.deep_view() + Seq::<TxnView>::empty() =~= txns.deep_view());
            }
            return Ok(txns);
        }
        proof {
            assert(!(dv[j as int].len() > CC_DATE_COL && dv[j as int][CC_DATE_COL as int].len()
                == 0));
        }
        match cc_row_transaction(rec, txn_source) {
            Err(e) => {
                proof {
                    assert(cc_rows_from(dv, j as int, txn_source@) is None);
                }
                return Err(e);
            },
            Ok(t) => {
                let ghost tv = t@;
                let ghost acc_before = txns.deep_view();
                txns.push(t);
                proof {
                    assert(cc_row_txn(dv[j as int], txn_source@) == Some(tv));
                    assert(txns.deep_view() =~= acc_before.push(tv));
                    let rest = cc_rows_from(dv, j + 1, txn_source@);
                    assert(cc_rows_from(dv, j as int, txn_source@) == prepend_rows(
                        seq![tv],
                        rest,
                    ));
                    if rest is Some {
                        let ts = rest.unwrap();
                        assert(acc_before + (seq![tv] + ts) =~= acc_before.push(tv) + ts);
                    }
                }
            },
        }
        j = j + 1;
    }
    proof {
        assert(cc_rows_from(dv, j as int, txn_source@) == Some(Seq::<TxnView>::empty()));
        assert(txns.deep_view() + Seq::<TxnView>::empty() =~= txns.deep_view());
    }
    Ok(txns)
}

/// Sensitivity, down to the hashed string: when every hashed field is free
/// of the pipe separator, two records that differ in any hashed field
/// build different `raw_data` strings. (The digest of `raw_data` is named,
/// not computed, so the step from distinct `raw_data` to distinct `row_id`
/// rests on the outside digest and is exercised by tests instead.)
pub proof fn lemma_cc_raw_data_sensitive(
    r1: Seq<Seq<char>>,
    r2: Seq<Seq<char>>,
    src1: Seq<char>,
    src2: Seq<char>,
)
    requires
        r1.len() >= CC_MIN_FIELDS,
        r2.len() >= CC_MIN_FIELDS,
        !r1[CC_DATE_COL as int].contains('|') && !r1[CC_NARRATION_COL as int].contains('|')
            && !r1[CC_AMOUNT_COL as int].contains('|') && !r1[CC_MARKER_COL as int].contains('|'),
        !r2[CC_DATE_COL as int].contains('|') && !r2[CC_NARRATION_COL as int].contains('|')
            && !r2[CC_AMOUNT_COL as int].contains('|') && !r2[CC_MARKER_COL as int].contains('|'),
        r1[CC_DATE_COL as int] != r2[CC_DATE_COL as int] || r1[CC_NARRATION_COL as int]
            != r2[CC_NARRATION_COL as int] || r1[CC_AMOUNT_COL as int] != r2[CC_AMOUNT_COL as int]
            || r1[CC_MARKER_COL as int] != r2[CC_MARKER_COL as int],
        cc_row_txn(r1, src1) is Some,
        cc_row_txn(r2, src2) is Some,
    ensures
        cc_row_txn(r1, src1).unwrap().raw_data != cc_row_txn(r2, src2).unwrap().raw_data,
{
    let a = seq![
        r1[CC_DATE_COL as int],
        r1[CC_NARRATION_COL as int],
        r1[CC_AMOUNT_COL as int],
        r1[CC_MARKER_COL as int],
    ];
    let b = seq![
        r2[CC_DATE_COL as int],
        r2[CC_NARRATION_COL as int],
        r2[CC_AMOUNT_COL as int],
        r2[CC_MARKER_COL as int],
    ];
    assert(crate::text::sep_free(a, '|')) by {
        assert(a[0] == r1[CC_DATE_COL as int] && a[1] == r1[CC_NARRATION_COL as int] && a[2]
            == r1[CC_AMOUNT_COL as int] && a[3] == r1[CC_MARKER_COL as int]);
    }
    assert(crate::text::sep_free(b, '|')) by {
        assert(b[0] == r2[CC_DATE_COL as int] && b[1] == r2[CC_NARRATION_COL as int] && b[2]
            == r2[CC_AMOUNT_COL as int] && b[3] == r2[CC_MARKER_COL as int]);
    }
    assert(cc_row_txn(r1, src1).unwrap().raw_data == joined_with(a, '|'));
    assert(cc_row_txn(r2, src2).unwrap().raw_data == joined_with(b, '|'));
    if joined_with(a, '|') == joined_with(b, '|') {
        crate::text::lemma_joined_with_injective(a, b, '|');
        assert(a[0] == b[0] && a[1] == b[1] && a[2] == b[2] && a[3] == b[3]);
        assert(false);
    }
}

/// Fields outside the four hashed columns do not touch the transaction:
/// two records that agree on those fields extract identically, `row_id`
/// included.
pub proof fn lemma_cc_row_ignores_excluded_fields(
    r1: Seq<Seq<char>>,
    r2: Seq<Seq<char>>,
    src: Seq<char>,
)
    requires
        r1.len() >= CC_MIN_FIELDS,
        r2.len() >= CC_MIN_FIELDS,
        r1[CC_DATE_COL as int] == r2[CC_DATE_COL as int],
        r1[CC_NARRATION_COL as int] == r2[CC_NARRATION_COL as int],
        r1[CC_AMOUNT_COL as int] == r2[CC_AMOUNT_COL as int],
        r1[CC_MARKER_COL as int] == r2[CC_MARKER_COL as int],
    ensures
        cc_row_txn(r1, src) == cc_row_txn(r2, src),
{
    assert(seq![
        r1[CC_DATE_COL as int],
        r1[CC_NARRATION_COL as int],
        r1[CC_AMOUNT_COL as int],
        r1[CC_MARKER_COL as int],
    ] =~= seq![
        r2[CC_DATE_COL as int],
        r2[CC_NARRATION_COL as int],
        r2[CC_AMOUNT_COL as int],
        r2[CC_MARKER_COL as int],
    ]);
}

/// Every transaction the credit-card rules construct is well formed: its
/// `row_id` is the digest of its `raw_data`, its amount is a valid
/// decimal, and its enrichment fields are empty.
pub proof fn lemma_cc_row_txn_wf(rec: Seq<Seq<char>>, src: Seq<char>)
    requires
        cc_row_txn(rec, src) is Some,
    ensures
        crate::statement_processor::txn_wf(cc_row_txn(rec, src).unwrap()),
{
}

/// Sentinel termination: when a record at or after position `i` has an
/// empty date field, extraction never reaches past it — at most the
/// records before it are emitted, however well formed the records after it
/// look.
pub proof fn lemma_cc_sentinel_stops(
    records: Seq<Seq<Seq<char>>>,
    i: int,
    k: int,
    src: Seq<char>,
)
    requires
        0 <= i <= k < records.len(),
        records[k].len() > CC_DATE_COL,
        records[k][CC_DATE_COL as int].len() == 0,
        cc_rows_from(records, i, src) is Some,
    ensures
        cc_rows_from(records, i, src).unwrap().len() <= k - i,
    decreases k - i,
{
    if i < k && !(records[i].len() > CC_DATE_COL && records[i][CC_DATE_COL as int].len() == 0) {
        lemma_cc_sentinel_stops(records, i + 1, k, src);
    }
}

/// The processor for delimited-text credit-card statements, bound to the
/// statement-type key `hdfc-cc`.
pub struct HdfcCreditCardStatementProcessor {
    pub base: StatementProcessorBase,
}

impl HdfcCreditCardStatementProcessor {
    pub fn new(txn_store: TxnStore) -> (r: Self)
        ensures
            r.base.txn_store == txn_store,
            r.base.statement_type@ == "hdfc-cc"@,
    {
        Self { base: StatementProcessorBase::new(txn_store, String::from_str("hdfc-cc")) }
    }

    /// Imports one statement file: derives the source code from the path,
    /// reads the delimited records from the bytes, extracts every data
    /// record, and stores the batch in the sink. On any error nothing is
    /// stored.
    pub fn parse_statement(&mut self, file_path: &str, data: &[u8]) -> (r: Result<(), StmtError>)
        ensures
            final(self).base.statement_type == old(self).base.statement_type,
            final(self).base.txn_store.csv_file == old(self).base.txn_store.csv_file,
            match cc_parse_spec(file_path@, data@) {
                Ok(ts) => r is Ok && final(self).base.txn_store.rows.deep_view() == spec_store(
                    old(self).base.txn_store.rows.deep_view(),
                    ts,
                ),
                Err(k) => (r matches Err(e) && err_kind_of(e) == k) && *final(self) == *old(self),
            },
    {
        let src = match derive_txn_source(file_path) {
            Ok(s) => s,
            Err(e) => {
                return Err(e);
            },
        };
        let records = match read_delimited_records(data) {
            Some(g) => g,
            None => {
                return Err(format_error("cannot read the delimited records"));
            },
        };
        let txns = match extract_cc_transactions(&records, src.as_str()) {
            Ok(t) => t,
            Err(e) => {
                return Err(e);
            },
        };
        self.base.store_transactions(txns);
        Ok(())
    }
}

} // verus!
