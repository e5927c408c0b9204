//! The spreadsheet (bank account) statement processor.
//!
//! The statement is a workbook whose worksheet `Sheet1` holds a preamble,
//! then a header row whose first cell is the literal `Date`, then one blank
//! row, then the data rows. Data rows run until the first row whose date
//! cell is empty — the sentinel; nothing after it is read. Per row, the
//! date (day/month/two-digit-year) is normalized, the amount is read from
//! the withdrawal column when it is populated and from the deposit column
//! otherwise, and exactly one of the two must be populated. The row's
//! identity hashes the six raw cells, pipe-joined in column order.

use crate::amount::{amount_parts, parse_amount, AmountView};
use crate::dates::{normalize_date, normalized_date};
use crate::errors::{err_kind_of, format_error, ErrKind, StmtError};
use crate::hashing::{calculate_md5, md5_hex_of};
use crate::statement_processor::{
    cell, derive_txn_source, prepend_rows, txn_source_of, StatementProcessorBase, Transaction,
    TxnView,
};
use crate::text::{join_with, joined_with};
use crate::txn_store::{spec_store, TxnStore};
use calamine::Reader;
use vstd::prelude::*;
use vstd::string::*;

verus! {

/// Column layout of the worksheet, in source order.
pub const BANK_DATE_COL: usize = 0;

pub const BANK_NARRATION_COL: usize = 1;

pub const BANK_REFERENCE_COL: usize = 2;

pub const BANK_DEBIT_COL: usize = 3;

pub const BANK_CREDIT_COL: usize = 4;

pub const BANK_BALANCE_COL: usize = 5;

/// How many leading columns a data row must offer.
pub const BANK_MIN_CELLS: usize = 6;

/// Data rows begin this many rows after the header row.
pub const BANK_DATA_OFFSET: usize = 2;

/// What the workbook decoder yields for a byte stream: the rows of the
/// worksheet named `sheet`, every cell rendered as text (an empty cell as
/// the empty string); `None` when the bytes are not a readable workbook or
/// it has no worksheet of that name. A function of the bytes and the name
/// alone.
pub uninterp spec fn xlsx_grid_of(data: Seq<u8>, sheet: Seq<char>) -> Option<Seq<Seq<Seq<char>>>>;

/// Relies on calamine: `Xlsx::new` over an in-memory reader decodes the
/// workbook, `worksheet_range` selects the worksheet by name, and each
/// cell's `Display` rendering is its text (`Data::Empty` renders empty).
#[verifier::external_body]
pub fn read_excel(data: &[u8], sheet: &str) -> (r: Option<Vec<Vec<String>>>)
    ensures
        match r {
            Some(g) => xlsx_grid_of(data@, sheet@) == Some(g.deep_view()),
            None => xlsx_grid_of(data@, sheet@) is None,
        },
{
    let cursor = std::io::Cursor::new(data);
    let mut workbook: calamine::Xlsx<_> = match calamine::Reader::new(cursor) {
        Ok(w) => w,
        Err(_) => return None,
    };
    let range = match workbook.worksheet_range(sheet) {
        Ok(rg) => rg,
        Err(_) => return None,
    };
    Some(range.rows().map(|row| row.iter().map(|c| c.to_string()).collect()).collect())
}

/// Index of the first row at or after `i` whose first cell is the header
/// label `Date`; `-1` when no row qualifies.
pub open spec fn bank_header_index_from(grid: Seq<Seq<Seq<char>>>, i: int) -> int
    decreases grid.len() - i,
{
    if i < 0 || i >= grid.len() {
        -1
    } else if cell(grid[i], BANK_DATE_COL as int) == "Date"@ {
        i
    } else {
        bank_header_index_from(grid, i + 1)
    }
}

/// The transaction extracted from one non-sentinel data row, or `None`
/// when the row is rejected: too few cells, an unparseable date, both or
/// neither of the debit and credit cells populated, or an invalid amount.
pub open spec fn bank_row_txn(row: Seq<Seq<char>>, src: Seq<char>) -> Option<TxnView> {
    if row.len() < BANK_MIN_CELLS {
        None
    } else {
        let raw = joined_with(
            seq![row[0], row[1], row[2], row[3], row[4], row[5]],
            '|',
        );
        let debit = row[BANK_DEBIT_COL as int];
        let credit = row[BANK_CREDIT_COL as int];
        match normalized_date(row[BANK_DATE_COL as int], 2) {
            None => None,
            Some(dt) => {
                if (debit.len() == 0) == (credit.len() == 0) {
                    None
                } else {
                    let amt_text = if debit.len() != 0 {
                        debit
                    } else {
                        credit
                    };
                    match amount_parts(amt_text) {
                        None => None,
                        Some((man, sc)) => Some(
                            TxnView {
                                row_id: md5_hex_of(raw),
                                txn_source: src,
                                txn_date: dt,
                                narration: row[BANK_NARRATION_COL as int],
                                txn_amount: AmountView { text: amt_text, mantissa: man, scale: sc },
                                credit_indicator: if credit.len() != 0 {
                                    "Yes"@
                                } else {
                                    Seq::empty()
                                },
                                txn_type: Seq::empty(),
                                category: Seq::empty(),
                                sub_category: Seq::empty(),
                                raw_data: raw,
                            },
                        ),
                    }
                }
            },
        }
    }
}

/// The transactions of the data rows from `i` on, up to the sentinel: the
/// first row whose date cell is empty (or the end of the sheet). `None`
/// when some row before the sentinel is rejected.
pub open spec fn bank_rows_from(grid: Seq<Seq<Seq<char>>>, i: int, src: Seq<char>) -> Option<
    Seq<TxnView>,
>
    decreases grid.len() - i,
{
    if i < 0 || i >= grid.len() {
        Some(Seq::empty())
    } else if cell(grid[i], BANK_DATE_COL as int).len() == 0 {
        Some(Seq::empty())
    } else {
        match bank_row_txn(grid[i], src) {
            None => None,
            Some(t) => prepend_rows(seq![t], bank_rows_from(grid, i + 1, src)),
        }
    }
}

/// The whole import of a spreadsheet statement, as a function of the file
/// path and the file bytes.
pub open spec fn bank_parse_spec(path: Seq<char>, data: Seq<u8>) -> Result<Seq<TxnView>, ErrKind> {
    match txn_source_of(path) {
        None => Err(ErrKind::Format),
        Some(src) => match xlsx_grid_of(data, "Sheet1"@) {
            None => Err(ErrKind::Format),
            Some(grid) => {
                let h = bank_header_index_from(grid, 0);
                if h < 0 {
                    Err(ErrKind::NotRecognized)
                } else {
                    match bank_rows_from(grid, h + BANK_DATA_OFFSET, src) {
                        None => Err(ErrKind::Format),
                        Some(ts) => Ok(ts),
                    }
                }
            },
        },
    }
}

fn find_bank_header(grid: &Vec<Vec<String>>) -> (r: Option<usize>)
    ensures
        match r {
            Some(h) => h < grid@.len() && bank_header_index_from(grid.deep_view(), 0) == h,
            None => bank_header_index_from(grid.deep_view(), 0) == -1,
        },
{
    let ghost dv = grid.deep_view();
    proof {
        reveal_strlit("Date");
    }
    let date_label: String = String::from_str("Date");
    let mut i: usize = 0;
    while i < grid.len()
        invariant
            0 <= i <= grid.len(),
            dv == grid.deep_view(),
            dv.len() == grid.len(),
            date_label@ == "Date"@,
            "Date"@.len() == 4,
            bank_header_index_from(dv, 0) == bank_header_index_from(dv, i as int),
        decreases grid.len() - i,
    {
        let row = &grid[i];
        proof {
            assert(dv[i as int] =~= row.deep_view());
        }
        if row.len() > 0 {
            if row[0] == date_label {
                proof {
                    assert(cell(dv[i as int], 0) == "Date"@);
                    assert(bank_header_index_from(dv, i as int) == i);
                }
                return Some(i);
            }
            proof {
                assert(cell(dv[i as int], 0) == row.deep_view()[0]);
                assert(cell(dv[i as int], 0) != "Date"@);
            }
        } else {
            proof {
                assert(cell(dv[i as int], 0) =~= Seq::<char>::empty());
                assert(cell(dv[i as int], 0) != "Date"@);
            }
        }
        proof {
            assert(bank_header_index_from(dv, i as int) == bank_header_index_from(dv, i + 1));
        }
        i = i + 1;
    }
    None
}

/// Extracts one non-sentinel data row.
fn bank_row_transaction(row: &Vec<String>, txn_source: &str) -> (r: Result<Transaction, StmtError>)
    ensures
        match bank_row_txn(row.deep_view(), txn_source@) {
            Some(tv) => r matches Ok(t) && t@ == tv,
            None => r matches Err(e) && e is FormatError,
        },
{
    let ghost rdv = row.deep_view();
    if row.len() < BANK_MIN_CELLS {
        return Err(format_error("data row has too few cells"));
    }
    let fields: Vec<String> = vec![
        row[BANK_DATE_COL].clone(),
        row[BANK_NARRATION_COL].clone(),
        row[BANK_REFERENCE_COL].clone(),
        row[BANK_DEBIT_COL].clone(),
        row[BANK_CREDIT_COL].clone(),
        row[BANK_BALANCE_COL].clone(),
    ];
    proof {
        assert(fields.deep_view() =~= seq![rdv[0], rdv[1], rdv[2], rdv[3], rdv[4], rdv[5]]);
        reveal_strlit("|");
    }
    let raw_data = join_with(&fields, "|");
    let row_id = calculate_md5(raw_data.as_str());
    let txn_date = match normalize_date(row[BANK_DATE_COL].as_str(), 2) {
        Some(t) => t,
        None => {
            return Err(format_error("date cell is not a valid day/month/year date"));
        },
    };
    let debit_empty = row[BANK_DEBIT_COL].as_str().is_empty();
    let credit_empty = row[BANK_CREDIT_COL].as_str().is_empty();
    if debit_empty == credit_empty {
        return Err(format_error("expected exactly one of the debit and credit cells"));
    }
    let amt_cell = if !debit_empty {
        &row[BANK_DEBIT_COL]
    } else {
        &row[BANK_CREDIT_COL]
    };
    let txn_amount = match parse_amount(amt_cell.as_str()) {
        Some(a) => a,
        None => {
            return Err(format_error("amount cell is not a valid decimal number"));
        },
    };
    let credit_indicator = if !credit_empty {
        String::from_str("Yes")
    } else {
        String::new()
    };
    let t = Transaction {
        row_id,
        txn_source: txn_source.to_owned(),
        txn_date,
        narration: row[BANK_NARRATION_COL].clone(),
        txn_amount,
        credit_indicator,
        txn_type: String::new(),
        category: String::new(),
        sub_category: String::new(),
        raw_data,
    };
    proof {
        let tv = bank_row_txn(rdv, txn_source@).unwrap();
        assert(t@ =~= tv);
    }
    Ok(t)
}

/// Extracts every data row of the worksheet grid: scans for the header,
/// starts two rows below it, and stops at the sentinel.
pub fn extract_bank_transactions(grid: &Vec<Vec<String>>, txn_source: &str) -> (r: Result<
    Vec<Transaction>,
    StmtError,
>)
    ensures
        ({
            let dv = grid.deep_view();
            let h = bank_header_index_from(dv, 0);
            &&& h < 0 ==> (r matches Err(e) && e is FormatNotRecognizedError)
            &&& h >= 0 ==> match bank_rows_from(dv, h + BANK_DATA_OFFSET, txn_source@) {
                None => r matches Err(e) && e is FormatError,
                Some(ts) => r matches Ok(v) && v.deep_view() == ts,
            }
        }),
{
    let ghost dv = grid.deep_view();
    let n = grid.len();
    let header_i = match find_bank_header(grid) {
        Some(h) => h,
        None => {
            return Err(StmtError::FormatNotRecognizedError);
        },
    };
    let ghost start_g = header_i + BANK_DATA_OFFSET as int;
    if n - header_i < BANK_DATA_OFFSET {
        proof {
            assert(bank_rows_from(dv, start_g, txn_source@) == Some(Seq::<TxnView>::empty()));
        }
        let v: Vec<Transaction> = Vec::new();
        proof {
            assert(v.deep_view() =~= Seq::<TxnView>::empty());
        }
        return Ok(v);
    }
    let start = header_i + BANK_DATA_OFFSET;
    let mut txns: Vec<Transaction> = Vec::new();
    let mut j = start;
    proof {
        assert(txns.deep_view() =~= Seq::<TxnView>::empty());
        assert(prepend_rows(txns.deep_view(), bank_rows_from(dv, j as int, txn_source@))
            == bank_rows_from(dv, start_g, txn_source@));
    }
    while j < n
        invariant
            start <= j <= n,
            dv == grid.deep_view(),
            dv.len() == n,
            start_g == start as int,
            bank_header_index_from(dv, 0) >= 0,
            bank_header_index_from(dv, 0) + BANK_DATA_OFFSET == start_g,
            prepend_rows(txns.deep_view(), bank_rows_from(dv, j as int, txn_source@))
                == bank_rows_from(dv, start_g, txn_source@),
        decreases n - j,
    {
        let row = &grid[j];
        proof {
            assert(dv[j as int] =~= row.deep_view());
        }
        let sentinel = if row.len() == 0 {
            proof {
                assert(cell(dv[j as int], 0) =~= Seq::<char>::empty());
            }
            true
        } else {
            let e = row[0].as_str().is_empty();
            proof {
                assert(cell(dv[j as int], 0) == row.deep_view()[0]);
            }
            e
        };
        if sentinel {
            proof {
                assert(cell(dv[j as int], BANK_DATE_COL as int).len() == 0);
                assert(bank_rows_from(dv, j as int, txn_source@) == Some(Seq::<TxnView>::empty()));
                assert(txns.deep_view() + Seq::<TxnView>::empty() =~= txns.deep_view());
            }
            return Ok(txns);
        }
        match bank_row_transaction(row, txn_source) {
            Err(e) => {
                proof {
                    assert(cell(dv[j as int], BANK_DATE_COL as int).len() != 0);
                    assert(bank_rows_from(dv, j as int, txn_source@) is None);
                }
                return Err(e);
            },
            Ok(t) => {
                let ghost tv = t@;
                let ghost acc_before = txns.deep_view();
                txns.push(t);
                proof {
                    assert(cell(dv[j as int], BANK_DATE_COL as int).len() != 0);
                    assert(bank_row_txn(dv[j as int], txn_source@) == Some(tv));
                    assert(txns.deep_view() =~= acc_before.push(tv));
                    let rest = bank_rows_from(dv, j + 1, txn_source@);
                    assert(bank_rows_from(dv, j as int, txn_source@) == prepend_rows(
                        seq![tv],
                        rest,
                    ));
                    if rest is Some {
                        let ts = rest.unwrap();
                        assert(acc_before + (seq![tv] + ts) =~= acc_before.push(tv) + ts);
                    }
                }
            },
        }
        j = j + 1;
    }
    proof {
        assert(bank_rows_from(dv, j as int, txn_source@) == Some(Seq::<TxnView>::empty()));
        assert(txns.deep_view() + Seq::<TxnView>::empty() =~= txns.deep_view());
    }
    Ok(txns)
}

/// Sensitivity, down to the hashed string: when every hashed cell is free
/// of the pipe separator, two rows that differ in any hashed cell build
/// different `raw_data` strings. (The digest of `raw_data` is named, not
/// computed, so the step from distinct `raw_data` to distinct `row_id`
/// rests on the outside digest and is exercised by tests instead.)
pub proof fn lemma_bank_raw_data_sensitive(
    r1: Seq<Seq<char>>,
    r2: Seq<Seq<char>>,
    src1: Seq<char>,
    src2: Seq<char>,
)
    requires
        r1.len() >= BANK_MIN_CELLS,
        r2.len() >= BANK_MIN_CELLS,
        forall|k: int| 0 <= k < BANK_MIN_CELLS ==> !(#[trigger] r1[k]).contains('|'),
        forall|k: int| 0 <= k < BANK_MIN_CELLS ==> !(#[trigger] r2[k]).contains('|'),
        r1[0] != r2[0] || r1[1] != r2[1] || r1[2] != r2[2] || r1[3] != r2[3] || r1[4] != r2[4]
            || r1[5] != r2[5],
        bank_row_txn(r1, src1) is Some,
        bank_row_txn(r2, src2) is Some,
    ensures
        bank_row_txn(r1, src1).unwrap().raw_data != bank_row_txn(r2, src2).unwrap().raw_data,
{
    let a = seq![r1[0], r1[1], r1[2], r1[3], r1[4], r1[5]];
    let b = seq![r2[0], r2[1], r2[2], r2[3], r2[4], r2[5]];
    assert forall|i: int| 0 <= i < a.len() implies !(#[trigger] a[i]).contains('|') by {
        assert(a[i] == r1[i]);
    }
    assert forall|i: int| 0 <= i < b.len() implies !(#[trigger] b[i]).contains('|') by {
        assert(b[i] == r2[i]);
    }
    assert(bank_row_txn(r1, src1).unwrap().raw_data == joined_with(a, '|'));
    assert(bank_row_txn(r2, src2).unwrap().raw_data == joined_with(b, '|'));
    if joined_with(a, '|') == joined_with(b, '|') {
        crate::text::lemma_joined_with_injective(a, b, '|');
        assert(a[0] == b[0] && a[1] == b[1] && a[2] == b[2] && a[3] == b[3] && a[4] == b[4]
            && a[5] == b[5]);
        assert(false);
    }
}

/// Cells outside the six hashed columns do not touch the transaction: two
/// rows that agree on those cells extract identically, `row_id` included.
pub proof fn lemma_bank_row_ignores_excluded_cells(
    r1: Seq<Seq<char>>,
    r2: Seq<Seq<char>>,
    src: Seq<char>,
)
    requires
        r1.len() >= BANK_MIN_CELLS,
        r2.len() >= BANK_MIN_CELLS,
        forall|k: int| 0 <= k < BANK_MIN_CELLS ==> r1[k] == r2[k],
    ensures
        bank_row_txn(r1, src) == bank_row_txn(r2, src),
{
    assert(r1[0] == r2[0] && r1[1] == r2[1] && r1[2] == r2[2] && r1[3] == r2[3] && r1[4] == r2[4]
        && r1[5] == r2[5]);
    assert(seq![r1[0], r1[1], r1[2], r1[3], r1[4], r1[5]] =~= seq![
        r2[0],
        r2[1],
        r2[2],
        r2[3],
        r2[4],
        r2[5],
    ]);
}

/// Every transaction the bank rules construct is well formed: its
/// `row_id` is the digest of its `raw_data`, its amount is a valid
/// decimal, and its enrichment fields are empty.
pub proof fn lemma_bank_row_txn_wf(row: Seq<Seq<char>>, src: Seq<char>)
    requires
        bank_row_txn(row, src) is Some,
    ensures
        crate::statement_processor::txn_wf(bank_row_txn(row, src).unwrap()),
{
}

/// Sentinel termination: when a data row at or after position `i` has an
/// empty date cell, extraction never reaches past it — at most the rows
/// before it are emitted, however well formed the rows after it look.
pub proof fn lemma_bank_sentinel_stops(
    grid: Seq<Seq<Seq<char>>>,
    i: int,
    k: int,
    src: Seq<char>,
)
    requires
        0 <= i <= k < grid.len(),
        cell(grid[k], BANK_DATE_COL as int).len() == 0,
        bank_rows_from(grid, i, src) is Some,
    ensures
        bank_rows_from(grid, i, src).unwrap().len() <= k - i,
    decreases k - i,
{
    if i < k && cell(grid[i], BANK_DATE_COL as int).len() != 0 {
        lemma_bank_sentinel_stops(grid, i + 1, k, src);
    }
}

/// The processor for spreadsheet bank-account statements, bound to the
/// statement-type key `hdfc-sa`.
pub struct HdfcBankAcctStatementProcessor {
    pub base: StatementProcessorBase,
}

impl HdfcBankAcctStatementProcessor {
    pub fn new(txn_store: TxnStore) -> (r: Self)
        ensures
            r.base.txn_store == txn_store,
            r.base.statement_type@ == "hdfc-sa"@,
    {
        Self { base: StatementProcessorBase::new(txn_store, String::from_str("hdfc-sa")) }
    }

    /// Imports one statement file: derives the source code from the path,
    /// decodes the workbook bytes, extracts every data row, and stores the
    /// batch in the sink. On any error nothing is stored.
    pub fn parse_statement(&mut self, file_path: &str, data: &[u8]) -> (r: Result<(), StmtError>)
        ensures
            final(self).base.statement_type == old(self).base.statement_type,
            final(self).base.txn_store.csv_file == old(self).base.txn_store.csv_file,
            match bank_parse_spec(file_path@, data@) {
                Ok(ts) => r is Ok && final(self).base.txn_store.rows.deep_view() == spec_store(
                    old(self).base.txn_store.rows.deep_view(),
                    ts,
                ),
                Err(k) => (r matches Err(e) && err_kind_of(e) == k) && *final(self) == *old(self),
            },
    {
        let src = match derive_txn_source(file_path) {
            Ok(s) => s,
            Err(e) => {
                return Err(e);
            },
        };
        let grid = match read_excel(data, "Sheet1") {
            Some(g) => g,
            None => {
                return Err(format_error("cannot open the workbook or find its worksheet"));
            },
        };
        let txns = match extract_bank_transactions(&grid, src.as_str()) {
            Ok(t) => t,
            Err(e) => {
                return Err(e);
            },
        };
        self.base.store_transactions(txns);
        Ok(())
    }
}

} // verus!
