//! The transaction sink: an in-process store that keeps at most one row per
//! `row_id`, and a delimited-text export of what it holds.
//!
//! Storing is an insert-or-ignore on `row_id`, in batch order: a row whose
//! identity is already present leaves the store unchanged. Re-importing an
//! unchanged file therefore stores nothing new (`lemma_store_idempotent`).

use crate::statement_processor::{Transaction, TxnView};
use crate::text::{join_with, joined_with};
use vstd::prelude::*;
use vstd::string::*;

verus! {

/// Whether some stored row already carries the identity `id`.
pub open spec fn has_row_id(rows: Seq<TxnView>, id: Seq<char>) -> bool {
    exists|i: int| 0 <= i < rows.len() && rows[i].row_id == id
}

/// Insert-or-ignore of one transaction, keyed by `row_id`.
pub open spec fn insert_txn(rows: Seq<TxnView>, t: TxnView) -> Seq<TxnView> {
    if has_row_id(rows, t.row_id) {
        rows
    } else {
        rows.push(t)
    }
}

/// The store contents after a batch is stored, in batch order.
pub open spec fn spec_store(rows: Seq<TxnView>, batch: Seq<TxnView>) -> Seq<TxnView>
    decreases batch.len(),
{
    if batch.len() == 0 {
        rows
    } else {
        spec_store(insert_txn(rows, batch[0]), batch.drop_first())
    }
}

/// One line of the delimited export: every field of the row, in the
/// stored order, joined with commas; the amount appears as its source text.
pub open spec fn export_line(t: TxnView) -> Seq<char> {
    joined_with(
        seq![
            t.row_id,
            t.txn_source,
            t.txn_date,
            t.narration,
            t.txn_amount.text,
            t.credit_indicator,
            t.txn_type,
            t.category,
            t.sub_category,
            t.raw_data,
        ],
        ',',
    )
}

/// The whole export: one line per stored row, joined with newlines.
pub open spec fn spec_export(rows: Seq<TxnView>) -> Seq<char> {
    joined_with(Seq::new(rows.len(), |i: int| export_line(rows[i])), '\n')
}

/// The transaction sink. It receives extracted batches and keeps at most
/// one row per `row_id`; `csv_file` names the delimited-text file the
/// export is meant for.
pub struct TxnStore {
    pub csv_file: String,
    pub rows: Vec<Transaction>,
}

impl TxnStore {
    pub fn new(csv_file: &str) -> (r: Self)
        ensures
            r.csv_file@ == csv_file@,
            r.rows@.len() == 0,
    {
        TxnStore { csv_file: csv_file.to_owned(), rows: Vec::new() }
    }

    fn contains_row_id(&self, id: &String) -> (r: bool)
        ensures
            r == has_row_id(self.rows.deep_view(), id@),
    {
        let ghost dv = self.rows.deep_view();
        let mut j: usize = 0;
        while j < self.rows.len()
            invariant
                0 <= j <= self.rows.len(),
                dv == self.rows.deep_view(),
                dv.len() == self.rows.len(),
                forall|k: int| 0 <= k < j ==> (#[trigger] dv[k]).row_id != id@,
            decreases self.rows.len() - j,
        {
            if self.rows[j].row_id == *id {
                proof {
                    assert(dv[j as int].row_id == id@);
                }
                return true;
            }
            j = j + 1;
        }
        false
    }

    /// Stores a batch: each transaction in order, inserted unless a row
    /// with its `row_id` is already present.
    pub fn store_transactions(&mut self, transactions: Vec<Transaction>)
        ensures
            final(self).csv_file == old(self).csv_file,
            final(self).rows.deep_view() == spec_store(
                old(self).rows.deep_view(),
                transactions.deep_view(),
            ),
    {
        let ghost orig_rows = self.rows.deep_view();
        let ghost full_batch = transactions.deep_view();
        let ghost cf = self.csv_file;
        let mut batch = transactions;
        while batch.len() > 0
            invariant
                self.csv_file == cf,
                spec_store(orig_rows, full_batch) == spec_store(
                    self.rows.deep_view(),
                    batch.deep_view(),
                ),
            decreases batch.len(),
        {
            let ghost rows_before = self.rows.deep_view();
            let ghost batch_before = batch.deep_view();
            let t = batch.remove(0);
            proof {
                assert(batch.deep_view() =~= batch_before.drop_first());
                assert(t.deep_view() == batch_before[0]);
            }
            if self.contains_row_id(&t.row_id) {
                proof {
                    assert(insert_txn(rows_before, batch_before[0]) == rows_before);
                }
            } else {
                let ghost tv = t.deep_view();
                self.rows.push(t);
                proof {
                    assert(self.rows.deep_view() =~= rows_before.push(tv));
                    assert(insert_txn(rows_before, batch_before[0]) == rows_before.push(tv));
                }
            }
            proof {
                assert(spec_store(rows_before, batch_before) == spec_store(
                    self.rows.deep_view(),
                    batch.deep_view(),
                ));
            }
        }
        proof {
            assert(batch.deep_view().len() == 0);
        }
    }

    /// Renders everything stored as delimited text, one line per row.
    pub fn export_transactions(&self) -> (r: String)
        ensures
            r@ == spec_export(self.rows.deep_view()),
    {
        let ghost dv = self.rows.deep_view();
        let mut lines: Vec<String> = Vec::new();
        let mut i: usize = 0;
        while i < self.rows.len()
            invariant
                0 <= i <= self.rows.len(),
                dv == self.rows.deep_view(),
                dv.len() == self.rows.len(),
                lines.deep_view() =~= Seq::new(i as nat, |k: int| export_line(dv[k])),
            decreases self.rows.len() - i,
        {
            let t = &self.rows[i];
            let fields: Vec<String> = vec![
                t.row_id.clone(),
                t.txn_source.clone(),
                t.txn_date.clone(),
                t.narration.clone(),
                t.txn_amount.text.clone(),
                t.credit_indicator.clone(),
                t.txn_type.clone(),
                t.category.clone(),
                t.sub_category.clone(),
                t.raw_data.clone(),
            ];
            proof {
                assert(fields.deep_view() =~= seq![
                    dv[i as int].row_id,
                    dv[i as int].txn_source,
                    dv[i as int].txn_date,
                    dv[i as int].narration,
                    dv[i as int].txn_amount.text,
                    dv[i as int].credit_indicator,
                    dv[i as int].txn_type,
                    dv[i as int].category,
                    dv[i as int].sub_category,
                    dv[i as int].raw_data,
                ]);
            }
            proof {
                reveal_strlit(",");
            }
            let line = join_with(&fields, ",");
            proof {
                assert(line@ == export_line(dv[i as int]));
            }
            let ghost prev = lines.deep_view();
            lines.push(line);
            i = i + 1;
            proof {
                assert(lines.deep_view() =~= prev.push(line@));
                assert(lines.deep_view() =~= Seq::new(i as nat, |k: int| export_line(dv[k])));
            }
        }
        proof {
            reveal_strlit("\n");
        }
        let r = join_with(&lines, "\n");
        proof {
            assert(lines.deep_view() =~= Seq::new(dv.len(), |k: int| export_line(dv[k])));
        }
        r
    }
}

// ---------- laws of the store ----------

/// An identity already present survives storing any further batch.
pub proof fn lemma_store_monotone(rows: Seq<TxnView>, batch: Seq<TxnView>, id: Seq<char>)
    requires
        has_row_id(rows, id),
    ensures
        has_row_id(spec_store(rows, batch), id),
    decreases batch.len(),
{
    if batch.len() > 0 {
        let r1 = insert_txn(rows, batch[0]);
        assert(has_row_id(r1, id)) by {
            let w = choose|i: int| 0 <= i < rows.len() && rows[i].row_id == id;
            if !has_row_id(rows, batch[0].row_id) {
                assert(rows.push(batch[0])[w].row_id == id);
            }
        }
        lemma_store_monotone(r1, batch.drop_first(), id);
    }
}

/// After a batch is stored, every identity of the batch is present.
pub proof fn lemma_store_covers(rows: Seq<TxnView>, batch: Seq<TxnView>, k: int)
    requires
        0 <= k < batch.len(),
    ensures
        has_row_id(spec_store(rows, batch), batch[k].row_id),
    decreases batch.len(),
{
    let r1 = insert_txn(rows, batch[0]);
    if k == 0 {
        assert(has_row_id(r1, batch[0].row_id)) by {
            if !has_row_id(rows, batch[0].row_id) {
                assert(rows.push(batch[0])[rows.len() as int].row_id == batch[0].row_id);
            }
        }
        lemma_store_monotone(r1, batch.drop_first(), batch[0].row_id);
    } else {
        lemma_store_covers(r1, batch.drop_first(), k - 1);
        assert(batch.drop_first()[k - 1] == batch[k]);
    }
}

/// Storing a batch whose every identity is already present changes nothing.
pub proof fn lemma_store_noop(rows: Seq<TxnView>, batch: Seq<TxnView>)
    requires
        forall|k: int| 0 <= k < batch.len() ==> has_row_id(rows, (#[trigger] batch[k]).row_id),
    ensures
        spec_store(rows, batch) == rows,
    decreases batch.len(),
{
    if batch.len() > 0 {
        assert(has_row_id(rows, batch[0].row_id));
        assert(insert_txn(rows, batch[0]) == rows);
        assert(forall|k: int|
            0 <= k < batch.drop_first().len() ==> (#[trigger] batch.drop_first()[k])
                == batch[k + 1]);
        lemma_store_noop(rows, batch.drop_first());
    }
}

/// Idempotent re-import: storing the same batch a second time leaves the
/// store exactly as the first storing left it — a correct sink keeps no
/// duplicates.
pub proof fn lemma_store_idempotent(rows: Seq<TxnView>, batch: Seq<TxnView>)
    ensures
        spec_store(spec_store(rows, batch), batch) == spec_store(rows, batch),
{
    let s1 = spec_store(rows, batch);
    assert forall|k: int| 0 <= k < batch.len() implies has_row_id(
        s1,
        (#[trigger] batch[k]).row_id,
    ) by {
        lemma_store_covers(rows, batch, k);
    }
    lemma_store_noop(s1, batch);
}

} // verus!
