//! Loading a batch of rows: each row is read, its own category and
//! sub-category are added where that is asked for, and it is taken where
//! the taxonomy accepts it.

use crate::expense_tracker::{ExpenseTracker, ExpenseTrackerView, taxonomy_with_names};
use crate::taxonomy::{resolution, taxonomy_wf};
use crate::transaction::{
    Amount,
    CategoryView,
    parsed_of_record,
    ParseError,
    RejectionReason,
    TransactionCsv,
    TransactionCsvView,
    TransactionParsed,
    TransactionParsedView,
};
use vstd::prelude::*;

verus! {

/// One row of a batch: the record, and the signed amount that its two
/// amount columns stand for, `None` where one of them is no number.
#[derive(Debug, Clone, PartialEq, Eq)]
pub struct CsvRow {
    pub record: TransactionCsv,
    pub amount: Option<Amount>,
}

/// A row of a batch as contracts see it.
pub struct CsvRowView {
    pub record: TransactionCsvView,
    pub amount: Option<Amount>,
}

impl View for CsvRow {
    type V = CsvRowView;

    open spec fn view(&self) -> CsvRowView {
        CsvRowView { record: self.record@, amount: self.amount }
    }
}

/// The views of a list of rows.
pub open spec fn row_views(rows: Seq<CsvRow>) -> Seq<CsvRowView> {
    Seq::new(rows.len(), |i: int| rows[i]@)
}

/// A row that was read and then rejected: its index in the batch, and why.
#[derive(Clone, Copy, Debug, PartialEq, Eq, Structural)]
pub struct Rejection {
    pub row: usize,
    pub reason: RejectionReason,
}

/// How many rows of a batch were taken and how many were rejected, and the
/// rejected rows in their order, each with its reason.
#[derive(Clone, Debug, PartialEq, Eq)]
pub struct BatchResult {
    pub accepted: usize,
    pub rejected: usize,
    pub reasons: Vec<Rejection>,
}

/// The taxonomy after a transaction's own category and sub-category were
/// added to it, dated as the transaction.
pub open spec fn taxonomy_for(cats: Seq<CategoryView>, parsed: TransactionParsedView) -> Seq<
    CategoryView,
> {
    taxonomy_with_names(cats, parsed.category, parsed.subcategory_name, parsed.date)
}

/// The taxonomy against which a row is held.
pub open spec fn taxonomy_at_row(
    cats: Seq<CategoryView>,
    parsed: TransactionParsedView,
    auto_create: bool,
) -> Seq<CategoryView> {
    if auto_create {
        taxonomy_for(cats, parsed)
    } else {
        cats
    }
}

/// The tracker after one parsed row: with `auto_create` the row's own
/// category and sub-category are added first; then the row is taken where
/// the taxonomy accepts it.
pub open spec fn after_row(
    v: ExpenseTrackerView,
    parsed: TransactionParsedView,
    auto_create: bool,
) -> ExpenseTrackerView {
    let cats = taxonomy_at_row(v.categories, parsed, auto_create);
    ExpenseTrackerView {
        categories: cats,
        transactions: match resolution(cats, parsed) {
            Ok(t) => v.transactions.push(t),
            Err(_) => v.transactions,
        },
    }
}

/// How a batch ended: the tracker, the counts, the rejected rows with their
/// reasons, and the error of the row that could not be read, where there
/// was one.
pub struct BatchOutcome {
    pub tracker: ExpenseTrackerView,
    pub accepted: nat,
    pub rejected: nat,
    pub reasons: Seq<Rejection>,
    pub failure: Option<ParseError>,
}

/// The rows are handled in their order. A row that cannot be read ends the
/// batch: what the rows before it did stays, and the rows after it are not
/// looked at. A row that is read and then rejected is counted and skipped;
/// its index is the number of rows counted before it.
pub open spec fn batch_from(
    v: ExpenseTrackerView,
    accepted: nat,
    rejected: nat,
    reasons: Seq<Rejection>,
    rows: Seq<CsvRowView>,
    auto_create: bool,
) -> BatchOutcome
    decreases rows.len(),
{
    if rows.len() == 0 {
        BatchOutcome { tracker: v, accepted, rejected, reasons, failure: None }
    } else {
        match parsed_of_record(rows[0].record, rows[0].amount) {
            Err(e) => BatchOutcome { tracker: v, accepted, rejected, reasons, failure: Some(e) },
            Ok(parsed) => match resolution(
                taxonomy_at_row(v.categories, parsed, auto_create),
                parsed,
            ) {
                Ok(_) => batch_from(
                    after_row(v, parsed, auto_create),
                    accepted + 1,
                    rejected,
                    reasons,
                    rows.drop_first(),
                    auto_create,
                ),
                Err(reason) => batch_from(
                    after_row(v, parsed, auto_create),
                    accepted,
                    rejected + 1,
                    reasons.push(Rejection { row: (accepted + rejected) as usize, reason }),
                    rows.drop_first(),
                    auto_create,
                ),
            },
        }
    }
}

/// What a batch makes of a tracker.
pub open spec fn batch(v: ExpenseTrackerView, rows: Seq<CsvRowView>, auto_create: bool) -> BatchOutcome {
    batch_from(v, 0, 0, Seq::empty(), rows, auto_create)
}

/// A copy of a record.
pub fn clone_record(record: &TransactionCsv) -> (r: TransactionCsv)
    ensures
        r@ == record@,
{
    TransactionCsv {
        date: record.date.clone(),
        amount_out: record.amount_out.clone(),
        amount_in: record.amount_in.clone(),
        category: record.category.clone(),
        subcategory: record.subcategory.clone(),
        tag: record.tag.clone(),
        note: record.note.clone(),
    }
}

impl ExpenseTracker {
    /// Handles one parsed row: with `auto_create` its own category and
    /// sub-category are added first, dated as the row; then the row is taken
    /// where the taxonomy accepts it.
    pub fn load_row(&mut self, transaction_parsed: TransactionParsed, auto_create: bool) -> (r:
        Result<(), RejectionReason>)
        requires
            taxonomy_wf(old(self)@.categories),
        ensures
            taxonomy_wf(final(self)@.categories),
            old(self).wf() ==> final(self).wf(),
            final(self)@ == after_row(old(self)@, transaction_parsed@, auto_create),
            match resolution(
                taxonomy_at_row(old(self)@.categories, transaction_parsed@, auto_create),
                transaction_parsed@,
            ) {
                Ok(_) => r is Ok,
                Err(e) => r == Err::<(), RejectionReason>(e),
            },
    {
        if auto_create {
            self.add_names(
                transaction_parsed.category.as_str(),
                &transaction_parsed.subcategory_name,
                transaction_parsed.date,
            );
        }
        self.add_transaction(transaction_parsed)
    }

    /// Loads a batch of rows in their order. A row that cannot be read ends
    /// the batch with its error; the rows before it stay handled. A row that
    /// the taxonomy rejects is counted and skipped.
    pub fn load_transactions(&mut self, rows: &Vec<CsvRow>, auto_create: bool) -> (r: Result<
        BatchResult,
        ParseError,
    >)
        requires
            taxonomy_wf(old(self)@.categories),
        ensures
            taxonomy_wf(final(self)@.categories),
            old(self).wf() ==> final(self).wf(),
            final(self)@ == batch(old(self)@, row_views(rows@), auto_create).tracker,
            match r {
                Ok(counts) => {
                    let outcome = batch(old(self)@, row_views(rows@), auto_create);
                    &&& outcome.failure is None
                    &&& counts.accepted == outcome.accepted
                    &&& counts.rejected == outcome.rejected
                    &&& counts.reasons@ == outcome.reasons
                },
                Err(e) => batch(old(self)@, row_views(rows@), auto_create).failure == Some(e),
            },
    {
        let mut accepted: usize = 0;
        let mut rejected: usize = 0;
        let mut reasons: Vec<Rejection> = Vec::new();
        let mut i: usize = 0;
        let ghost all = row_views(rows@);
        assert(all.skip(0) =~= all);
        while i < rows.len()
            invariant
                i <= rows.len(),
                taxonomy_wf(self@.categories),
                old(self).wf() ==> self.wf(),
                all == row_views(rows@),
                accepted + rejected == i,
                batch(old(self)@, all, auto_create) == batch_from(
                    self@,
                    accepted as nat,
                    rejected as nat,
                    reasons@,
                    all.skip(i as int),
                    auto_create,
                ),
            decreases rows.len() - i,
        {
            proof {
                assert(all.skip(i as int)[0] == rows@[i as int]@);
                assert(all.skip(i as int).drop_first() =~= all.skip(i + 1));
            }
            let parsed = match TransactionParsed::try_from(
                clone_record(&rows[i].record),
                rows[i].amount,
            ) {
                Ok(parsed) => parsed,
                Err(e) => {
                    return Err(e);
                },
            };
            match self.load_row(parsed, auto_create) {
                Ok(()) => {
                    accepted = accepted + 1;
                },
                Err(reason) => {
                    reasons.push(Rejection { row: i, reason });
                    rejected = rejected + 1;
                },
            }
            i = i + 1;
        }
        Ok(BatchResult { accepted, rejected, reasons })
    }
}

} // verus!
