//! What holds of the rules of the taxonomy for every input.

use crate::batch::{
    after_row,
    batch,
    batch_from,
    CsvRowView,
    Rejection,
    taxonomy_at_row,
    taxonomy_for,
};
use crate::date::Date;
use crate::expense_tracker::{ExpenseTrackerView, taxonomy_from_transactions};
use crate::names::{lemma_ascending_index, lowercase};
use crate::table::{AmountText, records_of_transactions, transactions_have_records};
use crate::taxonomy::{
    category_named,
    category_names,
    category_valid,
    category_wf,
    found_category,
    has_category,
    has_subcategory,
    lemma_with_category,
    lemma_with_subcategory,
    reference_holds,
    resolution,
    subcategory_names,
    subcategory_outcome,
    subcategory_valid,
    taxonomy_wf,
    TaxonomyError,
    with_category,
    with_subcategory,
};
use crate::transaction::{
    Amount,
    CategoryView,
    confirmed,
    parsed_of_record,
    record_of_transaction,
    RejectionReason,
    TransactionCsvView,
    TransactionParsedView,
    TransactionView,
};
use vstd::prelude::*;

verus! {

/// In a well-formed taxonomy no two categories share a name, and within a
/// category no two sub-categories do.
pub proof fn law_names_are_unique(cats: Seq<CategoryView>)
    requires
        taxonomy_wf(cats),
    ensures
        forall|i: int, j: int|
            0 <= i < cats.len() && 0 <= j < cats.len() && i != j ==> cats[i].name != cats[j].name,
        forall|k: int, i: int, j: int|
            0 <= k < cats.len() && 0 <= i < cats[k].subcategories.len() && 0 <= j
                < cats[k].subcategories.len() && i != j ==> cats[k].subcategories[i].name
                != cats[k].subcategories[j].name,
{
    assert forall|i: int, j: int|
        0 <= i < cats.len() && 0 <= j < cats.len() && i != j implies cats[i].name
        != cats[j].name by {
        lemma_ascending_index(category_names(cats), i);
        lemma_ascending_index(category_names(cats), j);
    }
    assert forall|k: int, i: int, j: int|
        0 <= k < cats.len() && 0 <= i < cats[k].subcategories.len() && 0 <= j
            < cats[k].subcategories.len() && i != j implies cats[k].subcategories[i].name
        != cats[k].subcategories[j].name by {
        assert(category_wf(cats[k]));
        lemma_ascending_index(subcategory_names(cats[k].subcategories), i);
        lemma_ascending_index(subcategory_names(cats[k].subcategories), j);
    }
}

/// Adding a category twice, under names that differ at most in case, is the
/// same as adding it once: the second call changes nothing, the taxonomy
/// holds the name, and a taxonomy that was empty holds exactly one
/// category.
pub proof fn law_add_category_twice(
    cats: Seq<CategoryView>,
    first: Seq<char>,
    second: Seq<char>,
    first_date: Date,
    second_date: Date,
)
    requires
        taxonomy_wf(cats),
        lowercase(first) == lowercase(second),
    ensures
        with_category(
            with_category(cats, lowercase(first), first_date),
            lowercase(second),
            second_date,
        ) == with_category(cats, lowercase(first), first_date),
        has_category(with_category(cats, lowercase(first), first_date), lowercase(second)),
        cats.len() == 0 ==> with_category(cats, lowercase(first), first_date).len() == 1,
{
    lemma_with_category(cats, lowercase(first), first_date);
}

/// Adding a sub-category a second time under the same category, under
/// names that differ at most in case, is refused as a duplicate.
pub proof fn law_add_subcategory_twice(
    cats: Seq<CategoryView>,
    category: Seq<char>,
    first: Seq<char>,
    second: Seq<char>,
    date: Date,
)
    requires
        taxonomy_wf(cats),
        lowercase(first) == lowercase(second),
        subcategory_outcome(cats, lowercase(category), lowercase(first)) is Ok,
    ensures
        subcategory_outcome(
            with_subcategory(cats, lowercase(category), lowercase(first), date),
            lowercase(category),
            lowercase(second),
        ) == Err::<(), TaxonomyError>(TaxonomyError::DuplicateSubcategory),
{
    lemma_with_subcategory(cats, lowercase(category), lowercase(first), date);
    let after = with_subcategory(cats, lowercase(category), lowercase(first), date);
    assert(has_category(cats, lowercase(category)));
    assert(category_names(after).contains(lowercase(category)));
}

/// A category without sub-categories takes the transactions that name no
/// sub-category and rejects, as unexpected, those that name one.
pub proof fn law_category_without_subcategories(
    cats: Seq<CategoryView>,
    parsed: TransactionParsedView,
)
    requires
        has_category(cats, lowercase(parsed.category)),
        category_named(cats, lowercase(parsed.category)).subcategories.len() == 0,
    ensures
        parsed.subcategory_name is Some ==> resolution(cats, parsed) == Err::<
            TransactionView,
            RejectionReason,
        >(RejectionReason::UnexpectedSubcategory),
        parsed.subcategory_name is None ==> resolution(cats, parsed) == Ok::<
            TransactionView,
            RejectionReason,
        >(confirmed(parsed)),
{
}

/// A category with sub-categories takes the transactions that name one of
/// them, compared without regard to case, and rejects all others: those
/// that name another, and those that name none.
pub proof fn law_category_with_subcategories(
    cats: Seq<CategoryView>,
    parsed: TransactionParsedView,
)
    requires
        has_category(cats, lowercase(parsed.category)),
        category_named(cats, lowercase(parsed.category)).subcategories.len() > 0,
    ensures
        resolution(cats, parsed) is Ok <==> (parsed.subcategory_name matches Some(name)
            && has_subcategory(
            category_named(cats, lowercase(parsed.category)),
            lowercase(name),
        )),
        resolution(cats, parsed) is Ok ==> resolution(cats, parsed) == Ok::<
            TransactionView,
            RejectionReason,
        >(confirmed(parsed)),
        !(resolution(cats, parsed) is Ok) ==> resolution(cats, parsed) == Err::<
            TransactionView,
            RejectionReason,
        >(RejectionReason::MissingOrInvalidSubcategory),
{
}

/// A transaction whose category is not in the taxonomy is rejected for its
/// category, whatever else it holds.
pub proof fn law_unknown_category(cats: Seq<CategoryView>, parsed: TransactionParsedView)
    requires
        !has_category(cats, lowercase(parsed.category)),
    ensures
        resolution(cats, parsed) == Err::<TransactionView, RejectionReason>(
            RejectionReason::InvalidCategory,
        ),
{
}

/// When a row's own category and sub-category are added before the row is
/// held against the taxonomy, a row that names a sub-category is always
/// taken, and a row that names none is taken exactly where its category has
/// no sub-categories.
pub proof fn law_auto_create(cats: Seq<CategoryView>, parsed: TransactionParsedView)
    requires
        taxonomy_wf(cats),
    ensures
        taxonomy_wf(taxonomy_for(cats, parsed)),
        parsed.subcategory_name is Some ==> resolution(taxonomy_for(cats, parsed), parsed) is Ok,
        parsed.subcategory_name is None ==> (resolution(taxonomy_for(cats, parsed), parsed) is Ok
            <==> category_named(
            taxonomy_for(cats, parsed),
            lowercase(parsed.category),
        ).subcategories.len() == 0),
{
    let ckey = lowercase(parsed.category);
    lemma_with_category(cats, ckey, parsed.date);
    let grown = with_category(cats, ckey, parsed.date);
    match parsed.subcategory_name {
        Some(name) => {
            lemma_with_subcategory(grown, ckey, lowercase(name), parsed.date);
            let after = with_subcategory(grown, ckey, lowercase(name), parsed.date);
            assert(category_names(after).contains(ckey));
            let c = category_named(after, ckey);
            assert(has_subcategory(c, lowercase(name)));
            let i = subcategory_names(c.subcategories).index_of(lowercase(name));
            assert(0 <= i < c.subcategories.len());
        },
        None => {},
    }
}

/// Reading a record, taking the transaction under the taxonomy that its own
/// names create, and writing it again gives the record back, for a record
/// whose date is written as dates are written and whose amount columns
/// hold what the amount is written as.
pub proof fn law_round_trip(
    cats: Seq<CategoryView>,
    record: TransactionCsvView,
    amount: Amount,
    outbound: bool,
    magnitude: Seq<char>,
)
    requires
        taxonomy_wf(cats),
        Date::of_text(record.date) is Some,
        Date::of_text(record.date)->0.text() == Some(record.date),
        record.amount_out == (if outbound {
            magnitude
        } else {
            Seq::empty()
        }),
        record.amount_in == (if outbound {
            Seq::empty()
        } else {
            magnitude
        }),
        resolution(
            taxonomy_for(cats, parsed_of_record(record, Some(amount))->Ok_0),
            parsed_of_record(record, Some(amount))->Ok_0,
        ) is Ok,
    ensures
        record_of_transaction(
            resolution(
                taxonomy_for(cats, parsed_of_record(record, Some(amount))->Ok_0),
                parsed_of_record(record, Some(amount))->Ok_0,
            )->Ok_0,
            outbound,
            magnitude,
        ) == Some(record),
{
    let parsed = parsed_of_record(record, Some(amount))->Ok_0;
    let t = resolution(taxonomy_for(cats, parsed), parsed)->Ok_0;
    let written = record_of_transaction(t, outbound, magnitude)->0;
    assert(written.subcategory =~= record.subcategory);
    assert(written.tag =~= record.tag);
    assert(written.note =~= record.note);
}


/// The taxonomy holds already whatever the transactions under it name:
/// adding their categories and sub-categories again changes nothing.
pub proof fn law_taxonomy_covers_transactions(
    cats: Seq<CategoryView>,
    transactions: Seq<TransactionView>,
)
    requires
        forall|i: int|
            0 <= i < transactions.len() ==> reference_holds(
                cats,
                #[trigger] transactions[i],
            ),
    ensures
        taxonomy_from_transactions(cats, transactions) == cats,
    decreases transactions.len(),
{
    if transactions.len() > 0 {
        assert(reference_holds(cats, transactions[0]));
        let rest = transactions.drop_first();
        assert forall|i: int| 0 <= i < rest.len() implies reference_holds(
            cats,
            #[trigger] rest[i],
        ) by {
            assert(rest[i] == transactions[i + 1]);
        }
        law_taxonomy_covers_transactions(cats, rest);
    }
}

/// A transaction is taken exactly where its category and its sub-category
/// are both valid.
pub proof fn law_taken_iff_valid(cats: Seq<CategoryView>, parsed: TransactionParsedView)
    ensures
        resolution(cats, parsed) is Ok <==> category_valid(cats, parsed.category)
            && subcategory_valid(cats, parsed.category, parsed.subcategory_name),
{
    match found_category(cats, parsed.category) {
        Some(c) => {
            if parsed.subcategory_name is Some && has_subcategory(
                c,
                lowercase(parsed.subcategory_name->0),
            ) {
                let names = subcategory_names(c.subcategories);
                let i = names.index_of(lowercase(parsed.subcategory_name->0));
                assert(0 <= i < c.subcategories.len());
            }
        },
        None => {},
    }
}

/// What the rows of a batch hold once they are read, where each of them
/// can be read.
pub open spec fn transactions_of_rows(rows: Seq<CsvRowView>) -> Seq<TransactionView> {
    Seq::new(
        rows.len(),
        |i: int| confirmed(parsed_of_record(rows[i].record, rows[i].amount)->Ok_0),
    )
}

/// A batch never loses a count. Where it read every row, each row was
/// counted once, as taken or as rejected, each rejected row has its reason,
/// and the tracker holds one more transaction for each row that was taken.
/// Where, besides, it rejected no row, the tracker holds the rows in their
/// order after what it held before.
pub proof fn law_batch_counts(
    v: ExpenseTrackerView,
    accepted: nat,
    rejected: nat,
    reasons: Seq<Rejection>,
    rows: Seq<CsvRowView>,
    auto_create: bool,
)
    ensures
        batch_from(v, accepted, rejected, reasons, rows, auto_create).accepted >= accepted,
        batch_from(v, accepted, rejected, reasons, rows, auto_create).rejected >= rejected,
        batch_from(v, accepted, rejected, reasons, rows, auto_create).reasons.len() - reasons.len()
            == batch_from(v, accepted, rejected, reasons, rows, auto_create).rejected - rejected,
        batch_from(v, accepted, rejected, reasons, rows, auto_create).failure is None ==> {
            let outcome = batch_from(v, accepted, rejected, reasons, rows, auto_create);
            &&& outcome.accepted + outcome.rejected == accepted + rejected + rows.len()
            &&& outcome.tracker.transactions.len() == v.transactions.len() + outcome.accepted
                - accepted
            &&& forall|i: int|
                0 <= i < rows.len() ==> (#[trigger] parsed_of_record(
                    rows[i].record,
                    rows[i].amount,
                )) is Ok
            &&& outcome.rejected == rejected ==> outcome.tracker.transactions
                == v.transactions + transactions_of_rows(rows)
        },
    decreases rows.len(),
{
    if rows.len() > 0 {
        match parsed_of_record(rows[0].record, rows[0].amount) {
            Err(_) => {},
            Ok(parsed) => {
                let resolved = resolution(
                    taxonomy_at_row(v.categories, parsed, auto_create),
                    parsed,
                );
                let taken = resolved is Ok;
                let next = after_row(v, parsed, auto_create);
                let rest = rows.drop_first();
                let accepted_next = if taken {
                    accepted + 1
                } else {
                    accepted
                };
                let rejected_next = if taken {
                    rejected
                } else {
                    rejected + 1
                };
                let reasons_next = if taken {
                    reasons
                } else {
                    reasons.push(
                        Rejection {
                            row: (accepted + rejected) as usize,
                            reason: resolved->Err_0,
                        },
                    )
                };
                law_batch_counts(
                    next,
                    accepted_next,
                    rejected_next,
                    reasons_next,
                    rest,
                    auto_create,
                );
                let outcome = batch_from(v, accepted, rejected, reasons, rows, auto_create);
                assert(outcome == batch_from(
                    next,
                    accepted_next,
                    rejected_next,
                    reasons_next,
                    rest,
                    auto_create,
                ));
                if outcome.failure is None {
                    assert forall|i: int| 0 <= i < rows.len() implies (#[trigger] parsed_of_record(
                        rows[i].record,
                        rows[i].amount,
                    )) is Ok by {
                        if i > 0 {
                            assert(rows[i] == rest[i - 1]);
                            assert(parsed_of_record(rest[i - 1].record, rest[i - 1].amount) is Ok);
                        }
                    }
                    if outcome.rejected == rejected {
                        assert(taken);
                        assert(next.transactions == v.transactions.push(confirmed(parsed)));
                        assert forall|i: int| 0 <= i < rest.len() implies transactions_of_rows(
                            rest,
                        )[i] == transactions_of_rows(rows)[i + 1] by {
                            assert(rest[i] == rows[i + 1]);
                        }
                        assert(outcome.tracker.transactions =~= v.transactions
                            + transactions_of_rows(rows));
                    }
                }
            },
        }
    } else {
        assert(v.transactions + transactions_of_rows(rows) =~= v.transactions);
    }
}

/// A row is written as rows are written: its date is the text of the date
/// it stands for, and its amount columns hold the magnitude on the side of
/// the amount.
pub open spec fn row_in_written_form(row: CsvRowView, amount: AmountText) -> bool {
    &&& Date::of_text(row.record.date) is Some
    &&& Date::of_text(row.record.date)->0.text() == Some(row.record.date)
    &&& row.record.amount_out == (if amount.outbound {
        amount.magnitude@
    } else {
        Seq::empty()
    })
    &&& row.record.amount_in == (if amount.outbound {
        Seq::empty()
    } else {
        amount.magnitude@
    })
}

/// The records of some rows.
pub open spec fn records_of_rows(rows: Seq<CsvRowView>) -> Seq<TransactionCsvView> {
    Seq::new(rows.len(), |i: int| rows[i].record)
}

/// Loading a batch into a tracker without transactions and writing the
/// transactions back gives the records of the batch, where every row was
/// read and taken and stands in its written form.
pub proof fn law_batch_round_trip(
    v: ExpenseTrackerView,
    rows: Seq<CsvRowView>,
    amounts: Seq<AmountText>,
    auto_create: bool,
)
    requires
        v.transactions.len() == 0,
        batch(v, rows, auto_create).failure is None,
        batch(v, rows, auto_create).rejected == 0,
        amounts.len() == rows.len(),
        forall|i: int| 0 <= i < rows.len() ==> row_in_written_form(#[trigger] rows[i], amounts[i]),
    ensures
        batch(v, rows, auto_create).tracker.transactions.len() == rows.len(),
        transactions_have_records(
            batch(v, rows, auto_create).tracker.transactions,
            amounts,
            rows.len() as int,
        ),
        records_of_transactions(batch(v, rows, auto_create).tracker.transactions, amounts)
            == records_of_rows(rows),
{
    law_batch_counts(v, 0, 0, Seq::empty(), rows, auto_create);
    let taken = batch(v, rows, auto_create).tracker.transactions;
    assert(taken =~= transactions_of_rows(rows));
    assert forall|i: int| 0 <= i < rows.len() implies (#[trigger] record_of_transaction(
        taken[i],
        amounts[i].outbound,
        amounts[i].magnitude@,
    )) == Some(rows[i].record) by {
        assert(row_in_written_form(rows[i], amounts[i]));
        assert(parsed_of_record(rows[i].record, rows[i].amount) is Ok);
        let written = record_of_transaction(taken[i], amounts[i].outbound, amounts[i].magnitude@)->0;
        assert(written.subcategory =~= rows[i].record.subcategory);
        assert(written.tag =~= rows[i].record.tag);
        assert(written.note =~= rows[i].record.note);
    }
    assert(records_of_transactions(taken, amounts) =~= records_of_rows(rows));
}

} // verus!
