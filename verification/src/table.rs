//! The table of transactions as text: a header line, then one line of seven
//! columns for each record.

use crate::expense_tracker::ExpenseTracker;
use crate::transaction::{
    ParseError,
    record_of_fields,
    record_of_transaction,
    texts,
    TransactionCsv,
    TransactionCsvView,
    TransactionView,
};
use vstd::prelude::*;

verus! {

/// The rows that the csv reader finds in a text after its header line, each
/// with its fields, or `None` where it cannot read the text as a table.
pub uninterp spec fn csv_rows(data: Seq<u8>) -> Option<Seq<Seq<Seq<char>>>>;

/// The text that the csv writer writes for rows of fields, or `None` where
/// it refuses them.
pub uninterp spec fn csv_text(rows: Seq<Seq<Seq<char>>>) -> Option<Seq<u8>>;

/// The texts of rows of fields.
pub open spec fn row_texts(rows: Seq<Vec<String>>) -> Seq<Seq<Seq<char>>> {
    Seq::new(rows.len(), |i: int| texts(rows[i]@))
}

/// Trusted: reads the text with a `csv::Reader` that takes the first line as
/// the header (`csv::ReaderBuilder::has_headers`, `from_reader`,
/// `Reader::records`) and hands out the fields of every record after it, or
/// the words of the reader's error. What the reader finds depends on the
/// text alone and is only named, not described; nothing is stated of the
/// words of an error.
#[verifier::external_body]
fn csv_read(data: &[u8]) -> (r: Result<Vec<Vec<String>>, String>)
    ensures
        r is Ok <==> csv_rows(data@) is Some,
        r matches Ok(rows) ==> row_texts(rows@) == csv_rows(data@)->0,
{
    let mut reader = csv::ReaderBuilder::new().has_headers(true).from_reader(data);
    let mut rows: Vec<Vec<String>> = Vec::new();
    for record in reader.records() {
        match record {
            Ok(record) => rows.push(record.iter().map(|field| field.to_string()).collect()),
            Err(e) => return Err(e.to_string()),
        }
    }
    Ok(rows)
}

/// Trusted: writes the rows with a `csv::Writer` into memory
/// (`Writer::from_writer`, `write_record`, `into_inner`) and hands out the
/// text, or the words of the writer's error. What the writer writes depends
/// on the rows alone and is only named, not described; nothing is stated of
/// the words of an error.
#[verifier::external_body]
fn csv_write(rows: &Vec<Vec<String>>) -> (r: Result<Vec<u8>, String>)
    ensures
        r is Ok <==> csv_text(row_texts(rows@)) is Some,
        r matches Ok(data) ==> data@ == csv_text(row_texts(rows@))->0,
{
    let mut writer = csv::Writer::from_writer(Vec::new());
    for row in rows {
        if let Err(e) = writer.write_record(row) {
            return Err(e.to_string());
        }
    }
    match writer.into_inner() {
        Ok(data) => Ok(data),
        Err(e) => Err(e.to_string()),
    }
}

/// Why a table could not be read or written.
#[derive(Debug, Clone, PartialEq, Eq)]
pub enum TableError {
    /// The text is no table, or the rows cannot be written as one; with the
    /// words of the reader or writer.
    Malformed(String),
    /// The row at this index, counted after the header, is no record.
    Row(usize, ParseError),
    /// The transaction at this index has a date that cannot be written.
    Date(usize),
    /// There is not one amount for each transaction.
    Amounts,
}

/// The views of a list of records.
pub open spec fn record_views(records: Seq<TransactionCsv>) -> Seq<TransactionCsvView> {
    Seq::new(records.len(), |i: int| records[i]@)
}

/// Every row before `k` is a record.
pub open spec fn rows_are_records(rows: Seq<Seq<Seq<char>>>, k: int) -> bool {
    forall|i: int| 0 <= i < k ==> (#[trigger] record_of_fields(rows[i])) is Ok
}

/// What reading a table gives: the records of its rows, or the first row
/// that is no record with its error, or nothing where the text is no table.
pub open spec fn read_outcome(data: Seq<u8>, r: Result<Vec<TransactionCsv>, TableError>) -> bool {
    match r {
        Ok(records) => {
            &&& csv_rows(data) is Some
            &&& records@.len() == csv_rows(data)->0.len()
            &&& forall|i: int|
                0 <= i < records@.len() ==> record_of_fields(#[trigger] csv_rows(data)->0[i])
                    == Ok::<TransactionCsvView, ParseError>(records@[i]@)
        },
        Err(TableError::Malformed(_)) => csv_rows(data) is None,
        Err(TableError::Row(k, e)) => {
            &&& csv_rows(data) is Some
            &&& k < csv_rows(data)->0.len()
            &&& rows_are_records(csv_rows(data)->0, k as int)
            &&& record_of_fields(csv_rows(data)->0[k as int]) == Err::<
                TransactionCsvView,
                ParseError,
            >(e)
        },
        Err(_) => false,
    }
}

/// Reads the records of a table from its text. The first line is the
/// header; every line after it is read by position.
pub fn read_records(data: &[u8]) -> (r: Result<Vec<TransactionCsv>, TableError>)
    ensures
        read_outcome(data@, r),
{
    let rows = match csv_read(data) {
        Ok(rows) => rows,
        Err(words) => {
            return Err(TableError::Malformed(words));
        },
    };
    let ghost found = csv_rows(data@)->0;
    let mut records: Vec<TransactionCsv> = Vec::new();
    let mut i: usize = 0;
    while i < rows.len()
        invariant
            i <= rows.len(),
            csv_rows(data@) == Some(found),
            row_texts(rows@) == found,
            records@.len() == i,
            forall|j: int|
                0 <= j < i ==> record_of_fields(#[trigger] found[j]) == Ok::<
                    TransactionCsvView,
                    ParseError,
                >(records@[j]@),
        decreases rows.len() - i,
    {
        assert(found[i as int] == texts(rows@[i as int]@));
        match TransactionCsv::from_fields(&rows[i]) {
            Ok(record) => {
                records.push(record);
            },
            Err(e) => {
                return Err(TableError::Row(i, e));
            },
        }
        i = i + 1;
    }
    Ok(records)
}

/// The names of the seven columns.
pub open spec fn header_texts() -> Seq<Seq<char>> {
    seq![
        "date"@,
        "amount_out"@,
        "amount_in"@,
        "category"@,
        "subcategory"@,
        "tag"@,
        "note"@,
    ]
}

/// The seven fields of a record, in the order of the columns.
pub open spec fn fields_of_record(record: TransactionCsvView) -> Seq<Seq<char>> {
    seq![
        record.date,
        record.amount_out,
        record.amount_in,
        record.category,
        record.subcategory,
        record.tag,
        record.note,
    ]
}

/// The rows of the table of some records: the header, then the records.
pub open spec fn table_of(records: Seq<TransactionCsvView>) -> Seq<Seq<Seq<char>>> {
    Seq::new(
        records.len() + 1,
        |i: int|
            if i == 0 {
                header_texts()
            } else {
                fields_of_record(records[i - 1])
            },
    )
}

fn header_row() -> (r: Vec<String>)
    ensures
        texts(r@) == header_texts(),
{
    let mut row: Vec<String> = Vec::new();
    row.push("date".to_owned());
    row.push("amount_out".to_owned());
    row.push("amount_in".to_owned());
    row.push("category".to_owned());
    row.push("subcategory".to_owned());
    row.push("tag".to_owned());
    row.push("note".to_owned());
    assert(texts(row@) =~= header_texts());
    row
}

fn record_row(record: &TransactionCsv) -> (r: Vec<String>)
    ensures
        texts(r@) == fields_of_record(record@),
{
    let mut row: Vec<String> = Vec::new();
    row.push(record.date.clone());
    row.push(record.amount_out.clone());
    row.push(record.amount_in.clone());
    row.push(record.category.clone());
    row.push(record.subcategory.clone());
    row.push(record.tag.clone());
    row.push(record.note.clone());
    assert(texts(row@) =~= fields_of_record(record@));
    row
}

/// Writes records as the text of a table: the header line, then one line
/// for each record.
pub fn write_records(records: &Vec<TransactionCsv>) -> (r: Result<Vec<u8>, TableError>)
    ensures
        match r {
            Ok(data) => csv_text(table_of(record_views(records@))) == Some(data@),
            Err(TableError::Malformed(_)) => csv_text(table_of(record_views(records@))) is None,
            Err(_) => false,
        },
{
    let mut rows: Vec<Vec<String>> = Vec::new();
    rows.push(header_row());
    let ghost table = table_of(record_views(records@));
    let mut i: usize = 0;
    while i < records.len()
        invariant
            i <= records.len(),
            table == table_of(record_views(records@)),
            rows@.len() == i + 1,
            forall|j: int| 0 <= j < rows@.len() ==> texts(#[trigger] rows@[j]@) == table[j],
        decreases records.len() - i,
    {
        rows.push(record_row(&records[i]));
        i = i + 1;
    }
    assert(row_texts(rows@) =~= table);
    match csv_write(&rows) {
        Ok(data) => Ok(data),
        Err(words) => Err(TableError::Malformed(words)),
    }
}

/// How the amount of a transaction is written: its magnitude as text, and
/// whether it is outbound.
#[derive(Debug, Clone, PartialEq, Eq)]
pub struct AmountText {
    pub outbound: bool,
    pub magnitude: String,
}

/// Every transaction before `k` has a record.
pub open spec fn transactions_have_records(
    transactions: Seq<TransactionView>,
    amounts: Seq<AmountText>,
    k: int,
) -> bool {
    forall|i: int|
        0 <= i < k ==> (#[trigger] record_of_transaction(
            transactions[i],
            amounts[i].outbound,
            amounts[i].magnitude@,
        )) is Some
}

/// The records of the transactions, each with its amount as it is written.
pub open spec fn records_of_transactions(
    transactions: Seq<TransactionView>,
    amounts: Seq<AmountText>,
) -> Seq<TransactionCsvView> {
    Seq::new(
        transactions.len(),
        |i: int|
            record_of_transaction(
                transactions[i],
                amounts[i].outbound,
                amounts[i].magnitude@,
            )->0,
    )
}

impl ExpenseTracker {
    /// The records of the retained transactions, in their order. The caller
    /// hands in, for each transaction, how its amount is written.
    pub fn transaction_records(&self, amounts: &Vec<AmountText>) -> (r: Result<
        Vec<TransactionCsv>,
        TableError,
    >)
        ensures
            match r {
                Ok(records) => {
                    &&& amounts@.len() == self@.transactions.len()
                    &&& transactions_have_records(
                        self@.transactions,
                        amounts@,
                        amounts@.len() as int,
                    )
                    &&& record_views(records@) == records_of_transactions(
                        self@.transactions,
                        amounts@,
                    )
                },
                Err(TableError::Amounts) => amounts@.len() != self@.transactions.len(),
                Err(TableError::Date(k)) => {
                    &&& amounts@.len() == self@.transactions.len()
                    &&& k < amounts@.len()
                    &&& transactions_have_records(self@.transactions, amounts@, k as int)
                    &&& self@.transactions[k as int].date.text() is None
                },
                Err(_) => false,
            },
    {
        if amounts.len() != self.transactions.len() {
            return Err(TableError::Amounts);
        }
        let mut records: Vec<TransactionCsv> = Vec::new();
        let mut i: usize = 0;
        while i < self.transactions.len()
            invariant
                i <= self.transactions.len(),
                amounts@.len() == self.transactions@.len(),
                self@.transactions.len() == self.transactions@.len(),
                records@.len() == i,
                forall|j: int|
                    0 <= j < i ==> (#[trigger] record_of_transaction(
                        self@.transactions[j],
                        amounts@[j].outbound,
                        amounts@[j].magnitude@,
                    )) == Some(records@[j]@),
            decreases self.transactions.len() - i,
        {
            let magnitude = amounts[i].magnitude.clone();
            match self.transactions[i].to_csv(amounts[i].outbound, magnitude) {
                Some(record) => {
                    records.push(record);
                },
                None => {
                    return Err(TableError::Date(i));
                },
            }
            i = i + 1;
        }
        assert(record_views(records@) =~= records_of_transactions(self@.transactions, amounts@));
        Ok(records)
    }

    /// Writes the retained transactions as the text of a table.
    pub fn write_transactions(&self, amounts: &Vec<AmountText>) -> (r: Result<Vec<u8>, TableError>)
        ensures
            match r {
                Ok(data) => {
                    &&& amounts@.len() == self@.transactions.len()
                    &&& transactions_have_records(
                        self@.transactions,
                        amounts@,
                        amounts@.len() as int,
                    )
                    &&& csv_text(
                        table_of(records_of_transactions(self@.transactions, amounts@)),
                    ) == Some(data@)
                },
                Err(TableError::Amounts) => amounts@.len() != self@.transactions.len(),
                Err(TableError::Date(k)) => {
                    &&& amounts@.len() == self@.transactions.len()
                    &&& k < amounts@.len()
                    &&& transactions_have_records(self@.transactions, amounts@, k as int)
                    &&& self@.transactions[k as int].date.text() is None
                },
                Err(TableError::Malformed(_)) => {
                    &&& amounts@.len() == self@.transactions.len()
                    &&& transactions_have_records(
                        self@.transactions,
                        amounts@,
                        amounts@.len() as int,
                    )
                    &&& csv_text(
                        table_of(records_of_transactions(self@.transactions, amounts@)),
                    ) is None
                },
                Err(TableError::Row(_, _)) => false,
            },
    {
        match self.transaction_records(amounts) {
            Ok(records) => write_records(&records),
            Err(e) => Err(e),
        }
    }
}

} // verus!
