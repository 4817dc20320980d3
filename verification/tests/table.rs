use expenses_tracking::date::Date;
use expenses_tracking::batch::BatchResult;
use expenses_tracking::batch::CsvRow;
use expenses_tracking::expense_tracker::ExpenseTracker;
use expenses_tracking::table::read_records;
use expenses_tracking::table::write_records;
use expenses_tracking::table::AmountText;
use expenses_tracking::table::TableError;
use expenses_tracking::transaction::clean_amount;
use expenses_tracking::transaction::Amount;
use expenses_tracking::transaction::Category;
use expenses_tracking::transaction::Field;
use expenses_tracking::transaction::ParseError;
use expenses_tracking::transaction::SubCategory;
use expenses_tracking::transaction::Transaction;
use expenses_tracking::transaction::TransactionCsv;

const TABLE: &str = "date,amount_out,amount_in,category,subcategory,tag,note\n\
01.01.2024,30.00,,food,groceries,weekly,\n\
02.01.2024,,2500.00,salary,,,\"January, paid late\"\n\
03.01.2024,1234.50,,rent,,,\n";

fn amount_of(text: &str) -> Option<f32> {
    match clean_amount(text) {
        None => Some(0.0),
        Some(digits) => digits.parse::<f32>().ok(),
    }
}

fn rows_of(records: Vec<TransactionCsv>) -> Vec<CsvRow> {
    records
        .into_iter()
        .map(|record| {
            let amount = match (amount_of(&record.amount_in), amount_of(&record.amount_out)) {
                (Some(inbound), Some(outbound)) => {
                    Some(Amount { bits: (inbound - outbound).to_bits() })
                }
                _ => None,
            };
            CsvRow { record, amount }
        })
        .collect()
}

fn amount_texts(tracker: &ExpenseTracker) -> Vec<AmountText> {
    tracker
        .transactions
        .iter()
        .map(|t| {
            let amount = f32::from_bits(t.amount.bits);
            if amount < 0.0 {
                AmountText { outbound: true, magnitude: format!("{:.2}", -amount) }
            } else {
                AmountText { outbound: false, magnitude: format!("{:.2}", amount) }
            }
        })
        .collect()
}

#[test]
fn table_is_read_by_position() {
    let records = read_records(TABLE.as_bytes()).unwrap();
    assert_eq!(records.len(), 3);
    assert_eq!(
        records[1],
        TransactionCsv {
            date: "02.01.2024".to_string(),
            amount_out: String::new(),
            amount_in: "2500.00".to_string(),
            category: "salary".to_string(),
            subcategory: String::new(),
            tag: String::new(),
            note: "January, paid late".to_string(),
        }
    );
    assert_eq!(records[0].subcategory, "groceries");
    assert_eq!(records[2].amount_out, "1234.50");
    assert_eq!(read_records(b"date,amount_out,amount_in,category\n"), Ok(Vec::new()));
    assert_eq!(read_records(b""), Ok(Vec::new()));
}

#[test]
fn table_that_is_no_table() {
    let uneven = b"date,amount_out,amount_in,category\n01.01.2024,1,,food\n02.01.2024,1\n";
    assert!(matches!(read_records(uneven), Err(TableError::Malformed(_))));
    let not_text = b"date,amount_out,amount_in,category\n\xff\xfe,1,,food\n";
    assert!(matches!(read_records(not_text), Err(TableError::Malformed(_))));
    let narrow = b"date,amount_out,amount_in\n01.01.2024,1,\n02.01.2024,2,\n";
    assert_eq!(
        read_records(narrow),
        Err(TableError::Row(0, ParseError::MissingField(Field::Category)))
    );
}

#[test]
fn table_is_written_with_its_header() {
    let records = read_records(TABLE.as_bytes()).unwrap();
    assert_eq!(write_records(&records), Ok(TABLE.as_bytes().to_vec()));
    assert_eq!(
        write_records(&Vec::new()),
        Ok(b"date,amount_out,amount_in,category,subcategory,tag,note\n".to_vec())
    );
}

#[test]
fn table_round_trip_through_the_tracker() {
    let rows = rows_of(read_records(TABLE.as_bytes()).unwrap());
    let mut tracker = ExpenseTracker::new();
    assert_eq!(
        tracker.load_transactions(&rows, true),
        Ok(BatchResult { accepted: 3, rejected: 0, reasons: Vec::new() })
    );
    assert!(tracker.is_well_formed());
    assert_eq!(tracker.transactions[2].amount, Amount { bits: (-1234.5f32).to_bits() });
    let amounts = amount_texts(&tracker);
    let written = tracker.write_transactions(&amounts).unwrap();
    assert_eq!(String::from_utf8(written).unwrap(), TABLE);
    let records = tracker.transaction_records(&amounts).unwrap();
    assert_eq!(records, read_records(TABLE.as_bytes()).unwrap());
}

#[test]
fn writing_needs_an_amount_for_each_transaction() {
    let mut tracker = ExpenseTracker::new();
    tracker.load_transactions(&rows_of(read_records(TABLE.as_bytes()).unwrap()), true).unwrap();
    let mut amounts = amount_texts(&tracker);
    amounts.pop();
    assert_eq!(tracker.write_transactions(&amounts), Err(TableError::Amounts));
    assert_eq!(tracker.transaction_records(&amounts), Err(TableError::Amounts));
}

#[test]
fn writing_needs_dates_of_the_calendar() {
    let mut tracker = ExpenseTracker::new();
    tracker.load_transactions(&rows_of(read_records(TABLE.as_bytes()).unwrap()), true).unwrap();
    tracker.transactions[1].date = Date { year: 2024, month: 4, day: 31 };
    let amounts = amount_texts(&tracker);
    assert_eq!(tracker.write_transactions(&amounts), Err(TableError::Date(1)));
}

#[test]
fn well_formed_trackers() {
    let mut tracker = ExpenseTracker::new();
    assert!(tracker.is_well_formed());
    tracker.add_category("b", None);
    tracker.add_category("a", None);
    tracker.add_subcategory("a", "y", None).unwrap();
    tracker.add_subcategory("a", "x", None).unwrap();
    assert!(tracker.is_well_formed());
    assert!(ExpenseTracker::taxonomy_is_well_formed(&tracker.valid_categories));

    let taken = Transaction {
        date: Date::default(),
        amount: Amount { bits: 0 },
        category_name: "A".to_string(),
        subcategory_name: Some("X".to_string()),
        tag: None,
        note: None,
    };
    assert!(tracker.refers_to_taxonomy(&taken));
    let mut dangling = taken.clone();
    dangling.subcategory_name = Some("z".to_string());
    assert!(!tracker.refers_to_taxonomy(&dangling));
    let mut nowhere = taken.clone();
    nowhere.category_name = "c".to_string();
    assert!(!tracker.refers_to_taxonomy(&nowhere));

    tracker.transactions.push(taken);
    assert!(tracker.is_well_formed());
    tracker.transactions.push(dangling);
    assert!(!tracker.is_well_formed());
    tracker.transactions.pop();
    assert!(tracker.is_well_formed());

    tracker.valid_categories.swap(0, 1);
    assert!(!tracker.is_well_formed());
    tracker.valid_categories.swap(0, 1);
    tracker.valid_categories.push(Category::from_name("b"));
    assert!(!tracker.is_well_formed());
    tracker.valid_categories.pop();
    tracker.valid_categories[0].subcategories.push(SubCategory::from_name("w"));
    assert!(!ExpenseTracker::taxonomy_is_well_formed(&tracker.valid_categories));
}

fn csv_to_vec(data: &[u8]) -> Result<Vec<csv::StringRecord>, csv::Error> {
    let mut reader = csv::ReaderBuilder::new().from_reader(data);
    reader.records().collect::<Result<Vec<_>, _>>()
}

#[test]
fn load_transactions_from_file_and_write_to_another() {
    let input = TABLE.as_bytes();
    let mut expense_tracker = ExpenseTracker::new();
    let rows = rows_of(read_records(input).unwrap());
    expense_tracker.load_transactions(&rows, true).unwrap();
    let amounts = amount_texts(&expense_tracker);
    let output = expense_tracker.write_transactions(&amounts).unwrap();

    let input_data = csv_to_vec(input).unwrap();
    let output_data = csv_to_vec(&output).unwrap();
    assert_eq!(input_data.len(), 3);
    assert_eq!(input_data, output_data);
}
