use expenses_tracking::date::Date;
use expenses_tracking::expense_tracker::clone_transaction;
use expenses_tracking::expense_tracker::CategoryFilter;
use expenses_tracking::expense_tracker::ExpenseTracker;
use expenses_tracking::taxonomy::TaxonomyError;
use expenses_tracking::transaction::Amount;
use expenses_tracking::transaction::Category;
use expenses_tracking::transaction::RejectionReason;
use expenses_tracking::transaction::SubCategory;
use expenses_tracking::transaction::Transaction;
use expenses_tracking::transaction::TransactionParsed;

fn new_parsed() -> TransactionParsed {
    TransactionParsed {
        date: Date::default(),
        amount: Amount { bits: 0.0f32.to_bits() },
        category: String::new(),
        subcategory_name: None,
        tag: None,
        note: None,
    }
}

fn new_transaction() -> Transaction {
    Transaction {
        date: Date::default(),
        amount: Amount { bits: 0.0f32.to_bits() },
        category_name: String::new(),
        subcategory_name: None,
        tag: None,
        note: None,
    }
}

fn parsed(category: &str, subcategory: Option<&str>) -> TransactionParsed {
    let mut p = new_parsed();
    p.category = category.to_string();
    p.subcategory_name = subcategory.map(|s| s.to_string());
    p
}

fn category_names(tracker: &ExpenseTracker) -> Vec<String> {
    tracker.valid_categories.iter().map(|c| c.name.clone()).collect()
}

#[test]
#[should_panic(expected = "Sub-category cannot be added because its category is invalid")]
fn expense_tracker_add_subcategory_invalid_category() {
    let mut expense_tracker = ExpenseTracker::new();
    expense_tracker.add_category("Nourriture", None);
    expense_tracker
        .add_subcategory("Transports", "Train", None)
        .map_err(|e| e.message())
        .unwrap();
}

#[test]
fn add_category() {
    let mut expense_tracker = ExpenseTracker::new();
    expense_tracker.add_category("Nourriture", Some(Date::default()));
    let category = Category {
        name: "Nourriture".to_lowercase(),
        date_added: Date::default(),
        subcategories: Vec::new(),
    };
    assert_eq!(expense_tracker.valid_categories.remove(0), category);
}

#[test]
fn add_subcategory_and_check_category() {}

#[test]
fn add_subcategory_valid() {
    let mut expense_tracker = ExpenseTracker::new();
    expense_tracker.add_category("Nourriture", None);
    expense_tracker
        .add_subcategory("Nourriture", "Courses", None)
        .unwrap();

    let mut category = Category {
        name: "Nourriture".to_lowercase(),
        date_added: Date::default(),
        subcategories: Vec::new(),
    };
    let subcategory = SubCategory {
        name: "Courses".to_lowercase(),
        date_added: Date::default(),
    };
    category.subcategories.push(subcategory);

    assert_eq!(expense_tracker.valid_categories.remove(0), category);
}

#[test]
fn expense_tracker_add_transactions_valid() {
    let mut expense_tracker = ExpenseTracker::new();
    expense_tracker.add_category("Nourriture", Some(Date::default()));
    expense_tracker
        .add_subcategory("Nourriture", "Courses", Some(Date::default()))
        .unwrap();

    expense_tracker.add_category("Transports", None);

    let mut transactions: Vec<Transaction> = Vec::new();
    let mut parsed_transactions: Vec<TransactionParsed> = Vec::new();

    let mut transaction_1: Transaction = new_transaction();
    transaction_1.category_name = "Nourriture".to_lowercase();
    transaction_1.subcategory_name = Some("Courses".to_lowercase());
    transactions.push(transaction_1);
    parsed_transactions.push(parsed("nourriture", Some("courses")));

    let mut transaction_2: Transaction = new_transaction();
    transaction_2.category_name = "Transports".to_lowercase();
    transactions.push(transaction_2);
    parsed_transactions.push(parsed("transports", None));

    for transaction in parsed_transactions {
        expense_tracker.add_transaction(transaction).unwrap();
    }
    assert_eq!(expense_tracker.transactions, transactions);
}

#[test]
fn add_valid_transactions() {
    let mut expense_tracker = ExpenseTracker::new();
    expense_tracker.add_category("Nourriture", None);
    expense_tracker
        .add_subcategory("Nourriture", "Courses", None)
        .unwrap();
    expense_tracker.add_category("Transports", None);

    let mut transactions: Vec<Transaction> = Vec::new();
    let mut parsed_transactions: Vec<TransactionParsed> = Vec::new();

    let mut transaction_1: Transaction = new_transaction();
    transaction_1.category_name = String::from("Nourriture");
    transaction_1.subcategory_name = Some(String::from("Courses"));
    transactions.push(transaction_1);
    parsed_transactions.push(parsed("Nourriture", Some("Courses")));

    let mut transaction_2: Transaction = new_transaction();
    transaction_2.category_name = String::from("Transports");
    transactions.push(transaction_2);
    parsed_transactions.push(parsed("Transports", None));

    for transaction in parsed_transactions {
        expense_tracker.add_transaction(transaction).unwrap();
    }
    assert_eq!(expense_tracker.transactions, transactions);
}

#[test]
#[should_panic(expected = "Invalid category")]
fn expense_tracker_add_transaction_invalid_category() {
    let mut expense_tracker = ExpenseTracker::new();
    expense_tracker.add_category("Nourriture", None);
    let mut valid_transaction = new_parsed();
    valid_transaction.category = String::from("Transports");
    expense_tracker
        .add_transaction(valid_transaction)
        .map_err(|e| e.message())
        .unwrap();
}

#[test]
#[should_panic(expected = "Invalid sub-category")]
fn expense_tracker_add_transaction_invalid_subcategory() {
    let mut expense_tracker = ExpenseTracker::new();
    expense_tracker.add_category("Nourriture", None);
    expense_tracker
        .add_subcategory("Nourriture", "Courses", None)
        .unwrap();
    let mut transaction = new_parsed();
    transaction.category = String::from("Nourriture");
    transaction.subcategory_name = Some(String::from("Restaurant"));
    expense_tracker
        .add_transaction(transaction)
        .map_err(|e| e.message())
        .unwrap();
}

#[test]
#[should_panic(expected = "Invalid sub-category")]
fn expense_tracker_add_transaction_missing_subcategory() {
    let mut expense_tracker = ExpenseTracker::new();
    expense_tracker.add_category("Nourriture", None);
    expense_tracker
        .add_subcategory("Nourriture", "Courses", None)
        .unwrap();
    let mut transaction = new_parsed();
    transaction.category = String::from("Nourriture");
    expense_tracker
        .add_transaction(transaction)
        .map_err(|e| e.message())
        .unwrap();
}

#[test]
#[should_panic(expected = "Invalid category")]
fn main_add_transaction_invalid_category() {
    let mut expense_tracker = ExpenseTracker::new();
    expense_tracker.add_category("Nourriture", None);
    let mut valid_transaction = new_parsed();
    valid_transaction.category = String::from("Transports");
    expense_tracker
        .add_transaction(valid_transaction)
        .map_err(|e| e.message())
        .unwrap();
}

#[test]
#[should_panic(expected = "Invalid sub-category")]
fn main_add_transaction_invalid_subcategory() {
    let mut expense_tracker = ExpenseTracker::new();
    expense_tracker.add_category("Nourriture", None);
    expense_tracker
        .add_subcategory("Nourriture", "Courses", None)
        .unwrap();
    let mut transaction = new_parsed();
    transaction.category = String::from("Nourriture");
    transaction.subcategory_name = Some(String::from("Restaurant"));
    expense_tracker
        .add_transaction(transaction)
        .map_err(|e| e.message())
        .unwrap();
}

#[test]
#[should_panic(expected = "Invalid sub-category")]
fn main_add_transaction_missing_subcategory() {
    let mut expense_tracker = ExpenseTracker::new();
    expense_tracker.add_category("Nourriture", None);
    expense_tracker
        .add_subcategory("Nourriture", "Courses", None)
        .unwrap();
    let mut transaction = new_parsed();
    transaction.category = String::from("Nourriture");
    expense_tracker
        .add_transaction(transaction)
        .map_err(|e| e.message())
        .unwrap();
}

#[test]
fn new_tracker_is_empty() {
    let tracker = ExpenseTracker::new();
    assert!(tracker.valid_categories.is_empty());
    assert!(tracker.transactions.is_empty());
    let by_default = ExpenseTracker::default();
    assert!(by_default.valid_categories.is_empty());
    assert!(by_default.transactions.is_empty());
}

#[test]
fn add_category_twice_keeps_one() {
    let mut tracker = ExpenseTracker::new();
    let first = Date { year: 2020, month: 5, day: 17 };
    let second = Date { year: 2021, month: 6, day: 18 };
    assert!(tracker.add_category("Food", Some(first)));
    assert!(!tracker.add_category("fOOD", Some(second)));
    assert!(!tracker.add_category("Food", None));
    assert_eq!(tracker.valid_categories.len(), 1);
    assert_eq!(tracker.valid_categories[0].name, "food");
    assert_eq!(tracker.valid_categories[0].date_added, first);
    assert!(tracker.valid_categories[0].subcategories.is_empty());
}

#[test]
fn categories_stay_in_order_of_name() {
    let mut tracker = ExpenseTracker::new();
    for name in ["Transport", "food", "Zoo", "Éducation", "foo", "Rent"] {
        assert!(tracker.add_category(name, None));
    }
    assert_eq!(
        category_names(&tracker),
        vec!["foo", "food", "rent", "transport", "zoo", "éducation"]
    );
    let mut sorted = category_names(&tracker);
    sorted.sort();
    assert_eq!(category_names(&tracker), sorted);
}

#[test]
fn subcategories_stay_in_order_of_name() {
    let mut tracker = ExpenseTracker::new();
    tracker.add_category("Food", None);
    tracker.add_category("Abc", None);
    for name in ["Restaurant", "groceries", "Bakery"] {
        tracker.add_subcategory("FOOD", name, None).unwrap();
    }
    let food = tracker.get_category("food").unwrap();
    let names: Vec<&str> = food.subcategories.iter().map(|s| s.name.as_str()).collect();
    assert_eq!(names, vec!["bakery", "groceries", "restaurant"]);
    assert_eq!(category_names(&tracker), vec!["abc", "food"]);
    assert!(tracker.get_category("abc").unwrap().subcategories.is_empty());
}

#[test]
fn add_subcategory_errors() {
    let mut tracker = ExpenseTracker::new();
    tracker.add_category("Food", None);
    let date = Date { year: 2022, month: 1, day: 2 };
    assert_eq!(tracker.add_subcategory("Food", "Groceries", Some(date)), Ok(()));
    assert_eq!(
        tracker.add_subcategory("food", "GROCERIES", None),
        Err(TaxonomyError::DuplicateSubcategory)
    );
    assert_eq!(
        tracker.add_subcategory("Transport", "Train", None),
        Err(TaxonomyError::UnknownCategory)
    );
    assert_eq!(tracker.valid_categories.len(), 1);
    assert_eq!(tracker.valid_categories[0].subcategories.len(), 1);
    assert_eq!(tracker.valid_categories[0].subcategories[0].name, "groceries");
    assert_eq!(tracker.valid_categories[0].subcategories[0].date_added, date);
    assert_eq!(
        TaxonomyError::DuplicateSubcategory.message(),
        "The subcategory name already exists"
    );
    assert_eq!(
        TaxonomyError::UnknownCategory.message(),
        "Sub-category cannot be added because its category is invalid"
    );
}

#[test]
fn same_subcategory_under_two_categories() {
    let mut tracker = ExpenseTracker::new();
    tracker.add_category("Food", None);
    tracker.add_category("Fun", None);
    assert_eq!(tracker.add_subcategory("Food", "Other", None), Ok(()));
    assert_eq!(tracker.add_subcategory("Fun", "Other", None), Ok(()));
    assert!(tracker.get_subcategory("food", "OTHER").is_some());
    assert!(tracker.get_subcategory("FUN", "other").is_some());
}

#[test]
fn lookups_ignore_case() {
    let mut tracker = ExpenseTracker::new();
    let date = Date { year: 2019, month: 12, day: 31 };
    tracker.add_category("Food", Some(date));
    tracker.add_subcategory("Food", "Groceries", Some(date)).unwrap();
    let found = tracker.get_category("FOOD").unwrap();
    assert_eq!(found.name, "food");
    assert_eq!(found.date_added, date);
    assert!(tracker.get_category("Foo").is_none());
    assert!(tracker.get_category("").is_none());
    let sub = tracker.get_subcategory("fOOd", "GROCERIES").unwrap();
    assert_eq!(sub.name, "groceries");
    assert_eq!(sub.date_added, date);
    assert!(tracker.get_subcategory("food", "restaurant").is_none());
    assert!(tracker.get_subcategory("transport", "groceries").is_none());
    let in_category = found.find_subcategory("Groceries").unwrap();
    assert_eq!(in_category.name, "groceries");
    assert!(found.find_subcategory("Grocerie").is_none());
}

#[test]
fn category_without_subcategories() {
    let mut tracker = ExpenseTracker::new();
    tracker.add_category("Transport", None);
    assert_eq!(
        tracker.resolve_references(parsed("Transport", Some("Train"))),
        Err(RejectionReason::UnexpectedSubcategory)
    );
    let taken = tracker.resolve_references(parsed("TRANSPORT", None)).unwrap();
    assert_eq!(taken.category_name, "TRANSPORT");
    assert_eq!(taken.subcategory_name, None);
}

#[test]
fn category_with_subcategories() {
    let mut tracker = ExpenseTracker::new();
    tracker.add_category("Food", None);
    tracker.add_subcategory("Food", "Groceries", None).unwrap();
    tracker.add_subcategory("Food", "Restaurant", None).unwrap();
    assert_eq!(
        tracker.resolve_references(parsed("Food", Some("Bakery"))),
        Err(RejectionReason::MissingOrInvalidSubcategory)
    );
    assert_eq!(
        tracker.resolve_references(parsed("Food", None)),
        Err(RejectionReason::MissingOrInvalidSubcategory)
    );
    assert!(tracker.resolve_references(parsed("food", Some("RESTAURANT"))).is_ok());
    assert!(tracker.resolve_references(parsed("Food", Some("groceries"))).is_ok());
}

#[test]
fn scenario_food_groceries() {
    let mut tracker = ExpenseTracker::new();
    tracker.add_category("food", None);
    tracker.add_subcategory("food", "groceries", None).unwrap();
    let mut row = parsed("Food", Some("Groceries"));
    row.tag = Some("weekly".to_string());
    row.note = Some("market".to_string());
    row.amount = Amount { bits: (-12.5f32).to_bits() };
    row.date = Date { year: 2024, month: 2, day: 29 };
    let taken = tracker.resolve_references(row.clone()).unwrap();
    assert_eq!(
        taken,
        Transaction {
            date: row.date,
            amount: row.amount,
            category_name: "Food".to_string(),
            subcategory_name: Some("Groceries".to_string()),
            tag: Some("weekly".to_string()),
            note: Some("market".to_string()),
        }
    );
    assert_eq!(Transaction::from(row), taken);
    assert_eq!(
        tracker.resolve_references(parsed("Food", Some("Restaurant"))),
        Err(RejectionReason::MissingOrInvalidSubcategory)
    );
    assert_eq!(
        tracker.resolve_references(parsed("Transport", None)),
        Err(RejectionReason::InvalidCategory)
    );
}

#[test]
fn resolve_against_a_given_category() {
    let mut food = Category::from_name("Food");
    assert_eq!(
        parsed("anything", None).resolve_references(None),
        Err(RejectionReason::InvalidCategory)
    );
    assert!(parsed("Food", None).resolve_references(Some(&food)).is_ok());
    assert_eq!(
        parsed("Food", Some("Groceries")).resolve_references(Some(&food)),
        Err(RejectionReason::UnexpectedSubcategory)
    );
    food.subcategories.push(SubCategory::from_name("Groceries"));
    assert!(parsed("Food", Some("GROCERIES")).resolve_references(Some(&food)).is_ok());
    assert_eq!(
        parsed("Food", None).resolve_references(Some(&food)),
        Err(RejectionReason::MissingOrInvalidSubcategory)
    );
}

#[test]
fn validity_of_category_and_subcategory() {
    let mut tracker = ExpenseTracker::new();
    tracker.add_category("Food", None);
    tracker.add_subcategory("Food", "Groceries", None).unwrap();
    tracker.add_category("Transport", None);
    let cases = [
        (parsed("Food", Some("groceries")), true, true),
        (parsed("Food", Some("bakery")), true, false),
        (parsed("Food", None), true, false),
        (parsed("Transport", None), true, true),
        (parsed("Transport", Some("train")), true, false),
        (parsed("Rent", None), false, true),
        (parsed("Rent", Some("flat")), false, false),
    ];
    for (row, category_ok, subcategory_ok) in cases {
        let transaction = Transaction::from(row.clone());
        assert_eq!(transaction.is_category_valid(&tracker), category_ok);
        assert_eq!(transaction.is_subcategory_valid(&tracker), subcategory_ok);
        assert_eq!(
            tracker.resolve_references(row).is_ok(),
            category_ok && subcategory_ok
        );
    }
}

#[test]
fn retained_transaction_is_held_against_the_taxonomy_of_now() {
    let mut tracker = ExpenseTracker::new();
    tracker.add_category("Rent", None);
    tracker.add_transaction(parsed("Rent", None)).unwrap();
    assert!(tracker.transactions[0].is_category_valid(&tracker));
    assert!(tracker.transactions[0].is_subcategory_valid(&tracker));
    tracker.add_subcategory("Rent", "Flat", None).unwrap();
    assert!(tracker.transactions[0].is_category_valid(&tracker));
    assert!(!tracker.transactions[0].is_subcategory_valid(&tracker));
    assert!(tracker.refers_to_taxonomy(&tracker.transactions[0]));
    assert!(tracker.is_well_formed());
}

#[test]
fn rejected_transaction_changes_nothing() {
    let mut tracker = ExpenseTracker::new();
    tracker.add_category("Food", None);
    assert_eq!(
        tracker.add_transaction(parsed("Rent", None)),
        Err(RejectionReason::InvalidCategory)
    );
    assert!(tracker.transactions.is_empty());
    assert_eq!(tracker.add_transaction(parsed("Food", None)), Ok(()));
    assert_eq!(tracker.transactions.len(), 1);
    assert_eq!(category_names(&tracker), vec!["food"]);
}

#[test]
fn rejection_messages() {
    assert_eq!(RejectionReason::InvalidCategory.message(), "Invalid category in transaction");
    assert_eq!(
        RejectionReason::UnexpectedSubcategory.message(),
        "Sub-category set in transaction although the category has none"
    );
    assert_eq!(
        RejectionReason::MissingOrInvalidSubcategory.message(),
        "Invalid sub-category (not linked to category)"
    );
}

#[test]
fn taxonomy_from_retained_transactions_is_there_already() {
    let mut tracker = ExpenseTracker::new();
    let rows = vec![
        parsed("Food", Some("Groceries")),
        parsed("Transport", None),
        parsed("food", Some("Restaurant")),
    ];
    for row in rows {
        assert_eq!(tracker.load_row(row, true), Ok(()));
    }
    let before: Vec<Category> = tracker.valid_categories.clone();
    let subs_before: Vec<usize> = before.iter().map(|c| c.subcategories.len()).collect();
    tracker.load_info_from_transactions();
    assert_eq!(tracker.valid_categories, before);
    let subs_after: Vec<usize> =
        tracker.valid_categories.iter().map(|c| c.subcategories.len()).collect();
    assert_eq!(subs_after, subs_before);
    assert_eq!(subs_after, vec![2, 0]);
    assert_eq!(tracker.transactions.len(), 3);
}

#[test]
fn restore_from_categories() {
    let mut food = Category::from_name("Food");
    food.subcategories.push(SubCategory::from_name("Groceries"));
    food.subcategories.push(SubCategory::from_name("Restaurant"));
    let transport = Category::from_name("Transport");
    let tracker =
        ExpenseTracker::from_categories(vec![food.clone(), transport.clone()]).unwrap();
    assert_eq!(category_names(&tracker), vec!["food", "transport"]);
    assert_eq!(tracker.valid_categories[0].subcategories.len(), 2);
    assert!(tracker.transactions.is_empty());
    assert!(tracker.get_subcategory("Food", "Restaurant").is_some());

    assert!(ExpenseTracker::from_categories(vec![transport.clone(), food.clone()]).is_none());
    assert!(ExpenseTracker::from_categories(vec![food.clone(), food.clone()]).is_none());
    let mut unordered = Category::from_name("Rent");
    unordered.subcategories.push(SubCategory::from_name("b"));
    unordered.subcategories.push(SubCategory::from_name("a"));
    assert!(ExpenseTracker::from_categories(vec![unordered]).is_none());
    assert!(ExpenseTracker::from_categories(Vec::new()).is_some());
}

#[test]
fn transactions_are_filtered_by_category() {
    let mut tracker = ExpenseTracker::new();
    for (category, note) in [("Food", "a"), ("Rent", "b"), ("FOOD", "c"), ("food", "d")] {
        let mut row = parsed(category, None);
        row.note = Some(note.to_string());
        tracker.load_row(row, true).unwrap();
    }
    let all = tracker.filter_transactions(&CategoryFilter::NoneSelected);
    assert_eq!(all, tracker.transactions);
    let food = tracker.get_category("food").unwrap().clone();
    let shown = tracker.filter_transactions(&CategoryFilter::CategorySelected(food));
    let notes: Vec<&str> = shown.iter().map(|t| t.note.as_deref().unwrap()).collect();
    assert_eq!(notes, vec!["a", "c", "d"]);
    assert_eq!(shown[1].category_name, "FOOD");
    let other = CategoryFilter::CategorySelected(Category::from_name("Fun"));
    assert!(tracker.filter_transactions(&other).is_empty());
    assert_eq!(clone_transaction(&tracker.transactions[1]), tracker.transactions[1]);
}

#[test]
fn taxonomy_is_built_from_transactions() {
    let mut tracker = ExpenseTracker::new();
    let first = Date { year: 2023, month: 3, day: 1 };
    let second = Date { year: 2023, month: 3, day: 2 };
    for (category, subcategory, date) in [
        ("Rent", None, first),
        ("Food", Some("Groceries"), first),
        ("food", Some("Restaurant"), second),
        ("RENT", None, second),
    ] {
        let mut t = new_transaction();
        t.category_name = category.to_string();
        t.subcategory_name = subcategory.map(|s: &str| s.to_string());
        t.date = date;
        tracker.transactions.push(t);
    }
    assert!(!tracker.is_well_formed());
    tracker.load_info_from_transactions();
    assert!(tracker.is_well_formed());
    assert_eq!(category_names(&tracker), vec!["food", "rent"]);
    let food = tracker.get_category("food").unwrap();
    assert_eq!(food.date_added, first);
    let subs: Vec<(&str, Date)> =
        food.subcategories.iter().map(|s| (s.name.as_str(), s.date_added)).collect();
    assert_eq!(subs, vec![("groceries", first), ("restaurant", second)]);
    assert_eq!(tracker.get_category("rent").unwrap().date_added, first);
    assert_eq!(tracker.transactions.len(), 4);
}

#[test]
fn names_can_be_added_together() {
    let mut tracker = ExpenseTracker::new();
    let date = Date { year: 2022, month: 7, day: 4 };
    tracker.add_names("Food", &Some("Groceries".to_string()), date);
    tracker.add_names("food", &None, Date::default());
    tracker.add_names("FOOD", &Some("groceries".to_string()), Date::default());
    assert_eq!(category_names(&tracker), vec!["food"]);
    assert_eq!(tracker.valid_categories[0].date_added, date);
    assert_eq!(tracker.valid_categories[0].subcategories.len(), 1);
    assert_eq!(tracker.valid_categories[0].subcategories[0].date_added, date);
    assert!(tracker.add_category_on("Rent", date));
    assert_eq!(tracker.add_subcategory_on("rent", "Flat", date), Ok(()));
    assert_eq!(
        tracker.add_subcategory_on("rent", "FLAT", date),
        Err(TaxonomyError::DuplicateSubcategory)
    );
}
