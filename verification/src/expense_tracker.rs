//! The expense tracker: the taxonomy of categories and the transactions
//! that were taken under it.

use crate::date::Date;
use crate::names::{
    is_ascending,
    is_slot,
    lemma_slot,
    locate,
    lowercase,
    names_of,
    normalize,
    Slot,
    slot_of,
};
use crate::resolver::{opt_category_view, opt_subcategory_view, resolution_view};
use crate::taxonomy::{
    category_named,
    category_names,
    category_wf,
    extends,
    found_category,
    found_subcategory,
    has_category,
    has_subcategory,
    lemma_extends_reflexive,
    lemma_extends_transitive,
    lemma_reference_kept,
    lemma_resolution_refers,
    lemma_with_category,
    lemma_with_subcategory,
    reference_holds,
    resolution,
    subcategory_names,
    subcategory_outcome,
    taxonomy_wf,
    TaxonomyError,
    with_category,
    with_subcategory,
};
use crate::transaction::{
    Category,
    CategoryView,
    clone_opt_string,
    opt_text,
    RejectionReason,
    SubCategory,
    Transaction,
    TransactionParsed,
    TransactionView,
};
use vstd::prelude::*;

verus! {

/// The categories that transactions may name, in ascending order of their
/// names, and the transactions that were taken.
///
/// Categories and sub-categories are only ever added, so what a retained
/// transaction refers to stays in the taxonomy. Whether a transaction is
/// taken is decided when it comes in; a sub-category that is added later can
/// make a retained transaction one that would no longer be taken, which
/// `Transaction::is_subcategory_valid` tells.
#[derive(Debug)]
pub struct ExpenseTracker {
    pub valid_categories: Vec<Category>,
    pub transactions: Vec<Transaction>,
}

/// A tracker as contracts see it: its categories and its transactions, each
/// by its view.
pub struct ExpenseTrackerView {
    pub categories: Seq<CategoryView>,
    pub transactions: Seq<TransactionView>,
}

/// The views of a list of categories.
pub open spec fn category_views(cats: Seq<Category>) -> Seq<CategoryView> {
    Seq::new(cats.len(), |i: int| cats[i]@)
}

/// The views of a list of transactions.
pub open spec fn transaction_views(transactions: Seq<Transaction>) -> Seq<TransactionView> {
    Seq::new(transactions.len(), |i: int| transactions[i]@)
}

impl View for ExpenseTracker {
    type V = ExpenseTrackerView;

    open spec fn view(&self) -> ExpenseTrackerView {
        ExpenseTrackerView {
            categories: category_views(self.valid_categories@),
            transactions: transaction_views(self.transactions@),
        }
    }
}

/// The taxonomy is well formed, and what each transaction refers to is in
/// it.
pub open spec fn tracker_wf(v: ExpenseTrackerView) -> bool {
    &&& taxonomy_wf(v.categories)
    &&& forall|i: int|
        0 <= i < v.transactions.len() ==> reference_holds(
            v.categories,
            #[trigger] v.transactions[i],
        )
}

impl ExpenseTracker {
    /// What every tracker that this library hands out satisfies, and what
    /// its methods keep: the taxonomy is well formed, and what each retained
    /// transaction refers to is in it. The methods ask only for the first.
    pub open spec fn wf(&self) -> bool {
        tracker_wf(self@)
    }

    /// A tracker without categories and without transactions.
    pub fn new() -> (r: ExpenseTracker)
        ensures
            r.wf(),
            r@.categories == Seq::<CategoryView>::empty(),
            r@.transactions == Seq::<TransactionView>::empty(),
    {
        let r = ExpenseTracker { valid_categories: Vec::new(), transactions: Vec::new() };
        assert(r@.categories =~= Seq::<CategoryView>::empty());
        assert(r@.transactions =~= Seq::<TransactionView>::empty());
        r
    }

    /// The category that the name finds, compared without regard to case.
    pub fn get_category(&self, category_name: &str) -> (r: Option<&Category>)
        requires
            taxonomy_wf(self@.categories),
        ensures
            opt_category_view(r) == found_category(self@.categories, category_name@),
    {
        let key = normalize(category_name);
        assert(names_of(self.valid_categories@) =~= category_names(self@.categories));
        match locate(&self.valid_categories, key.as_str()) {
            Slot::Found(i) => Some(&self.valid_categories[i]),
            Slot::Vacant(_) => None,
        }
    }

    /// The sub-category that the two names find, compared without regard to
    /// case.
    pub fn get_subcategory(&self, category_name: &str, subcategory_name: &str) -> (r: Option<
        &SubCategory,
    >)
        requires
            taxonomy_wf(self@.categories),
        ensures
            opt_subcategory_view(r) == found_subcategory(
                self@.categories,
                category_name@,
                subcategory_name@,
            ),
    {
        match self.get_category(category_name) {
            Some(category) => {
                proof {
                    let i = category_names(self@.categories).index_of(lowercase(category_name@));
                    assert(category_wf(self@.categories[i]));
                }
                category.find_subcategory(subcategory_name)
            },
            None => None,
        }
    }

    /// Holds a parsed transaction against the categories: it is taken where
    /// its category exists and its sub-category fits that category, else it
    /// is rejected with the reason.
    pub fn resolve_references(&self, transaction_parsed: TransactionParsed) -> (r: Result<
        Transaction,
        RejectionReason,
    >)
        requires
            taxonomy_wf(self@.categories),
        ensures
            resolution_view(r) == resolution(self@.categories, transaction_parsed@),
    {
        let maybe_category = self.get_category(transaction_parsed.category.as_str());
        proof {
            if maybe_category is Some {
                let i = category_names(self@.categories).index_of(
                    lowercase(transaction_parsed.category@),
                );
                assert(category_wf(self@.categories[i]));
            }
        }
        transaction_parsed.resolve_references(maybe_category)
    }

    /// Adds a category of the given name, dated `date`, unless one of that
    /// name, compared without regard to case, exists. Says whether it was
    /// added.
    pub fn add_category_on(&mut self, category_name: &str, date: Date) -> (added: bool)
        requires
            taxonomy_wf(old(self)@.categories),
        ensures
            taxonomy_wf(final(self)@.categories),
            old(self).wf() ==> final(self).wf(),
            added == !has_category(old(self)@.categories, lowercase(category_name@)),
            has_category(final(self)@.categories, lowercase(category_name@)),
            final(self)@.categories.len() == old(self)@.categories.len() + (if added {
                1int
            } else {
                0int
            }),
            added ==> is_slot(
                category_names(old(self)@.categories),
                lowercase(category_name@),
                slot_of(category_names(old(self)@.categories), lowercase(category_name@)),
            ),
            extends(old(self)@.categories, final(self)@.categories),
            final(self)@.categories == with_category(
                old(self)@.categories,
                lowercase(category_name@),
                date,
            ),
            final(self)@.transactions == old(self)@.transactions,
    {
        let key = normalize(category_name);
        let ghost before = self@.categories;
        assert(names_of(self.valid_categories@) =~= category_names(before));
        match locate(&self.valid_categories, key.as_str()) {
            Slot::Found(_) => {
                proof {
                    lemma_with_category(before, lowercase(category_name@), date);
                }
                false
            },
            Slot::Vacant(p) => {
                let category = Category { name: key, subcategories: Vec::new(), date_added: date };
                proof {
                    lemma_slot(category_names(before), lowercase(category_name@), p as int);
                    lemma_with_category(before, lowercase(category_name@), date);
                    assert(category@.subcategories =~= Seq::empty());
                }
                self.valid_categories.insert(p, category);
                proof {
                    assert(self@.categories =~= with_category(
                        before,
                        lowercase(category_name@),
                        date,
                    ));
                    assert(self@.transactions =~= old(self)@.transactions);
                    if old(self).wf() {
                        assert forall|i: int|
                            0 <= i < self@.transactions.len() implies reference_holds(
                            self@.categories,
                            #[trigger] self@.transactions[i],
                        ) by {
                            lemma_reference_kept(before, self@.categories, self@.transactions[i]);
                        }
                    }
                }
                true
            },
        }
    }

    /// Adds a category of the given name unless one of that name exists.
    /// Without a date the category is dated today.
    pub fn add_category(&mut self, category_name: &str, date_creation: Option<Date>) -> (added:
        bool)
        requires
            taxonomy_wf(old(self)@.categories),
        ensures
            taxonomy_wf(final(self)@.categories),
            old(self).wf() ==> final(self).wf(),
            added == !has_category(old(self)@.categories, lowercase(category_name@)),
            has_category(final(self)@.categories, lowercase(category_name@)),
            final(self)@.categories.len() == old(self)@.categories.len() + (if added {
                1int
            } else {
                0int
            }),
            added ==> is_slot(
                category_names(old(self)@.categories),
                lowercase(category_name@),
                slot_of(category_names(old(self)@.categories), lowercase(category_name@)),
            ),
            extends(old(self)@.categories, final(self)@.categories),
            exists|date: Date|
                (date_creation is Some ==> date == date_creation->0) && final(self)@.categories
                    == #[trigger] with_category(
                    old(self)@.categories,
                    lowercase(category_name@),
                    date,
                ),
            final(self)@.transactions == old(self)@.transactions,
    {
        let date = match date_creation {
            Some(date) => date,
            None => Date::today(),
        };
        self.add_category_on(category_name, date)
    }

    /// Adds a sub-category, dated `date`, under the category of the given
    /// name. Refused where there is no such category, and where the
    /// category has a sub-category of that name already; names are compared
    /// without regard to case.
    pub fn add_subcategory_on(
        &mut self,
        category_name: &str,
        subcategory_name: &str,
        date: Date,
    ) -> (r: Result<(), TaxonomyError>)
        requires
            taxonomy_wf(old(self)@.categories),
        ensures
            taxonomy_wf(final(self)@.categories),
            old(self).wf() ==> final(self).wf(),
            r == subcategory_outcome(
                old(self)@.categories,
                lowercase(category_name@),
                lowercase(subcategory_name@),
            ),
            category_names(final(self)@.categories) == category_names(old(self)@.categories),
            r is Ok ==> has_subcategory(
                category_named(final(self)@.categories, lowercase(category_name@)),
                lowercase(subcategory_name@),
            ),
            r is Ok ==> is_slot(
                subcategory_names(
                    category_named(old(self)@.categories, lowercase(category_name@)).subcategories,
                ),
                lowercase(subcategory_name@),
                slot_of(
                    subcategory_names(
                        category_named(
                            old(self)@.categories,
                            lowercase(category_name@),
                        ).subcategories,
                    ),
                    lowercase(subcategory_name@),
                ),
            ),
            extends(old(self)@.categories, final(self)@.categories),
            final(self)@.categories == with_subcategory(
                old(self)@.categories,
                lowercase(category_name@),
                lowercase(subcategory_name@),
                date,
            ),
            final(self)@.transactions == old(self)@.transactions,
    {
        let ckey = normalize(category_name);
        let skey = normalize(subcategory_name);
        let ghost before = self@.categories;
        assert(names_of(self.valid_categories@) =~= category_names(before));
        let i: usize = match locate(&self.valid_categories, ckey.as_str()) {
            Slot::Found(i) => i,
            Slot::Vacant(_) => {
                proof {
                    lemma_with_subcategory(before, ckey@, skey@, date);
                }
                return Err(TaxonomyError::UnknownCategory);
            },
        };
        assert(category_wf(before[i as int]));
        assert(names_of(self.valid_categories@[i as int].subcategories@) =~= subcategory_names(
            before[i as int].subcategories,
        ));
        let p: usize = match locate(&self.valid_categories[i].subcategories, skey.as_str()) {
            Slot::Found(_) => {
                proof {
                    lemma_with_subcategory(before, ckey@, skey@, date);
                }
                return Err(TaxonomyError::DuplicateSubcategory);
            },
            Slot::Vacant(p) => p,
        };
        proof {
            lemma_slot(subcategory_names(before[i as int].subcategories), skey@, p as int);
            lemma_with_subcategory(before, ckey@, skey@, date);
        }
        let mut category = self.valid_categories.remove(i);
        category.subcategories.insert(p, SubCategory { name: skey, date_added: date });
        self.valid_categories.insert(i, category);
        proof {
            let after = with_subcategory(before, ckey@, lowercase(subcategory_name@), date);
            assert(self@.categories.len() == after.len());
            assert forall|k: int| 0 <= k < after.len() implies self@.categories[k] == after[k] by {
                if k == i {
                    assert(self@.categories[k].subcategories =~= after[k].subcategories);
                } else {
                    assert(self@.categories[k] == before[k]);
                }
            }
            assert(self@.categories =~= after);
            assert(self@.transactions =~= old(self)@.transactions);
            if old(self).wf() {
                assert forall|k: int| 0 <= k < self@.transactions.len() implies reference_holds(
                    self@.categories,
                    #[trigger] self@.transactions[k],
                ) by {
                    lemma_reference_kept(before, self@.categories, self@.transactions[k]);
                }
            }
        }
        Ok(())
    }

    /// Adds a sub-category under the category of the given name. Without a
    /// date the sub-category is dated today.
    pub fn add_subcategory(
        &mut self,
        category_name: &str,
        subcategory_name: &str,
        date_creation: Option<Date>,
    ) -> (r: Result<(), TaxonomyError>)
        requires
            taxonomy_wf(old(self)@.categories),
        ensures
            taxonomy_wf(final(self)@.categories),
            old(self).wf() ==> final(self).wf(),
            r == subcategory_outcome(
                old(self)@.categories,
                lowercase(category_name@),
                lowercase(subcategory_name@),
            ),
            category_names(final(self)@.categories) == category_names(old(self)@.categories),
            r is Ok ==> has_subcategory(
                category_named(final(self)@.categories, lowercase(category_name@)),
                lowercase(subcategory_name@),
            ),
            r is Ok ==> is_slot(
                subcategory_names(
                    category_named(old(self)@.categories, lowercase(category_name@)).subcategories,
                ),
                lowercase(subcategory_name@),
                slot_of(
                    subcategory_names(
                        category_named(
                            old(self)@.categories,
                            lowercase(category_name@),
                        ).subcategories,
                    ),
                    lowercase(subcategory_name@),
                ),
            ),
            extends(old(self)@.categories, final(self)@.categories),
            exists|date: Date|
                (date_creation is Some ==> date == date_creation->0) && final(self)@.categories
                    == #[trigger] with_subcategory(
                    old(self)@.categories,
                    lowercase(category_name@),
                    lowercase(subcategory_name@),
                    date,
                ),
            final(self)@.transactions == old(self)@.transactions,
    {
        let date = match date_creation {
            Some(date) => date,
            None => Date::today(),
        };
        self.add_subcategory_on(category_name, subcategory_name, date)
    }

    /// Takes a parsed transaction where the categories accept it, and says
    /// why where they do not.
    pub fn add_transaction(&mut self, transaction_parsed: TransactionParsed) -> (r: Result<
        (),
        RejectionReason,
    >)
        requires
            taxonomy_wf(old(self)@.categories),
        ensures
            taxonomy_wf(final(self)@.categories),
            old(self).wf() ==> final(self).wf(),
            final(self)@.categories == old(self)@.categories,
            match resolution(old(self)@.categories, transaction_parsed@) {
                Ok(t) => r is Ok && final(self)@.transactions == old(self)@.transactions.push(t),
                Err(e) => r == Err::<(), RejectionReason>(e) && final(self)@.transactions == old(
                    self,
                )@.transactions,
            },
    {
        match self.resolve_references(transaction_parsed) {
            Ok(transaction) => {
                proof {
                    lemma_resolution_refers(self@.categories, transaction_parsed@);
                }
                self.transactions.push(transaction);
                assert(self@.transactions =~= old(self)@.transactions.push(transaction@));
                assert(self@.categories =~= old(self)@.categories);
                Ok(())
            },
            Err(e) => Err(e),
        }
    }
}

impl Default for ExpenseTracker {
    fn default() -> (r: ExpenseTracker)
        ensures
            r.wf(),
            r@.categories == Seq::<CategoryView>::empty(),
            r@.transactions == Seq::<TransactionView>::empty(),
    {
        ExpenseTracker::new()
    }
}

/// The taxonomy after a category and, where one is named, a sub-category
/// under it were added, both dated `date`.
pub open spec fn taxonomy_with_names(
    cats: Seq<CategoryView>,
    category: Seq<char>,
    subcategory: Option<Seq<char>>,
    date: Date,
) -> Seq<CategoryView> {
    let ckey = lowercase(category);
    let grown = with_category(cats, ckey, date);
    match subcategory {
        Some(name) => with_subcategory(grown, ckey, lowercase(name), date),
        None => grown,
    }
}

/// The taxonomy after the categories and sub-categories that the
/// transactions name were added to it, in the order of the transactions.
pub open spec fn taxonomy_from_transactions(
    cats: Seq<CategoryView>,
    transactions: Seq<TransactionView>,
) -> Seq<CategoryView>
    decreases transactions.len(),
{
    if transactions.len() == 0 {
        cats
    } else {
        taxonomy_from_transactions(
            taxonomy_with_names(
                cats,
                transactions[0].category_name,
                transactions[0].subcategory_name,
                transactions[0].date,
            ),
            transactions.drop_first(),
        )
    }
}

impl ExpenseTracker {
    /// Adds a category and, where one is named, a sub-category under it,
    /// both dated `date`. What is there already stays as it is.
    pub fn add_names(&mut self, category_name: &str, subcategory_name: &Option<String>, date: Date)
        requires
            taxonomy_wf(old(self)@.categories),
        ensures
            taxonomy_wf(final(self)@.categories),
            old(self).wf() ==> final(self).wf(),
            final(self)@.categories == taxonomy_with_names(
                old(self)@.categories,
                category_name@,
                opt_text(*subcategory_name),
                date,
            ),
            has_category(final(self)@.categories, lowercase(category_name@)),
            subcategory_name matches Some(name) ==> has_subcategory(
                category_named(final(self)@.categories, lowercase(category_name@)),
                lowercase(name@),
            ),
            extends(old(self)@.categories, final(self)@.categories),
            final(self)@.transactions == old(self)@.transactions,
    {
        self.add_category_on(category_name, date);
        let ghost grown = self@.categories;
        match subcategory_name {
            Some(name) => {
                let _ = self.add_subcategory_on(category_name, name.as_str(), date);
                proof {
                    lemma_extends_transitive(old(self)@.categories, grown, self@.categories);
                    assert(has_category(grown, lowercase(category_name@)));
                }
            },
            None => {},
        }
    }

    /// Adds to the taxonomy the categories and sub-categories that the
    /// retained transactions name, each dated as the first transaction that
    /// names it. After it, what each transaction refers to is in the
    /// taxonomy.
    pub fn load_info_from_transactions(&mut self)
        requires
            taxonomy_wf(old(self)@.categories),
        ensures
            final(self).wf(),
            final(self)@.categories == taxonomy_from_transactions(
                old(self)@.categories,
                old(self)@.transactions,
            ),
            final(self)@.transactions == old(self)@.transactions,
            extends(old(self)@.categories, final(self)@.categories),
    {
        let ghost start = self@;
        let mut i: usize = 0;
        proof {
            assert(start.transactions.skip(0) =~= start.transactions);
            lemma_extends_reflexive(start.categories);
        }
        while i < self.transactions.len()
            invariant
                i <= self.transactions.len(),
                taxonomy_wf(self@.categories),
                self@.transactions == start.transactions,
                extends(start.categories, self@.categories),
                forall|k: int|
                    0 <= k < i ==> reference_holds(
                        self@.categories,
                        #[trigger] start.transactions[k],
                    ),
                taxonomy_from_transactions(start.categories, start.transactions)
                    == taxonomy_from_transactions(
                    self@.categories,
                    start.transactions.skip(i as int),
                ),
            decreases self.transactions.len() - i,
        {
            let ghost before = self@.categories;
            proof {
                assert(start.transactions.skip(i as int)[0] == self.transactions@[i as int]@);
                assert(start.transactions.skip(i as int).drop_first()
                    =~= start.transactions.skip(i + 1));
            }
            let category = self.transactions[i].category_name.clone();
            let subcategory = clone_opt_string(&self.transactions[i].subcategory_name);
            let date = self.transactions[i].date;
            self.add_names(category.as_str(), &subcategory, date);
            proof {
                lemma_extends_transitive(start.categories, before, self@.categories);
                assert forall|k: int| 0 <= k < i + 1 implies reference_holds(
                    self@.categories,
                    #[trigger] start.transactions[k],
                ) by {
                    if k < i {
                        lemma_reference_kept(before, self@.categories, start.transactions[k]);
                    }
                }
            }
            i = i + 1;
        }
    }

    /// Whether the categories are well formed: in ascending order of their
    /// names, and the sub-categories of each in ascending order of theirs.
    pub fn taxonomy_is_well_formed(categories: &Vec<Category>) -> (r: bool)
        ensures
            r == taxonomy_wf(category_views(categories@)),
    {
        let ghost views = category_views(categories@);
        assert(names_of(categories@) =~= category_names(views));
        if !is_ascending(categories) {
            return false;
        }
        let mut i: usize = 0;
        while i < categories.len()
            invariant
                i <= categories.len(),
                views == category_views(categories@),
                forall|k: int| 0 <= k < i ==> category_wf(#[trigger] views[k]),
            decreases categories.len() - i,
        {
            assert(names_of(categories@[i as int].subcategories@) =~= subcategory_names(
                views[i as int].subcategories,
            ));
            if !is_ascending(&categories[i].subcategories) {
                assert(!category_wf(views[i as int]));
                return false;
            }
            i = i + 1;
        }
        true
    }

    /// Whether the category of a retained transaction, and its sub-category
    /// if it names one, are in the taxonomy.
    pub fn refers_to_taxonomy(&self, transaction: &Transaction) -> (r: bool)
        requires
            taxonomy_wf(self@.categories),
        ensures
            r == reference_holds(self@.categories, transaction@),
    {
        let category = match self.get_category(transaction.category_name.as_str()) {
            Some(category) => category,
            None => {
                return false;
            },
        };
        proof {
            let i = category_names(self@.categories).index_of(
                lowercase(transaction.category_name@),
            );
            assert(category_wf(self@.categories[i]));
        }
        match &transaction.subcategory_name {
            Some(name) => category.find_subcategory(name.as_str()).is_some(),
            None => true,
        }
    }

    /// Whether the tracker is well formed: its taxonomy is, and what each
    /// retained transaction refers to is in it.
    pub fn is_well_formed(&self) -> (r: bool)
        ensures
            r == self.wf(),
    {
        if !ExpenseTracker::taxonomy_is_well_formed(&self.valid_categories) {
            return false;
        }
        let mut i: usize = 0;
        while i < self.transactions.len()
            invariant
                i <= self.transactions.len(),
                taxonomy_wf(self@.categories),
                forall|k: int|
                    0 <= k < i ==> reference_holds(
                        self@.categories,
                        #[trigger] self@.transactions[k],
                    ),
            decreases self.transactions.len() - i,
        {
            if !self.refers_to_taxonomy(&self.transactions[i]) {
                assert(!reference_holds(self@.categories, self@.transactions[i as int]));
                return false;
            }
            i = i + 1;
        }
        true
    }

    /// A tracker over the given categories, without transactions, where
    /// the categories are well formed.
    pub fn from_categories(categories: Vec<Category>) -> (r: Option<ExpenseTracker>)
        ensures
            match r {
                Some(tracker) => {
                    &&& tracker.wf()
                    &&& tracker.valid_categories == categories
                    &&& tracker@.transactions == Seq::<TransactionView>::empty()
                },
                None => !taxonomy_wf(category_views(categories@)),
            },
    {
        if !ExpenseTracker::taxonomy_is_well_formed(&categories) {
            return None;
        }
        let tracker = ExpenseTracker { valid_categories: categories, transactions: Vec::new() };
        assert(tracker@.transactions =~= Seq::<TransactionView>::empty());
        Some(tracker)
    }

}

/// Which transactions are shown: all of them, or those of one category.
#[derive(Debug, Clone, PartialEq, Eq)]
pub enum CategoryFilter {
    NoneSelected,
    CategorySelected(Category),
}

/// The transactions whose category, by its normalised name, is the one of
/// the given name, in their order.
pub open spec fn transactions_in_category(
    transactions: Seq<TransactionView>,
    name: Seq<char>,
) -> Seq<TransactionView>
    decreases transactions.len(),
{
    if transactions.len() == 0 {
        Seq::empty()
    } else if lowercase(transactions.last().category_name) == name {
        transactions_in_category(transactions.drop_last(), name).push(transactions.last())
    } else {
        transactions_in_category(transactions.drop_last(), name)
    }
}

/// The transactions that a filter shows.
pub open spec fn transactions_shown(
    transactions: Seq<TransactionView>,
    filter: CategoryFilter,
) -> Seq<TransactionView> {
    match filter {
        CategoryFilter::NoneSelected => transactions,
        CategoryFilter::CategorySelected(category) => transactions_in_category(
            transactions,
            category.name@,
        ),
    }
}

/// A copy of a transaction.
pub fn clone_transaction(transaction: &Transaction) -> (r: Transaction)
    ensures
        r@ == transaction@,
{
    Transaction {
        date: transaction.date,
        amount: transaction.amount,
        category_name: transaction.category_name.clone(),
        subcategory_name: clone_opt_string(&transaction.subcategory_name),
        tag: clone_opt_string(&transaction.tag),
        note: clone_opt_string(&transaction.note),
    }
}

impl ExpenseTracker {
    /// Copies of the retained transactions that the filter shows, in their
    /// order.
    pub fn filter_transactions(&self, filter: &CategoryFilter) -> (r: Vec<Transaction>)
        ensures
            transaction_views(r@) == transactions_shown(self@.transactions, *filter),
    {
        let mut shown: Vec<Transaction> = Vec::new();
        let mut i: usize = 0;
        assert(self@.transactions.take(0) =~= Seq::<TransactionView>::empty());
        while i < self.transactions.len()
            invariant
                i <= self.transactions.len(),
                transaction_views(shown@) == transactions_shown(
                    self@.transactions.take(i as int),
                    *filter,
                ),
            decreases self.transactions.len() - i,
        {
            let ghost before = self@.transactions.take(i as int);
            let ghost after = self@.transactions.take(i + 1);
            proof {
                assert(after.drop_last() =~= before);
                assert(after.last() == self.transactions@[i as int]@);
                assert(after =~= before.push(self.transactions@[i as int]@));
            }
            let show = match filter {
                CategoryFilter::NoneSelected => true,
                CategoryFilter::CategorySelected(category) => {
                    let key = normalize(self.transactions[i].category_name.as_str());
                    key == category.name
                },
            };
            if show {
                let ghost views = transaction_views(shown@);
                shown.push(clone_transaction(&self.transactions[i]));
                assert(transaction_views(shown@) =~= views.push(self.transactions@[i as int]@));
            }
            i = i + 1;
        }
        assert(self@.transactions.take(i as int) =~= self@.transactions);
        shown
    }
}

} // verus!
