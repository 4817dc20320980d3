//! Holding a parsed transaction against a category: the rule by which it is
//! taken or rejected.

use crate::expense_tracker::ExpenseTracker;
use crate::names::{locate, lowercase, names_of, normalize, Slot};
use crate::taxonomy::{
    category_names,
    category_valid,
    category_wf,
    found_subcategory_in,
    resolution_in,
    subcategory_names,
    subcategory_valid,
    taxonomy_wf,
};
use crate::transaction::{
    Category,
    CategoryView,
    RejectionReason,
    SubCategory,
    SubCategoryView,
    Transaction,
    TransactionParsed,
    TransactionView,
};
use vstd::prelude::*;

verus! {

/// The view of what resolving a transaction gave.
pub open spec fn resolution_view(r: Result<Transaction, RejectionReason>) -> Result<
    TransactionView,
    RejectionReason,
> {
    match r {
        Ok(t) => Ok(t@),
        Err(e) => Err(e),
    }
}

/// The view of an optional category.
pub open spec fn opt_category_view(c: Option<&Category>) -> Option<CategoryView> {
    match c {
        Some(c) => Some(c@),
        None => None,
    }
}

/// The view of an optional sub-category.
pub open spec fn opt_subcategory_view(s: Option<&SubCategory>) -> Option<SubCategoryView> {
    match s {
        Some(s) => Some(s@),
        None => None,
    }
}

impl Category {
    /// The sub-category of this category that the name finds, compared
    /// without regard to case.
    pub fn find_subcategory(&self, subcategory_name: &str) -> (r: Option<&SubCategory>)
        requires
            category_wf(self@),
        ensures
            opt_subcategory_view(r) == found_subcategory_in(self@, subcategory_name@),
    {
        let key = normalize(subcategory_name);
        assert(names_of(self.subcategories@) =~= subcategory_names(self@.subcategories));
        match locate(&self.subcategories, key.as_str()) {
            Slot::Found(i) => Some(&self.subcategories[i]),
            Slot::Vacant(_) => None,
        }
    }
}

impl TransactionParsed {
    /// Holds the transaction against the category that its category name
    /// found, if it found one. Without a category it is rejected. A category
    /// without sub-categories takes it where it names none; a category with
    /// sub-categories takes it where it names one of them.
    pub fn resolve_references(self, maybe_category: Option<&Category>) -> (r: Result<
        Transaction,
        RejectionReason,
    >)
        requires
            maybe_category matches Some(c) ==> category_wf(c@),
        ensures
            resolution_view(r) == resolution_in(opt_category_view(maybe_category), self@),
    {
        let category = match maybe_category {
            Some(category) => category,
            None => {
                return Err(RejectionReason::InvalidCategory);
            },
        };
        match &self.subcategory_name {
            None => {
                if category.subcategories.len() == 0 {
                    Ok(Transaction::from(self))
                } else {
                    Err(RejectionReason::MissingOrInvalidSubcategory)
                }
            },
            Some(name) => {
                if category.subcategories.len() == 0 {
                    return Err(RejectionReason::UnexpectedSubcategory);
                }
                match category.find_subcategory(name.as_str()) {
                    Some(_) => Ok(Transaction::from(self)),
                    None => Err(RejectionReason::MissingOrInvalidSubcategory),
                }
            },
        }
    }
}

impl Transaction {
    /// Whether the category of the transaction is among the categories of
    /// the tracker, as they are now.
    pub fn is_category_valid(&self, tracker: &ExpenseTracker) -> (r: bool)
        requires
            taxonomy_wf(tracker@.categories),
        ensures
            r == category_valid(tracker@.categories, self@.category_name),
    {
        tracker.get_category(self.category_name.as_str()).is_some()
    }

    /// Whether the sub-category of the transaction fits its category, as
    /// the categories are now: a transaction that names none fits where the
    /// category has none, and one that names a sub-category fits where the
    /// category has it.
    pub fn is_subcategory_valid(&self, tracker: &ExpenseTracker) -> (r: bool)
        requires
            taxonomy_wf(tracker@.categories),
        ensures
            r == subcategory_valid(
                tracker@.categories,
                self@.category_name,
                self@.subcategory_name,
            ),
    {
        let maybe_category = tracker.get_category(self.category_name.as_str());
        proof {
            if maybe_category is Some {
                let i = category_names(tracker@.categories).index_of(
                    lowercase(self.category_name@),
                );
                assert(category_wf(tracker@.categories[i]));
            }
        }
        match &self.subcategory_name {
            None => match maybe_category {
                Some(category) => category.subcategories.len() == 0,
                None => true,
            },
            Some(name) => match maybe_category {
                Some(category) => category.find_subcategory(name.as_str()).is_some(),
                None => false,
            },
        }
    }
}

} // verus!
