//! The rules of the taxonomy, stated over the views of categories: which
//! names it holds, what adding a name makes of it, and which transactions
//! it accepts.

use crate::date::Date;
use crate::names::{
    is_slot,
    lemma_ascending_index,
    lemma_slot,
    lemma_slot_exists,
    lowercase,
    names_ascending,
    slot_of,
};
use crate::transaction::{
    CategoryView,
    confirmed,
    RejectionReason,
    SubCategoryView,
    TransactionParsedView,
    TransactionView,
};
use vstd::prelude::*;

verus! {

/// Why a sub-category could not be added.
#[derive(Clone, Copy, Debug, PartialEq, Eq, Structural)]
pub enum TaxonomyError {
    UnknownCategory,
    DuplicateSubcategory,
}

/// The names of the categories, in their order.
pub open spec fn category_names(cats: Seq<CategoryView>) -> Seq<Seq<char>> {
    Seq::new(cats.len(), |i: int| cats[i].name)
}

/// The names of the sub-categories, in their order.
pub open spec fn subcategory_names(subs: Seq<SubCategoryView>) -> Seq<Seq<char>> {
    Seq::new(subs.len(), |i: int| subs[i].name)
}

/// The sub-categories of a category stand in ascending order of their
/// names, so no two of them share a name.
pub open spec fn category_wf(c: CategoryView) -> bool {
    names_ascending(subcategory_names(c.subcategories))
}

/// The categories stand in ascending order of their names, so no two of
/// them share a name, and each of them is well formed.
pub open spec fn taxonomy_wf(cats: Seq<CategoryView>) -> bool {
    &&& names_ascending(category_names(cats))
    &&& forall|i: int| 0 <= i < cats.len() ==> category_wf(#[trigger] cats[i])
}

/// A category of this name is among the categories.
pub open spec fn has_category(cats: Seq<CategoryView>, key: Seq<char>) -> bool {
    category_names(cats).contains(key)
}

/// The category of the given name, where there is one.
pub open spec fn category_named(cats: Seq<CategoryView>, key: Seq<char>) -> CategoryView {
    cats[category_names(cats).index_of(key)]
}

/// A sub-category of this name is among those of the category.
pub open spec fn has_subcategory(c: CategoryView, key: Seq<char>) -> bool {
    subcategory_names(c.subcategories).contains(key)
}

/// The sub-category of the given name in a category, where there is one.
pub open spec fn subcategory_named(c: CategoryView, key: Seq<char>) -> SubCategoryView {
    c.subcategories[subcategory_names(c.subcategories).index_of(key)]
}

/// A fresh category: no sub-categories yet.
pub open spec fn new_category(key: Seq<char>, date: Date) -> CategoryView {
    CategoryView { name: key, subcategories: Seq::empty(), date_added: date }
}

/// The categories after a category of the name `key` is added: unchanged
/// where one of that name exists, else with a fresh category at its place in
/// the order of names.
pub open spec fn with_category(cats: Seq<CategoryView>, key: Seq<char>, date: Date) -> Seq<
    CategoryView,
> {
    if has_category(cats, key) {
        cats
    } else {
        cats.insert(slot_of(category_names(cats), key), new_category(key, date))
    }
}

/// What adding the sub-category `skey` under the category `ckey` answers.
pub open spec fn subcategory_outcome(
    cats: Seq<CategoryView>,
    ckey: Seq<char>,
    skey: Seq<char>,
) -> Result<(), TaxonomyError> {
    if !has_category(cats, ckey) {
        Err(TaxonomyError::UnknownCategory)
    } else if has_subcategory(category_named(cats, ckey), skey) {
        Err(TaxonomyError::DuplicateSubcategory)
    } else {
        Ok(())
    }
}

/// A category with one more sub-category, at its place in the order of
/// names.
pub open spec fn category_with(c: CategoryView, skey: Seq<char>, date: Date) -> CategoryView {
    CategoryView {
        name: c.name,
        subcategories: c.subcategories.insert(
            slot_of(subcategory_names(c.subcategories), skey),
            SubCategoryView { name: skey, date_added: date },
        ),
        date_added: c.date_added,
    }
}

/// The categories after the sub-category `skey` is added under the category
/// `ckey`: unchanged where that is refused.
pub open spec fn with_subcategory(
    cats: Seq<CategoryView>,
    ckey: Seq<char>,
    skey: Seq<char>,
    date: Date,
) -> Seq<CategoryView> {
    if subcategory_outcome(cats, ckey, skey) is Ok {
        cats.update(
            category_names(cats).index_of(ckey),
            category_with(category_named(cats, ckey), skey, date),
        )
    } else {
        cats
    }
}

/// The category that a name finds, compared in its normalised form.
pub open spec fn found_category(cats: Seq<CategoryView>, name: Seq<char>) -> Option<
    CategoryView,
> {
    if has_category(cats, lowercase(name)) {
        Some(category_named(cats, lowercase(name)))
    } else {
        None
    }
}

/// The sub-category that a name finds in a category, compared in its
/// normalised form.
pub open spec fn found_subcategory_in(c: CategoryView, name: Seq<char>) -> Option<
    SubCategoryView,
> {
    if has_subcategory(c, lowercase(name)) {
        Some(subcategory_named(c, lowercase(name)))
    } else {
        None
    }
}

/// The sub-category that the two names find.
pub open spec fn found_subcategory(
    cats: Seq<CategoryView>,
    category_name: Seq<char>,
    subcategory_name: Seq<char>,
) -> Option<SubCategoryView> {
    match found_category(cats, category_name) {
        Some(c) => found_subcategory_in(c, subcategory_name),
        None => None,
    }
}

/// Whether a parsed transaction is taken, given the category that its
/// category name finds, and as what. The category must exist. Where it has
/// no sub-categories the transaction must name none; where it has some, the
/// transaction must name one of them, compared in its normalised form.
pub open spec fn resolution_in(category: Option<CategoryView>, parsed: TransactionParsedView) -> Result<
    TransactionView,
    RejectionReason,
> {
    match category {
        None => Err(RejectionReason::InvalidCategory),
        Some(category) => match parsed.subcategory_name {
            None => if category.subcategories.len() == 0 {
                Ok(confirmed(parsed))
            } else {
                Err(RejectionReason::MissingOrInvalidSubcategory)
            },
            Some(name) => if category.subcategories.len() == 0 {
                Err(RejectionReason::UnexpectedSubcategory)
            } else if has_subcategory(category, lowercase(name)) {
                Ok(confirmed(parsed))
            } else {
                Err(RejectionReason::MissingOrInvalidSubcategory)
            },
        },
    }
}

/// Whether the taxonomy takes a parsed transaction, and as what.
pub open spec fn resolution(cats: Seq<CategoryView>, parsed: TransactionParsedView) -> Result<
    TransactionView,
    RejectionReason,
> {
    resolution_in(found_category(cats, parsed.category), parsed)
}

/// The category name is that of a category of the taxonomy.
pub open spec fn category_valid(cats: Seq<CategoryView>, category: Seq<char>) -> bool {
    has_category(cats, lowercase(category))
}

/// The sub-category fits the category of the given name: where none is
/// named, the category has none; where one is named, the category has it.
pub open spec fn subcategory_valid(
    cats: Seq<CategoryView>,
    category: Seq<char>,
    subcategory: Option<Seq<char>>,
) -> bool {
    match subcategory {
        None => match found_category(cats, category) {
            Some(category) => category.subcategories.len() == 0,
            None => true,
        },
        Some(name) => match found_category(cats, category) {
            Some(category) => has_subcategory(category, lowercase(name)),
            None => false,
        },
    }
}

/// What a transaction refers to is there: its category, and its
/// sub-category under that category if it names one, both by their
/// normalised names.
pub open spec fn reference_holds(cats: Seq<CategoryView>, t: TransactionView) -> bool {
    &&& has_category(cats, lowercase(t.category_name))
    &&& t.subcategory_name matches Some(name) ==> has_subcategory(
        category_named(cats, lowercase(t.category_name)),
        lowercase(name),
    )
}

/// What a transaction that was taken refers to is in the taxonomy.
pub proof fn lemma_resolution_refers(
    cats: Seq<CategoryView>,
    parsed: TransactionParsedView,
)
    requires
        taxonomy_wf(cats),
        resolution(cats, parsed) is Ok,
    ensures
        reference_holds(cats, resolution(cats, parsed)->Ok_0),
{
}


/// Every category and sub-category of `before` is in `after` too.
pub open spec fn extends(before: Seq<CategoryView>, after: Seq<CategoryView>) -> bool {
    forall|c: Seq<char>| #[trigger]
        has_category(before, c) ==> {
            &&& has_category(after, c)
            &&& forall|s: Seq<char>| #[trigger]
                has_subcategory(category_named(before, c), s) ==> has_subcategory(
                    category_named(after, c),
                    s,
                )
        }
}

/// Every taxonomy holds what it holds.
pub proof fn lemma_extends_reflexive(cats: Seq<CategoryView>)
    ensures
        extends(cats, cats),
{
}

/// What grows twice has grown.
pub proof fn lemma_extends_transitive(
    first: Seq<CategoryView>,
    second: Seq<CategoryView>,
    third: Seq<CategoryView>,
)
    requires
        extends(first, second),
        extends(second, third),
    ensures
        extends(first, third),
{
    assert forall|c: Seq<char>| #[trigger] has_category(first, c) implies {
        &&& has_category(third, c)
        &&& forall|s: Seq<char>| #[trigger]
            has_subcategory(category_named(first, c), s) ==> has_subcategory(
                category_named(third, c),
                s,
            )
    } by {
        assert(has_category(second, c));
        assert forall|s: Seq<char>| #[trigger]
            has_subcategory(category_named(first, c), s) implies has_subcategory(
            category_named(third, c),
            s,
        ) by {
            assert(has_subcategory(category_named(second, c), s));
        }
    }
}

/// References that hold keep holding when the taxonomy grows.
pub proof fn lemma_reference_kept(
    before: Seq<CategoryView>,
    after: Seq<CategoryView>,
    t: TransactionView,
)
    requires
        extends(before, after),
        reference_holds(before, t),
    ensures
        reference_holds(after, t),
{
    assert(has_category(before, lowercase(t.category_name)));
}

/// In a well-formed taxonomy the category at an index is the one of its
/// name.
pub proof fn lemma_category_at(cats: Seq<CategoryView>, i: int)
    requires
        names_ascending(category_names(cats)),
        0 <= i < cats.len(),
    ensures
        has_category(cats, cats[i].name),
        category_named(cats, cats[i].name) == cats[i],
{
    lemma_ascending_index(category_names(cats), i);
}

/// Adding a category keeps the taxonomy well formed and loses nothing.
pub proof fn lemma_with_category(cats: Seq<CategoryView>, key: Seq<char>, date: Date)
    requires
        taxonomy_wf(cats),
    ensures
        taxonomy_wf(with_category(cats, key, date)),
        extends(cats, with_category(cats, key, date)),
        has_category(with_category(cats, key, date), key),
        with_category(cats, key, date).len() == cats.len() + (if has_category(cats, key) {
            0int
        } else {
            1int
        }),
        !has_category(cats, key) ==> is_slot(
            category_names(cats),
            key,
            slot_of(category_names(cats), key),
        ),
{
    let after = with_category(cats, key, date);
    let names = category_names(cats);
    if has_category(cats, key) {
    } else {
        lemma_slot_exists(names, key);
        let p = slot_of(names, key);
        lemma_slot(names, key, p);
        assert(category_names(after) =~= names.insert(p, key));
        assert(category_wf(new_category(key, date)));
        assert forall|i: int| 0 <= i < after.len() implies category_wf(#[trigger] after[i]) by {
            if i < p {
                assert(after[i] == cats[i]);
            } else if i > p {
                assert(after[i] == cats[i - 1]);
            }
        }
        assert(category_names(after)[p] == key);
        assert forall|c: Seq<char>| #[trigger] has_category(cats, c) implies {
            &&& has_category(after, c)
            &&& category_named(after, c) == category_named(cats, c)
        } by {
            let i = names.index_of(c);
            let j = if i < p {
                i
            } else {
                i + 1
            };
            assert(after[j] == cats[i]);
            lemma_category_at(after, j);
        }
    }
}

/// Adding a sub-category keeps the taxonomy well formed and loses nothing.
pub proof fn lemma_with_subcategory(
    cats: Seq<CategoryView>,
    ckey: Seq<char>,
    skey: Seq<char>,
    date: Date,
)
    requires
        taxonomy_wf(cats),
    ensures
        taxonomy_wf(with_subcategory(cats, ckey, skey, date)),
        extends(cats, with_subcategory(cats, ckey, skey, date)),
        category_names(with_subcategory(cats, ckey, skey, date)) == category_names(cats),
        subcategory_outcome(cats, ckey, skey) is Ok ==> has_subcategory(
            category_named(with_subcategory(cats, ckey, skey, date), ckey),
            skey,
        ),
        subcategory_outcome(cats, ckey, skey) is Ok ==> is_slot(
            subcategory_names(category_named(cats, ckey).subcategories),
            skey,
            slot_of(subcategory_names(category_named(cats, ckey).subcategories), skey),
        ),
{
    let after = with_subcategory(cats, ckey, skey, date);
    if subcategory_outcome(cats, ckey, skey) is Ok {
        let i = category_names(cats).index_of(ckey);
        let c = cats[i];
        let subs = subcategory_names(c.subcategories);
        assert(category_wf(c));
        lemma_slot_exists(subs, skey);
        let p = slot_of(subs, skey);
        lemma_slot(subs, skey, p);
        let grown = category_with(c, skey, date);
        assert(subcategory_names(grown.subcategories) =~= subs.insert(p, skey));
        assert(subcategory_names(grown.subcategories)[p] == skey);
        assert(category_names(after) =~= category_names(cats));
        assert forall|k: int| 0 <= k < after.len() implies category_wf(#[trigger] after[k]) by {
            if k != i {
                assert(after[k] == cats[k]);
            }
        }
        lemma_category_at(after, i);
        assert forall|c2: Seq<char>| #[trigger] has_category(cats, c2) implies {
            &&& has_category(after, c2)
            &&& forall|s: Seq<char>| #[trigger]
                has_subcategory(category_named(cats, c2), s) ==> has_subcategory(
                    category_named(after, c2),
                    s,
                )
        } by {
            let k = category_names(cats).index_of(c2);
            lemma_category_at(after, k);
            lemma_category_at(cats, k);
            if k == i {
                assert forall|s: Seq<char>| #[trigger]
                    has_subcategory(c, s) implies has_subcategory(grown, s) by {
                    let m = subs.index_of(s);
                    let n = if m < p {
                        m
                    } else {
                        m + 1
                    };
                    assert(subcategory_names(grown.subcategories)[n] == s);
                }
            } else {
                assert(after[k] == cats[k]);
            }
        }
    } else {
        assert(category_names(after) =~= category_names(cats));
    }
}


impl TaxonomyError {
    /// The words of the error.
    pub open spec fn message_text(self) -> Seq<char> {
        match self {
            TaxonomyError::UnknownCategory => "Sub-category cannot be added because its category is invalid"@,
            TaxonomyError::DuplicateSubcategory => "The subcategory name already exists"@,
        }
    }

    /// The error in words.
    pub fn message(&self) -> (r: String)
        ensures
            r@ == self.message_text(),
    {
        match self {
            TaxonomyError::UnknownCategory => "Sub-category cannot be added because its category is invalid".to_owned(),
            TaxonomyError::DuplicateSubcategory => "The subcategory name already exists".to_owned(),
        }
    }
}

} // verus!
