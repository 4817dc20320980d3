//! Transactions, the records they are read from, and the categories and
//! sub-categories they refer to.

use crate::date::Date;
use crate::names::{lowercase, Named, normalize};
use vstd::prelude::*;
use vstd::std_specs::cmp::PartialEqSpecImpl;
use vstd::string::StrSliceExecFns;

verus! {

/// A signed amount of money: positive is inbound, negative is outbound. It
/// is kept as the bit pattern of a single-precision binary number. The
/// library carries amounts and never computes with them.
#[derive(Clone, Copy, Debug, PartialEq, Eq, Structural)]
pub struct Amount {
    pub bits: u32,
}

/// The required fields of a record, in their positions.
#[derive(Clone, Copy, Debug, PartialEq, Eq, Structural)]
pub enum Field {
    Date,
    AmountOut,
    AmountIn,
    Category,
}

/// Why a record could not be read.
#[derive(Clone, Copy, Debug, PartialEq, Eq, Structural)]
pub enum ParseError {
    MissingField(Field),
    InvalidDate,
    InvalidAmount,
}

/// Why a transaction that was read is not taken.
#[derive(Clone, Copy, Debug, PartialEq, Eq, Structural)]
pub enum RejectionReason {
    InvalidCategory,
    UnexpectedSubcategory,
    MissingOrInvalidSubcategory,
}

/// The text of an optional text.
pub open spec fn opt_text(o: Option<String>) -> Option<Seq<char>> {
    match o {
        Some(s) => Some(s@),
        None => None,
    }
}

/// An optional text from a text: the empty text stands for "absent".
pub open spec fn text_to_option(s: Seq<char>) -> Option<Seq<char>> {
    if s.len() == 0 {
        None
    } else {
        Some(s)
    }
}

/// A text from an optional text: "absent" is written as the empty text.
pub open spec fn option_to_text(o: Option<Seq<char>>) -> Seq<char> {
    match o {
        Some(s) => s,
        None => Seq::empty(),
    }
}

/// An optional text from a text: the empty text becomes `None`, any other
/// text is kept as it is.
pub fn string_to_option(s: String) -> (r: Option<String>)
    ensures
        opt_text(r) == text_to_option(s@),
{
    if s.as_str().is_empty() {
        None
    } else {
        Some(s)
    }
}

/// A copy of an optional text.
pub fn clone_opt_string(o: &Option<String>) -> (r: Option<String>)
    ensures
        opt_text(r) == opt_text(*o),
{
    match o {
        Some(s) => Some(s.clone()),
        None => None,
    }
}

/// The text of an optional text, the empty text where it is absent.
pub fn opt_string_or_empty(o: &Option<String>) -> (r: String)
    ensures
        r@ == option_to_text(opt_text(*o)),
{
    match o {
        Some(s) => s.clone(),
        None => String::new(),
    }
}

/// A sub-category. Its identity is its name, within the category that owns
/// it.
#[derive(Debug, Clone)]
pub struct SubCategory {
    pub name: String,
    pub date_added: Date,
}

/// A sub-category as contracts see it.
pub struct SubCategoryView {
    pub name: Seq<char>,
    pub date_added: Date,
}

impl View for SubCategory {
    type V = SubCategoryView;

    open spec fn view(&self) -> SubCategoryView {
        SubCategoryView { name: self.name@, date_added: self.date_added }
    }
}

impl PartialEq for SubCategory {
    fn eq(&self, other: &Self) -> (r: bool) {
        self.name == other.name
    }
}

impl PartialEqSpecImpl for SubCategory {
    open spec fn obeys_eq_spec() -> bool {
        true
    }

    open spec fn eq_spec(&self, other: &Self) -> bool {
        self.name@ == other.name@
    }
}

impl Eq for SubCategory {

}

impl SubCategory {
    /// A sub-category of the normalised name, dated with the default date.
    pub fn from_name(name: &str) -> (r: SubCategory)
        ensures
            r@ == (SubCategoryView { name: lowercase(name@), date_added: Date::epoch() }),
    {
        SubCategory { name: normalize(name), date_added: Date::default() }
    }
}

/// What a sub-category can be made from by its name alone.
pub trait AsSubCategory {
    spec fn subcategory_name(self) -> Seq<char>;

    fn as_subcategory(self) -> (r: SubCategory)
        ensures
            r@ == (SubCategoryView { name: self.subcategory_name(), date_added: Date::epoch() }),
    ;
}

impl AsSubCategory for &str {
    open spec fn subcategory_name(self) -> Seq<char> {
        lowercase(self@)
    }

    fn as_subcategory(self) -> (r: SubCategory) {
        SubCategory::from_name(self)
    }
}

/// A category with the sub-categories it owns. Its identity is its name.
#[derive(Debug, Clone)]
pub struct Category {
    pub name: String,
    pub subcategories: Vec<SubCategory>,
    pub date_added: Date,
}

/// A category as contracts see it.
pub struct CategoryView {
    pub name: Seq<char>,
    pub subcategories: Seq<SubCategoryView>,
    pub date_added: Date,
}

/// The views of a list of sub-categories.
pub open spec fn subcategory_views(subs: Seq<SubCategory>) -> Seq<SubCategoryView> {
    Seq::new(subs.len(), |i: int| subs[i]@)
}

impl View for Category {
    type V = CategoryView;

    open spec fn view(&self) -> CategoryView {
        CategoryView {
            name: self.name@,
            subcategories: subcategory_views(self.subcategories@),
            date_added: self.date_added,
        }
    }
}

impl PartialEq for Category {
    fn eq(&self, other: &Self) -> (r: bool) {
        self.name == other.name
    }
}

impl PartialEqSpecImpl for Category {
    open spec fn obeys_eq_spec() -> bool {
        true
    }

    open spec fn eq_spec(&self, other: &Self) -> bool {
        self.name@ == other.name@
    }
}

impl Eq for Category {

}

impl Category {
    /// A category of the normalised name, without sub-categories, dated with
    /// the default date.
    pub fn from_name(name: &str) -> (r: Category)
        ensures
            r@ == (CategoryView {
                name: lowercase(name@),
                subcategories: Seq::empty(),
                date_added: Date::epoch(),
            }),
    {
        let r = Category {
            name: normalize(name),
            subcategories: Vec::new(),
            date_added: Date::default(),
        };
        assert(r@.subcategories =~= Seq::empty());
        r
    }
}

/// What a category can be made from by its name alone.
pub trait AsCategory {
    spec fn category_name(self) -> Seq<char>;

    fn as_category(self) -> (r: Category)
        ensures
            r@ == (CategoryView {
                name: self.category_name(),
                subcategories: Seq::empty(),
                date_added: Date::epoch(),
            }),
    ;
}

impl AsCategory for &str {
    open spec fn category_name(self) -> Seq<char> {
        lowercase(self@)
    }

    fn as_category(self) -> (r: Category) {
        Category::from_name(self)
    }
}


impl Named for SubCategory {
    open spec fn spec_name(&self) -> Seq<char> {
        self.name@
    }

    fn name_str(&self) -> (r: &str) {
        self.name.as_str()
    }
}

impl Named for Category {
    open spec fn spec_name(&self) -> Seq<char> {
        self.name@
    }

    fn name_str(&self) -> (r: &str) {
        self.name.as_str()
    }
}

/// A record as it stands in the table: seven texts. An empty text stands
/// for a field that is not set.
#[derive(Debug, Clone, PartialEq, Eq)]
pub struct TransactionCsv {
    pub date: String,
    pub amount_out: String,
    pub amount_in: String,
    pub category: String,
    pub subcategory: String,
    pub tag: String,
    pub note: String,
}

/// A record as contracts see it.
pub struct TransactionCsvView {
    pub date: Seq<char>,
    pub amount_out: Seq<char>,
    pub amount_in: Seq<char>,
    pub category: Seq<char>,
    pub subcategory: Seq<char>,
    pub tag: Seq<char>,
    pub note: Seq<char>,
}

impl View for TransactionCsv {
    type V = TransactionCsvView;

    open spec fn view(&self) -> TransactionCsvView {
        TransactionCsvView {
            date: self.date@,
            amount_out: self.amount_out@,
            amount_in: self.amount_in@,
            category: self.category@,
            subcategory: self.subcategory@,
            tag: self.tag@,
            note: self.note@,
        }
    }
}

/// The texts of a list of texts.
pub open spec fn texts(fields: Seq<String>) -> Seq<Seq<char>> {
    Seq::new(fields.len(), |i: int| fields[i]@)
}

/// The text at a position, the empty text where the list ends before it.
pub open spec fn text_at(fields: Seq<Seq<char>>, i: int) -> Seq<char> {
    if 0 <= i < fields.len() {
        fields[i]
    } else {
        Seq::empty()
    }
}

/// The record that a list of positional fields stands for. The first four
/// fields are required, and the first one that is absent is named.
pub open spec fn record_of_fields(fields: Seq<Seq<char>>) -> Result<
    TransactionCsvView,
    ParseError,
> {
    if fields.len() < 1 {
        Err(ParseError::MissingField(Field::Date))
    } else if fields.len() < 2 {
        Err(ParseError::MissingField(Field::AmountOut))
    } else if fields.len() < 3 {
        Err(ParseError::MissingField(Field::AmountIn))
    } else if fields.len() < 4 {
        Err(ParseError::MissingField(Field::Category))
    } else {
        Ok(
            TransactionCsvView {
                date: fields[0],
                amount_out: fields[1],
                amount_in: fields[2],
                category: fields[3],
                subcategory: text_at(fields, 4),
                tag: text_at(fields, 5),
                note: text_at(fields, 6),
            },
        )
    }
}

/// The view of what reading a record gave.
pub open spec fn record_result_view(r: Result<TransactionCsv, ParseError>) -> Result<
    TransactionCsvView,
    ParseError,
> {
    match r {
        Ok(record) => Ok(record@),
        Err(e) => Err(e),
    }
}

/// A copy of the field at a position, the empty text where there is none.
fn field_or_empty(fields: &Vec<String>, i: usize) -> (r: String)
    ensures
        r@ == text_at(texts(fields@), i as int),
{
    if i < fields.len() {
        fields[i].clone()
    } else {
        String::new()
    }
}

impl TransactionCsv {
    /// Reads a record from its fields by position: date, amount out, amount
    /// in, category, then the optional sub-category, tag and note.
    pub fn from_fields(fields: &Vec<String>) -> (r: Result<TransactionCsv, ParseError>)
        ensures
            record_result_view(r) == record_of_fields(texts(fields@)),
    {
        if fields.len() < 1 {
            return Err(ParseError::MissingField(Field::Date));
        }
        if fields.len() < 2 {
            return Err(ParseError::MissingField(Field::AmountOut));
        }
        if fields.len() < 3 {
            return Err(ParseError::MissingField(Field::AmountIn));
        }
        if fields.len() < 4 {
            return Err(ParseError::MissingField(Field::Category));
        }
        Ok(
            TransactionCsv {
                date: fields[0].clone(),
                amount_out: fields[1].clone(),
                amount_in: fields[2].clone(),
                category: fields[3].clone(),
                subcategory: field_or_empty(fields, 4),
                tag: field_or_empty(fields, 5),
                note: field_or_empty(fields, 6),
            },
        )
    }
}

/// The text of an amount without its grouping separators.
pub open spec fn without_separators(text: Seq<char>) -> Seq<char>
    decreases text.len(),
{
    if text.len() == 0 {
        Seq::empty()
    } else if text.last() == '\'' {
        without_separators(text.drop_last())
    } else {
        without_separators(text.drop_last()).push(text.last())
    }
}

/// The characters that count as white space.
pub open spec fn is_space(c: char) -> bool {
    let u = c as u32;
    ||| 0x09 <= u <= 0x0d
    ||| u == 0x20
    ||| u == 0x85
    ||| u == 0xa0
    ||| u == 0x1680
    ||| 0x2000 <= u <= 0x200a
    ||| u == 0x2028
    ||| u == 0x2029
    ||| u == 0x202f
    ||| u == 0x205f
    ||| u == 0x3000
}

/// A text of white space only; the empty text is one.
pub open spec fn is_blank(text: Seq<char>) -> bool {
    forall|i: int| 0 <= i < text.len() ==> is_space(#[trigger] text[i])
}

/// The digits of an amount column: `None` for a blank column, which stands
/// for zero, else the text without its grouping separators.
pub open spec fn amount_digits(text: Seq<char>) -> Option<Seq<char>> {
    if is_blank(text) {
        None
    } else {
        Some(without_separators(text))
    }
}

/// Trusted: `String::push` appends the character to the text.
pub assume_specification[ String::push ](s: &mut String, c: char)
    ensures
        final(s)@ == old(s)@.push(c),
;

/// Whether a character counts as white space.
pub fn is_space_char(c: char) -> (r: bool)
    ensures
        r == is_space(c),
{
    let u: u32 = c as u32;
    (0x09 <= u && u <= 0x0d) || u == 0x20 || u == 0x85 || u == 0xa0 || u == 0x1680 || (0x2000 <= u
        && u <= 0x200a) || u == 0x2028 || u == 0x2029 || u == 0x202f || u == 0x205f || u == 0x3000
}

/// Prepares an amount column for reading as a number: a blank column gives
/// `None` and stands for zero; any other has its grouping separators `'`
/// taken out.
pub fn clean_amount(text: &str) -> (r: Option<String>)
    ensures
        opt_text(r) == amount_digits(text@),
{
    let n: usize = text.unicode_len();
    let mut out = String::new();
    let mut blank = true;
    let mut i: usize = 0;
    while i < n
        invariant
            i <= n,
            n == text@.len(),
            out@ == without_separators(text@.take(i as int)),
            blank == is_blank(text@.take(i as int)),
        decreases n - i,
    {
        let c = text.get_char(i);
        proof {
            let before = text@.take(i as int);
            let after = text@.take(i + 1);
            assert(after.drop_last() == before);
            assert(after.last() == c);
            if is_blank(after) {
                assert forall|j: int| 0 <= j < before.len() implies is_space(
                    #[trigger] before[j],
                ) by {
                    assert(before[j] == after[j]);
                }
                assert(is_space(after[i as int]));
            }
            if is_blank(before) && is_space(c) {
                assert forall|j: int| 0 <= j < after.len() implies is_space(
                    #[trigger] after[j],
                ) by {
                    if j < i {
                        assert(after[j] == before[j]);
                    }
                }
            }
            if !is_blank(before) {
                let j = choose|j: int| 0 <= j < before.len() && !is_space(#[trigger] before[j]);
                assert(after[j] == before[j]);
            }
        }
        if !is_space_char(c) {
            blank = false;
        }
        if c != '\'' {
            out.push(c);
        }
        i = i + 1;
    }
    proof {
        assert(text@.take(n as int) == text@);
    }
    if blank {
        None
    } else {
        Some(out)
    }
}

/// A transaction as it was read from a record, before it is held against
/// the categories.
#[derive(Debug, Clone, PartialEq, Eq)]
pub struct TransactionParsed {
    pub date: Date,
    pub amount: Amount,
    pub category: String,
    pub subcategory_name: Option<String>,
    pub tag: Option<String>,
    pub note: Option<String>,
}

/// A parsed transaction as contracts see it.
pub struct TransactionParsedView {
    pub date: Date,
    pub amount: Amount,
    pub category: Seq<char>,
    pub subcategory_name: Option<Seq<char>>,
    pub tag: Option<Seq<char>>,
    pub note: Option<Seq<char>>,
}

impl View for TransactionParsed {
    type V = TransactionParsedView;

    open spec fn view(&self) -> TransactionParsedView {
        TransactionParsedView {
            date: self.date,
            amount: self.amount,
            category: self.category@,
            subcategory_name: opt_text(self.subcategory_name),
            tag: opt_text(self.tag),
            note: opt_text(self.note),
        }
    }
}

/// The transaction that a record stands for, given the signed amount that
/// its two amount columns stand for (`None` where one of them is no
/// number). A date that cannot be read comes before an amount that
/// cannot.
pub open spec fn parsed_of_record(record: TransactionCsvView, amount: Option<Amount>) -> Result<
    TransactionParsedView,
    ParseError,
> {
    match Date::of_text(record.date) {
        None => Err(ParseError::InvalidDate),
        Some(date) => match amount {
            None => Err(ParseError::InvalidAmount),
            Some(amount) => Ok(
                TransactionParsedView {
                    date,
                    amount,
                    category: record.category,
                    subcategory_name: text_to_option(record.subcategory),
                    tag: text_to_option(record.tag),
                    note: text_to_option(record.note),
                },
            ),
        },
    }
}

/// The transaction that a list of positional fields stands for.
pub open spec fn parsed_of_fields(fields: Seq<Seq<char>>, amount: Option<Amount>) -> Result<
    TransactionParsedView,
    ParseError,
> {
    match record_of_fields(fields) {
        Err(e) => Err(e),
        Ok(record) => parsed_of_record(record, amount),
    }
}

/// The view of what reading a transaction gave.
pub open spec fn parsed_result_view(r: Result<TransactionParsed, ParseError>) -> Result<
    TransactionParsedView,
    ParseError,
> {
    match r {
        Ok(parsed) => Ok(parsed@),
        Err(e) => Err(e),
    }
}

impl TransactionParsed {
    /// Reads a transaction from a record. The caller hands in the signed
    /// amount, inbound minus outbound, that the two amount columns stand
    /// for, or `None` where one of them is no number.
    pub fn try_from(record: TransactionCsv, amount: Option<Amount>) -> (r: Result<
        TransactionParsed,
        ParseError,
    >)
        ensures
            parsed_result_view(r) == parsed_of_record(record@, amount),
    {
        let date = match Date::parse(record.date.as_str()) {
            Some(date) => date,
            None => {
                return Err(ParseError::InvalidDate);
            },
        };
        let amount = match amount {
            Some(amount) => amount,
            None => {
                return Err(ParseError::InvalidAmount);
            },
        };
        Ok(
            TransactionParsed {
                date,
                amount,
                category: record.category,
                subcategory_name: string_to_option(record.subcategory),
                tag: string_to_option(record.tag),
                note: string_to_option(record.note),
            },
        )
    }

    /// Reads a transaction from the fields of a row, by position.
    pub fn from_csv_row(fields: &Vec<String>, amount: Option<Amount>) -> (r: Result<
        TransactionParsed,
        ParseError,
    >)
        ensures
            parsed_result_view(r) == parsed_of_fields(texts(fields@), amount),
    {
        match TransactionCsv::from_fields(fields) {
            Err(e) => Err(e),
            Ok(record) => TransactionParsed::try_from(record, amount),
        }
    }
}

/// A transaction that was taken: it holds what the parsed transaction
/// held, and its category, and its sub-category if it names one, were found
/// among the categories when it was taken.
#[derive(Debug, Clone, PartialEq, Eq)]
pub struct Transaction {
    pub date: Date,
    pub amount: Amount,
    pub category_name: String,
    pub subcategory_name: Option<String>,
    pub tag: Option<String>,
    pub note: Option<String>,
}

/// A transaction as contracts see it.
pub struct TransactionView {
    pub date: Date,
    pub amount: Amount,
    pub category_name: Seq<char>,
    pub subcategory_name: Option<Seq<char>>,
    pub tag: Option<Seq<char>>,
    pub note: Option<Seq<char>>,
}

impl View for Transaction {
    type V = TransactionView;

    open spec fn view(&self) -> TransactionView {
        TransactionView {
            date: self.date,
            amount: self.amount,
            category_name: self.category_name@,
            subcategory_name: opt_text(self.subcategory_name),
            tag: opt_text(self.tag),
            note: opt_text(self.note),
        }
    }
}

/// The transaction that a parsed one becomes when it is taken: the same
/// fields.
pub open spec fn confirmed(parsed: TransactionParsedView) -> TransactionView {
    TransactionView {
        date: parsed.date,
        amount: parsed.amount,
        category_name: parsed.category,
        subcategory_name: parsed.subcategory_name,
        tag: parsed.tag,
        note: parsed.note,
    }
}

/// The record that a transaction is written as. `outbound` says in which of
/// the two amount columns the magnitude stands; the other one is empty. A
/// transaction whose date has no text has no record.
pub open spec fn record_of_transaction(
    t: TransactionView,
    outbound: bool,
    magnitude: Seq<char>,
) -> Option<TransactionCsvView> {
    match t.date.text() {
        None => None,
        Some(date) => Some(
            TransactionCsvView {
                date,
                amount_out: if outbound {
                    magnitude
                } else {
                    Seq::empty()
                },
                amount_in: if outbound {
                    Seq::empty()
                } else {
                    magnitude
                },
                category: t.category_name,
                subcategory: option_to_text(t.subcategory_name),
                tag: option_to_text(t.tag),
                note: option_to_text(t.note),
            },
        ),
    }
}

/// The view of an optional record.
pub open spec fn opt_record_view(r: Option<TransactionCsv>) -> Option<TransactionCsvView> {
    match r {
        Some(record) => Some(record@),
        None => None,
    }
}

impl Transaction {
    /// The transaction that a parsed one becomes when it is taken. Whether
    /// it is taken is for the tracker to say.
    pub fn from(transaction_parsed: TransactionParsed) -> (r: Transaction)
        ensures
            r@ == confirmed(transaction_parsed@),
    {
        Transaction {
            date: transaction_parsed.date,
            amount: transaction_parsed.amount,
            category_name: transaction_parsed.category,
            subcategory_name: transaction_parsed.subcategory_name,
            tag: transaction_parsed.tag,
            note: transaction_parsed.note,
        }
    }

    /// Writes the transaction as a record. The caller hands in the
    /// magnitude of the amount as text and says whether the amount is
    /// outbound; the magnitude goes to the matching amount column and the
    /// other column stays empty.
    pub fn to_csv(&self, outbound: bool, magnitude: String) -> (r: Option<TransactionCsv>)
        ensures
            opt_record_view(r) == record_of_transaction(self@, outbound, magnitude@),
    {
        let date = match self.date.format() {
            Some(date) => date,
            None => {
                return None;
            },
        };
        let (amount_out, amount_in) = if outbound {
            (magnitude, String::new())
        } else {
            (String::new(), magnitude)
        };
        Some(
            TransactionCsv {
                date,
                amount_out,
                amount_in,
                category: self.category_name.clone(),
                subcategory: opt_string_or_empty(&self.subcategory_name),
                tag: opt_string_or_empty(&self.tag),
                note: opt_string_or_empty(&self.note),
            },
        )
    }
}


impl Field {
    /// How the field is called in messages.
    pub open spec fn label(self) -> Seq<char> {
        match self {
            Field::Date => "Date not found in the record"@,
            Field::AmountOut => "Amount out not found in the record"@,
            Field::AmountIn => "Amount in not found in the record"@,
            Field::Category => "Category not found in the record"@,
        }
    }
}

impl ParseError {
    /// The words of the error.
    pub open spec fn message_text(self) -> Seq<char> {
        match self {
            ParseError::MissingField(field) => field.label(),
            ParseError::InvalidDate => "Failed to parse date from CSV transaction"@,
            ParseError::InvalidAmount => "Failed to parse amount from CSV transaction"@,
        }
    }

    /// The error in words.
    pub fn message(&self) -> (r: String)
        ensures
            r@ == self.message_text(),
    {
        match self {
            ParseError::MissingField(Field::Date) => "Date not found in the record".to_owned(),
            ParseError::MissingField(Field::AmountOut) => "Amount out not found in the record".to_owned(),
            ParseError::MissingField(Field::AmountIn) => "Amount in not found in the record".to_owned(),
            ParseError::MissingField(Field::Category) => "Category not found in the record".to_owned(),
            ParseError::InvalidDate => "Failed to parse date from CSV transaction".to_owned(),
            ParseError::InvalidAmount => "Failed to parse amount from CSV transaction".to_owned(),
        }
    }
}

impl RejectionReason {
    /// The words of the error.
    pub open spec fn message_text(self) -> Seq<char> {
        match self {
            RejectionReason::InvalidCategory => "Invalid category in transaction"@,
            RejectionReason::UnexpectedSubcategory => "Sub-category set in transaction although the category has none"@,
            RejectionReason::MissingOrInvalidSubcategory => "Invalid sub-category (not linked to category)"@,
        }
    }

    /// The reason in words.
    pub fn message(&self) -> (r: String)
        ensures
            r@ == self.message_text(),
    {
        match self {
            RejectionReason::InvalidCategory => "Invalid category in transaction".to_owned(),
            RejectionReason::UnexpectedSubcategory => "Sub-category set in transaction although the category has none".to_owned(),
            RejectionReason::MissingOrInvalidSubcategory => "Invalid sub-category (not linked to category)".to_owned(),
        }
    }
}

} // verus!
