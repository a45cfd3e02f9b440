//! Time-aware valuation of financial instruments.
//!
//! The library keeps the recorded state of instruments (book values, interest
//! schedules, timestamped adjustments, containment, risk overlays and exchange
//! rates) and decides, for a requested instant, exactly which compounding spans
//! and which adjustments make up an instrument's value. Monetary amounts are
//! carried as IEEE-754 binary64 bit patterns; the floating-point arithmetic that
//! turns a plan into a number is done by the caller.
use vstd::prelude::*;

pub mod time;
pub mod value;
pub mod convert;
pub mod item;
pub mod risk;
pub mod book;

verus! {

/// Something whose value can be assessed: it reports the currency in which
/// that value is given.
pub trait Assesible {
    /// Whether `c` is a currency that the entity may report as its own.
    spec fn has_currency(&self, c: value::Currency) -> bool;

    /// The primary currency of the entity.
    fn currency(&self) -> (r: value::Currency)
        ensures
            self.has_currency(r),
    ;
}

impl Assesible for item::Item {
    /// The currency of the book value.
    open spec fn has_currency(&self, c: value::Currency) -> bool {
        c == self.book_value_of().currency
    }

    fn currency(&self) -> (r: value::Currency) {
        item::Item::currency(self)
    }
}

impl Assesible for book::Book {
    /// The null currency when the portfolio is empty, else the currency of
    /// one of its entries.
    open spec fn has_currency(&self, c: value::Currency) -> bool {
        &&& (self.entries_of().dom().len() == 0 && self.entries_of().dom().finite()
            ==> c == value::Currency::null_spec())
        &&& ((exists|k: book::ItemKey| self.entries_of().contains_key(k)) ==> exists|k: book::ItemKey|
            #[trigger] self.entries_of().contains_key(k) && c == self.entries_of()[k].book_value_of().currency)
    }

    fn currency(&self) -> (r: value::Currency) {
        book::Book::currency(self)
    }
}

/// The outcome of an assessment: the value itself and the cash set aside.
#[derive(Clone, Copy, Debug, PartialEq, Eq, Structural)]
pub struct AssessmentResult {
    pub value: value::Value,
    pub cash: value::Value,
}

impl AssessmentResult {
    pub fn new(value: value::Value, cash: value::Value) -> (r: AssessmentResult)
        ensures
            r.value == value,
            r.cash == cash,
    {
        AssessmentResult { value, cash }
    }
}

} // verus!
