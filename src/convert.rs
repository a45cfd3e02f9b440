//! Directed exchange rates between currencies.
use vstd::prelude::*;
use crate::value::Currency;

verus! {

/// One registered rate: an amount in `source` times `factor` is the amount in
/// `target`. The factor is the bit pattern of a binary64 number.
#[derive(Clone, Copy, Debug, PartialEq, Eq, Structural)]
pub struct Rate {
    pub source: Currency,
    pub target: Currency,
    pub factor: u64,
}

/// How to bring an amount in one currency into another.
#[derive(Clone, Copy, Debug, PartialEq, Eq, Structural)]
pub enum Route {
    /// The currencies are the same: the amount is taken as it is.
    Same,
    /// Multiply the amount by this factor (binary64 bits).
    Scale { factor: u64 },
}

/// A registry of directed exchange rates. Only directly registered pairs
/// convert; a later registration of a pair replaces the earlier one.
pub struct ConversionTable {
    rates: Vec<Rate>,
}

/// The factor registered last for the pair `source`, `target` among `rates`.
pub open spec fn rate_in(rates: Seq<Rate>, source: Currency, target: Currency) -> Option<u64>
    decreases rates.len(),
{
    if rates.len() == 0 {
        None
    } else if rates.last().source == source && rates.last().target == target {
        Some(rates.last().factor)
    } else {
        rate_in(rates.drop_last(), source, target)
    }
}

impl ConversionTable {
    /// The factor that converts from `source` to `target`, if one is registered.
    pub closed spec fn rate_of(&self, source: Currency, target: Currency) -> Option<u64> {
        rate_in(self.rates@, source, target)
    }

    /// A table with no rates.
    pub fn new() -> (r: ConversionTable)
        ensures
            forall|s: Currency, t: Currency| r.rate_of(s, t) is None,
    {
        ConversionTable { rates: Vec::new() }
    }

    /// Registers `factor` from `source` to `target` and `inverse` (its
    /// reciprocal) from `target` to `source`, replacing earlier rates of both
    /// pairs.
    pub fn add_conversion(&mut self, source: Currency, target: Currency, factor: u64, inverse: u64)
        ensures
            final(self).rate_of(target, source) == Some(inverse),
            source != target ==> final(self).rate_of(source, target) == Some(factor),
            forall|s: Currency, t: Currency|
                !(s == source && t == target) && !(s == target && t == source)
                    ==> #[trigger] final(self).rate_of(s, t) == old(self).rate_of(s, t),
    {
        self.rates.push(Rate { source, target, factor });
        self.rates.push(Rate { source: target, target: source, factor: inverse });
        proof {
            let once = old(self).rates@.push(Rate { source, target, factor });
            assert(self.rates@.drop_last() == once);
            assert(once.drop_last() == old(self).rates@);
            if source != target {
                assert(rate_in(self.rates@, source, target) == rate_in(once, source, target));
            }
            assert forall|s: Currency, t: Currency|
                !(s == source && t == target) && !(s == target && t == source)
                    implies #[trigger] rate_in(self.rates@, s, t) == rate_in(old(self).rates@, s, t) by {
                assert(rate_in(self.rates@, s, t) == rate_in(once, s, t));
            }
        }
    }

    /// The factor registered from `source` to `target`.
    pub fn rate(&self, source: Currency, target: Currency) -> (r: Option<u64>)
        ensures
            r == self.rate_of(source, target),
    {
        let mut i: usize = self.rates.len();
        assert(self.rates@.subrange(0, i as int) == self.rates@);
        while i > 0
            invariant
                i <= self.rates@.len(),
                rate_in(self.rates@, source, target) == rate_in(self.rates@.subrange(0, i as int), source, target),
            decreases i,
        {
            let r = self.rates[i - 1];
            if r.source == source && r.target == target {
                return Some(r.factor);
            }
            assert(self.rates@.subrange(0, i as int).drop_last() == self.rates@.subrange(0, i - 1));
            i = i - 1;
        }
        None
    }

    /// How to add an amount in `from` to an amount in `to`: unchanged when the
    /// currencies agree, else by the registered rate; `None` when there is no
    /// direct rate.
    pub fn route(&self, from: Currency, to: Currency) -> (r: Option<Route>)
        ensures
            from == to ==> r == Some(Route::Same),
            from != to ==> r == (match self.rate_of(from, to) {
                Some(f) => Some(Route::Scale { factor: f }),
                None => None,
            }),
    {
        if from == to {
            Some(Route::Same)
        } else {
            match self.rate(from, to) {
                Some(f) => Some(Route::Scale { factor: f }),
                None => None,
            }
        }
    }
}

} // verus!
