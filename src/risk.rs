//! Risk overlays that reduce the value of what they wrap.
use vstd::prelude::*;
use crate::time::{Span, Timestamp};
use crate::value::Currency;
use crate::Assesible;

verus! {

/// A loss policy over a valuable entity. Percentages are binary64 bit patterns.
pub enum Risk<A> {
    /// The value is multiplied by `percent`: the fraction that is kept.
    CertainLossPercentage { asset: A, percent: u64 },
    /// From `starting` on, the value loses `percent` per `period`, compounded
    /// continuously.
    LosePercentOverTime { asset: A, percent: u64, period: Span, starting: Timestamp },
}

/// What a risk does to the inner value at one instant.
#[derive(Clone, Copy, Debug, PartialEq, Eq, Structural)]
pub enum Loss {
    /// The inner value is kept as it is.
    Unchanged,
    /// The inner value is multiplied by `factor`.
    Scale { factor: u64 },
    /// The inner value is multiplied by `(1 - percent)` raised to the span
    /// from `from` to `to` divided by `period`.
    Decay { percent: u64, from: Timestamp, to: Timestamp, period: Span },
}

/// The loss that a policy applies at `time`.
pub open spec fn loss_at<A>(risk: &Risk<A>, time: Timestamp) -> Loss {
    match risk {
        Risk::CertainLossPercentage { percent, .. } => Loss::Scale { factor: *percent },
        Risk::LosePercentOverTime { percent, period, starting, .. } => if starting.nanos > time.nanos {
            Loss::Unchanged
        } else {
            Loss::Decay { percent: *percent, from: *starting, to: time, period: *period }
        },
    }
}

impl<A> Risk<A> {
    /// The loss applied to the inner value at `time`. Before the starting date
    /// of a decay nothing is lost yet.
    pub fn loss(&self, time: Timestamp) -> (r: Loss)
        ensures
            r == loss_at(self, time),
    {
        match self {
            Risk::CertainLossPercentage { percent, .. } => Loss::Scale { factor: *percent },
            Risk::LosePercentOverTime { percent, period, starting, .. } => {
                if starting.nanos > time.nanos {
                    Loss::Unchanged
                } else {
                    Loss::Decay { percent: *percent, from: *starting, to: time, period: *period }
                }
            },
        }
    }

    /// A certain loss multiplies the inner value by the same fraction at every
    /// time, and by nothing else.
    pub proof fn lemma_certain_loss_scales(&self, time: Timestamp)
        requires
            self is CertainLossPercentage,
        ensures
            loss_at(self, time) == (Loss::Scale { factor: self->CertainLossPercentage_percent }),
    {
    }

    /// A decay leaves the inner value unchanged strictly before its starting
    /// date, and from that date on decays over the span since it.
    pub proof fn lemma_decay_gated(&self, time: Timestamp)
        requires
            self is LosePercentOverTime,
        ensures
            time.nanos < self->LosePercentOverTime_starting.nanos ==> loss_at(self, time) == Loss::Unchanged,
            time.nanos >= self->LosePercentOverTime_starting.nanos ==> loss_at(self, time) == (Loss::Decay {
                percent: self->LosePercentOverTime_percent,
                from: self->LosePercentOverTime_starting,
                to: time,
                period: self->LosePercentOverTime_period,
            }),
    {
    }

    /// The entity that the risk wraps.
    pub fn asset(&self) -> (r: &A)
        ensures
            r == (match self {
                Risk::CertainLossPercentage { asset, .. } => asset,
                Risk::LosePercentOverTime { asset, .. } => asset,
            }),
    {
        match self {
            Risk::CertainLossPercentage { asset, .. } => asset,
            Risk::LosePercentOverTime { asset, .. } => asset,
        }
    }
}

impl<A: Assesible> Assesible for Risk<A> {
    /// The currency of the wrapped entity, under either policy.
    open spec fn has_currency(&self, c: Currency) -> bool {
        match self {
            Risk::CertainLossPercentage { asset, .. } => asset.has_currency(c),
            Risk::LosePercentOverTime { asset, .. } => asset.has_currency(c),
        }
    }

    fn currency(&self) -> (r: Currency) {
        self.asset().currency()
    }
}

} // verus!
