//! Instruments: a book value, an optional compounding schedule and a
//! chronological list of adjustments.
use vstd::prelude::*;
use crate::book::ItemKey;
use crate::time::{Span, Timestamp};
use crate::value::{Currency, Value};

verus! {

/// Compounding at `rate` per `period`: over an elapsed span the growth factor
/// is `(1 + rate)` raised to the elapsed span divided by the period. The rate
/// is the bit pattern of a binary64 number (0.20 for twenty percent).
#[derive(Clone, Copy, Debug, PartialEq, Eq, Structural)]
pub struct Interest {
    pub rate: u64,
    pub period: Span,
}

impl Interest {
    pub fn new(rate: u64, period: Span) -> (r: Interest)
        ensures
            r.rate == rate,
            r.period == period,
    {
        Interest { rate, period }
    }
}

/// A timestamped adjustment of an instrument's value: a payment or a draw.
#[derive(Clone, Copy, Debug, PartialEq, Eq, Structural)]
pub struct Delta {
    pub time: Timestamp,
    pub value: Value,
}

/// Disbursements that an instrument may make. They are recorded only: no
/// assessment reads them.
pub enum Payout {
    OneTime { amount: Value, time: Timestamp },
    InterestOneTime { principal: Value, time: Timestamp, interest: Interest },
    FixedRecurring { amount: Value, start: Timestamp, frequency: Span },
    InterestRecurring { principal: Value, start: Timestamp, frequency: Span, interest: Interest },
}

/// One step of an assessment, applied to a running value that starts at the
/// book value.
#[derive(Clone, Copy, Debug, PartialEq, Eq, Structural)]
pub enum Step {
    /// Compound the running value with the instrument's interest over the
    /// span from `from` to `to` (negative when `to` comes first).
    Compound { from: Timestamp, to: Timestamp },
    /// Add the value of the delta at this position.
    Credit { index: usize },
    /// Add the compensated sum of the values of all deltas.
    CreditAll,
}

/// A single financial position.
pub struct Item {
    book_value: Value,
    interest: Option<Interest>,
    inception: Timestamp,
    children: Vec<ItemKey>,
    deltas: Vec<Delta>,
}

/// Whether the deltas are in ascending order of time.
pub open spec fn chronological(ds: Seq<Delta>) -> bool {
    forall|i: int, j: int| 0 <= i <= j < ds.len() ==> ds[i].time.nanos <= ds[j].time.nanos
}

/// How many deltas, from the first on, are dated at or before `t`.
pub open spec fn settled(ds: Seq<Delta>, t: int) -> nat
    decreases ds.len(),
{
    if ds.len() == 0 || ds[0].time.nanos > t {
        0
    } else {
        1 + settled(ds.drop_first(), t)
    }
}

/// The instant from which the running value compounds after `i` deltas.
pub open spec fn anchor(inception: Timestamp, ds: Seq<Delta>, i: int) -> Timestamp {
    if i <= 0 {
        inception
    } else {
        ds[i - 1].time
    }
}

/// The step at position `j` while deltas are still being applied: compound up
/// to a delta's date, then add it.
pub open spec fn replay_step(inception: Timestamp, ds: Seq<Delta>, j: int) -> Step {
    if j % 2 == 0 {
        Step::Compound { from: anchor(inception, ds, j / 2), to: ds[j / 2].time }
    } else {
        Step::Credit { index: (j / 2) as usize }
    }
}

/// Compounding interleaved with the deltas dated at or before `time`, then
/// compounding from the last of them (or from inception) up to `time`.
pub open spec fn compounding_steps(inception: Timestamp, ds: Seq<Delta>, time: Timestamp) -> Seq<Step> {
    let k = settled(ds, time.nanos as int);
    Seq::new(2 * k, |j: int| replay_step(inception, ds, j)).push(
        Step::Compound { from: anchor(inception, ds, k as int), to: time },
    )
}

/// The steps that value an instrument at `time`.
pub open spec fn assessment_steps(
    interest: Option<Interest>,
    inception: Timestamp,
    ds: Seq<Delta>,
    time: Timestamp,
) -> Seq<Step> {
    match interest {
        Some(_) => compounding_steps(inception, ds, time),
        None => if ds.len() == 0 {
            Seq::empty()
        } else {
            seq![Step::CreditAll]
        },
    }
}

proof fn lemma_settled_prefix(ds: Seq<Delta>, t: int, i: int)
    requires
        0 <= i <= ds.len(),
        forall|j: int| 0 <= j < i ==> ds[j].time.nanos <= t,
    ensures
        settled(ds, t) >= i,
        i == ds.len() || ds[i].time.nanos > t ==> settled(ds, t) == i,
        settled(ds, t) <= ds.len(),
    decreases i,
{
    if i > 0 {
        lemma_settled_prefix(ds.drop_first(), t, i - 1);
    } else {
        lemma_settled_bound(ds, t);
    }
}

proof fn lemma_settled_bound(ds: Seq<Delta>, t: int)
    ensures
        settled(ds, t) <= ds.len(),
        forall|j: int| 0 <= j < settled(ds, t) ==> ds[j].time.nanos <= t,
    decreases ds.len(),
{
    if ds.len() > 0 && ds[0].time.nanos <= t {
        lemma_settled_bound(ds.drop_first(), t);
        assert forall|j: int| 0 <= j < settled(ds, t) implies ds[j].time.nanos <= t by {
            if j > 0 {
                assert(ds[j] == ds.drop_first()[j - 1]);
            }
        }
    }
}

/// Whether no two deltas share a date.
pub open spec fn distinct_times(ds: Seq<Delta>) -> bool {
    forall|i: int, j: int| 0 <= i < ds.len() && 0 <= j < ds.len() && i != j ==> ds[i].time.nanos != ds[j].time.nanos
}

/// Two lists in order of time, with no date twice, that hold the same deltas
/// are the same list.
pub proof fn lemma_chronological_unique(a: Seq<Delta>, b: Seq<Delta>)
    requires
        chronological(a),
        chronological(b),
        distinct_times(a),
        distinct_times(b),
        a.to_multiset() == b.to_multiset(),
    ensures
        a == b,
    decreases a.len(),
{
    broadcast use vstd::seq_lib::group_to_multiset_ensures;
    assert(a.len() == a.to_multiset().len());
    assert(b.len() == b.to_multiset().len());
    if a.len() == 0 {
        assert(a =~= b);
    } else {
        let x = a[0];
        let y = b[0];
        assert(b.to_multiset().count(y) > 0);
        assert(a.contains(y));
        let i = choose|i: int| 0 <= i < a.len() && a[i] == y;
        assert(a.to_multiset().count(x) > 0);
        assert(b.contains(x));
        let j = choose|j: int| 0 <= j < b.len() && b[j] == x;
        assert(x.time.nanos <= y.time.nanos);
        assert(y.time.nanos <= x.time.nanos);
        assert(i == 0);
        assert(x == y);
        assert(a.remove(0) == a.drop_first());
        assert(b.remove(0) == b.drop_first());
        assert(a.remove(0).to_multiset() == a.to_multiset().remove(a[0]));
        assert(b.remove(0).to_multiset() == b.to_multiset().remove(b[0]));
        let a1 = a.drop_first();
        let b1 = b.drop_first();
        assert forall|p: int, q: int| 0 <= p <= q < a1.len() implies a1[p].time.nanos <= a1[q].time.nanos by {
            assert(a1[p] == a[p + 1] && a1[q] == a[q + 1]);
        }
        assert forall|p: int, q: int| 0 <= p <= q < b1.len() implies b1[p].time.nanos <= b1[q].time.nanos by {
            assert(b1[p] == b[p + 1] && b1[q] == b[q + 1]);
        }
        assert forall|p: int, q: int| 0 <= p < a1.len() && 0 <= q < a1.len() && p != q implies a1[p].time.nanos != a1[q].time.nanos by {
            assert(a1[p] == a[p + 1] && a1[q] == a[q + 1]);
        }
        assert forall|p: int, q: int| 0 <= p < b1.len() && 0 <= q < b1.len() && p != q implies b1[p].time.nanos != b1[q].time.nanos by {
            assert(b1[p] == b[p + 1] && b1[q] == b[q + 1]);
        }
        lemma_chronological_unique(a1, b1);
        assert forall|p: int| 0 <= p < a.len() implies a[p] == b[p] by {
            if p > 0 {
                assert(a[p] == a1[p - 1] && b[p] == b1[p - 1]);
            }
        }
        assert(a =~= b);
    }
}

impl Item {
    pub closed spec fn book_value_of(&self) -> Value {
        self.book_value
    }

    pub closed spec fn interest_of(&self) -> Option<Interest> {
        self.interest
    }

    pub closed spec fn inception_of(&self) -> Timestamp {
        self.inception
    }

    pub closed spec fn children_of(&self) -> Seq<ItemKey> {
        self.children@
    }

    pub closed spec fn deltas_of(&self) -> Seq<Delta> {
        self.deltas@
    }

    /// The deltas are kept in ascending order of time.
    pub open spec fn wf(&self) -> bool {
        chronological(self.deltas_of())
    }

    /// An instrument whose value stays `value`.
    pub fn fixed(value: Value, inception: Timestamp) -> (r: Item)
        ensures
            r.wf(),
            r.book_value_of() == value,
            r.interest_of() is None,
            r.inception_of() == inception,
            r.children_of().len() == 0,
            r.deltas_of().len() == 0,
    {
        Item { book_value: value, interest: None, inception, children: Vec::new(), deltas: Vec::new() }
    }

    /// An instrument of `value` at `inception` that compounds at `rate` per
    /// `period`.
    pub fn basic_debt(value: Value, rate: u64, period: Span, inception: Timestamp) -> (r: Item)
        ensures
            r.wf(),
            r.book_value_of() == value,
            r.interest_of() == Some(Interest { rate, period }),
            r.inception_of() == inception,
            r.children_of().len() == 0,
            r.deltas_of().len() == 0,
    {
        Item {
            book_value: value,
            interest: Some(Interest { rate, period }),
            inception,
            children: Vec::new(),
            deltas: Vec::new(),
        }
    }

    /// Records an adjustment of `value` at `time`. It goes after every delta
    /// dated at or before `time`, so the list stays in order of time.
    pub fn add_delta(&mut self, time: Timestamp, value: Value)
        requires
            old(self).wf(),
        ensures
            final(self).wf(),
            final(self).deltas_of() == old(self).deltas_of().insert(
                settled(old(self).deltas_of(), time.nanos as int) as int,
                Delta { time, value },
            ),
            final(self).book_value_of() == old(self).book_value_of(),
            final(self).interest_of() == old(self).interest_of(),
            final(self).inception_of() == old(self).inception_of(),
            final(self).children_of() == old(self).children_of(),
            final(self).deltas_of().to_multiset() == old(self).deltas_of().to_multiset().insert(Delta { time, value }),
    {
        let ghost ds = self.deltas@;
        let ghost t = time.nanos as int;
        let mut i: usize = 0;
        while i < self.deltas.len() && self.deltas[i].time.nanos <= time.nanos
            invariant
                self.deltas@ == ds,
                t == time.nanos,
                i <= ds.len(),
                forall|j: int| 0 <= j < i ==> ds[j].time.nanos <= t,
            decreases ds.len() - i,
        {
            i = i + 1;
        }
        proof {
            lemma_settled_prefix(ds, t, i as int);
        }
        self.deltas.insert(i, Delta { time, value });
        proof {
            vstd::seq_lib::to_multiset_insert(ds, i as int, Delta { time, value });
            let nds = self.deltas@;
            assert forall|a: int, b: int| 0 <= a <= b < nds.len() implies nds[a].time.nanos <= nds[b].time.nanos by {
                if a < i && b > i {
                    assert(ds[a].time.nanos <= t);
                    assert(nds[b] == ds[b - 1]);
                    if i < ds.len() {
                        assert(ds[i as int].time.nanos > t);
                    }
                } else if a == i && b > i {
                    assert(ds[i as int].time.nanos > t);
                    assert(nds[b] == ds[b - 1]);
                } else if a < i && b == i {
                } else if a > i {
                    assert(nds[a] == ds[a - 1]);
                    assert(nds[b] == ds[b - 1]);
                }
            }
        }
    }

    /// Records `key` as a child of this instrument.
    pub fn add_child(&mut self, key: ItemKey)
        ensures
            final(self).children_of() == old(self).children_of().push(key),
            final(self).deltas_of() == old(self).deltas_of(),
            final(self).book_value_of() == old(self).book_value_of(),
            final(self).interest_of() == old(self).interest_of(),
            final(self).inception_of() == old(self).inception_of(),
    {
        self.children.push(key);
    }

    /// The steps that value this instrument at `time`, starting from its book
    /// value. Without interest every delta is added, whatever its date; with
    /// interest, the deltas dated after `time` are left out.
    pub fn plan(&self, time: Timestamp) -> (r: Vec<Step>)
        requires
            self.wf(),
        ensures
            r@ == assessment_steps(self.interest_of(), self.inception_of(), self.deltas_of(), time),
    {
        let ghost ds = self.deltas@;
        if self.interest.is_none() {
            if self.deltas.len() == 0 {
                return Vec::new();
            }
            let mut r: Vec<Step> = Vec::new();
            r.push(Step::CreditAll);
            assert(r@ == seq![Step::CreditAll]);
            return r;
        }
        let mut steps: Vec<Step> = Vec::new();
        let mut from = self.inception;
        let mut i: usize = 0;
        while i < self.deltas.len() && self.deltas[i].time.nanos <= time.nanos
            invariant
                self.deltas@ == ds,
                i <= ds.len(),
                forall|j: int| 0 <= j < i ==> ds[j].time.nanos <= time.nanos,
                from == anchor(self.inception, ds, i as int),
                steps@ == Seq::new(2 * i as nat, |j: int| replay_step(self.inception, ds, j)),
            decreases ds.len() - i,
        {
            let d = self.deltas[i];
            steps.push(Step::Compound { from, to: d.time });
            steps.push(Step::Credit { index: i });
            from = d.time;
            i = i + 1;
            assert(steps@ =~= Seq::new(2 * i as nat, |j: int| replay_step(self.inception, ds, j)));
        }
        proof {
            lemma_settled_prefix(ds, time.nanos as int, i as int);
        }
        steps.push(Step::Compound { from, to: time });
        steps
    }

    /// Without interest the steps do not depend on the requested time: every
    /// delta counts, also those dated after it.
    pub proof fn lemma_additive_without_interest(&self, t1: Timestamp, t2: Timestamp)
        requires
            self.interest_of() is None,
        ensures
            assessment_steps(self.interest_of(), self.inception_of(), self.deltas_of(), t1)
                == assessment_steps(self.interest_of(), self.inception_of(), self.deltas_of(), t2),
            self.deltas_of().len() > 0 ==> assessment_steps(self.interest_of(), self.inception_of(), self.deltas_of(), t1)
                == seq![Step::CreditAll],
            self.deltas_of().len() == 0 ==> assessment_steps(self.interest_of(), self.inception_of(), self.deltas_of(), t1)
                == Seq::<Step>::empty(),
    {
    }

    /// With interest and no deltas, the value at `t` is the book value
    /// compounded once, from inception to `t`.
    pub proof fn lemma_compounds_from_inception(&self, t: Timestamp)
        requires
            self.interest_of() is Some,
            self.deltas_of().len() == 0,
        ensures
            assessment_steps(self.interest_of(), self.inception_of(), self.deltas_of(), t)
                == seq![Step::Compound { from: self.inception_of(), to: t }],
    {
        assert(settled(self.deltas_of(), t.nanos as int) == 0);
        assert(compounding_steps(self.inception_of(), self.deltas_of(), t) =~= seq![Step::Compound { from: self.inception_of(), to: t }]);
    }

    /// Instruments that differ only in the order in which the same deltas,
    /// no two on one date, were added are assessed by the same steps at every
    /// time.
    pub proof fn lemma_delta_order_irrelevant(&self, other: &Item, t: Timestamp)
        requires
            self.wf(),
            other.wf(),
            distinct_times(self.deltas_of()),
            distinct_times(other.deltas_of()),
            self.deltas_of().to_multiset() == other.deltas_of().to_multiset(),
            self.interest_of() == other.interest_of(),
            self.inception_of() == other.inception_of(),
        ensures
            self.deltas_of() == other.deltas_of(),
            assessment_steps(self.interest_of(), self.inception_of(), self.deltas_of(), t)
                == assessment_steps(other.interest_of(), other.inception_of(), other.deltas_of(), t),
    {
        lemma_chronological_unique(self.deltas_of(), other.deltas_of());
    }

    pub fn book_value(&self) -> (r: Value)
        ensures
            r == self.book_value_of(),
    {
        self.book_value
    }

    pub fn interest(&self) -> (r: Option<Interest>)
        ensures
            r == self.interest_of(),
    {
        self.interest
    }

    pub fn inception(&self) -> (r: Timestamp)
        ensures
            r == self.inception_of(),
    {
        self.inception
    }

    pub fn deltas(&self) -> (r: &Vec<Delta>)
        ensures
            r@ == self.deltas_of(),
    {
        &self.deltas
    }

    pub fn children(&self) -> (r: &Vec<ItemKey>)
        ensures
            r@ == self.children_of(),
    {
        &self.children
    }

    /// The instrument's primary currency: that of its book value.
    pub fn currency(&self) -> (r: Currency)
        ensures
            r == self.book_value_of().currency,
    {
        self.book_value.currency
    }
}

} // verus!
