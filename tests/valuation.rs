use chrono::Utc;
use ledger_value::book::Book;
use ledger_value::convert::{ConversionTable, Route};
use ledger_value::item::{Interest, Item, Step};
use ledger_value::risk::{Loss, Risk};
use ledger_value::time::{Span, Timestamp};
use ledger_value::value::{format_amount, Currency, Value};
use ledger_value::Assesible;

fn cad() -> Currency {
    Currency::from_code("CAD").unwrap()
}

fn cop() -> Currency {
    Currency::from_code("COP").unwrap()
}

fn money(cur: Currency, amount: f64) -> Value {
    Value::new(cur, amount.to_bits())
}

fn amount(v: &Value) -> f64 {
    f64::from_bits(v.amount())
}

fn at(y: i32, mo: u32, d: u32, h: u32, mi: u32, s: u32) -> Timestamp {
    Timestamp::from_utc(y, mo, d, h, mi, s).unwrap()
}

fn now() -> Timestamp {
    Timestamp::from_nanos(Utc::now().timestamp_nanos_opt().unwrap())
}

fn fast2sum(a: f64, b: f64) -> (f64, f64) {
    let s = a + b;
    let z = s - a;
    (s, b - z)
}

fn kahan(values: &[Value]) -> Value {
    let mut sum = 0.0;
    let mut c = 0.0;
    let mut currencies = Vec::new();
    for v in values {
        currencies.push(v.currency());
        let y = amount(v) + c;
        let (s, t) = fast2sum(sum, y);
        sum = s;
        c = t;
    }
    Value::new(Currency::of_sum(&currencies), sum.to_bits())
}

fn add(table: &ConversionTable, lhs: &Value, rhs: &Value) -> Option<Value> {
    match table.route(rhs.currency(), lhs.currency())? {
        Route::Same => Some(money(lhs.currency(), amount(lhs) + amount(rhs))),
        Route::Scale { factor } => Some(money(lhs.currency(), amount(lhs) + amount(rhs) * f64::from_bits(factor))),
    }
}

fn compound(interest: &Interest, from: Timestamp, to: Timestamp, v: &Value) -> Value {
    let periods = (to.nanos() - from.nanos()) as f64 / interest.period.nanos() as f64;
    money(v.currency(), amount(v) * (1.0 + f64::from_bits(interest.rate)).powf(periods))
}

fn assess_in(table: &ConversionTable, item: &Item, time: Timestamp) -> Option<Value> {
    let mut running = item.book_value();
    for step in item.plan(time) {
        running = match step {
            Step::Compound { from, to } => compound(&item.interest().unwrap(), from, to, &running),
            Step::Credit { index } => add(table, &running, &item.deltas()[index].value)?,
            Step::CreditAll => {
                let values: Vec<Value> = item.deltas().iter().map(|d| d.value).collect();
                add(table, &running, &kahan(&values))?
            }
        };
    }
    Some(running)
}

fn assess(item: &Item, time: Timestamp) -> Value {
    assess_in(&ConversionTable::new(), item, time).unwrap()
}

fn assess_risk(risk: &Risk<Item>, time: Timestamp) -> Value {
    let inner = assess(risk.asset(), time);
    let factor = match risk.loss(time) {
        Loss::Unchanged => 1.0,
        Loss::Scale { factor } => f64::from_bits(factor),
        Loss::Decay { percent, from, to, period } => {
            let periods = (to.nanos() - from.nanos()) as f64 / period.nanos() as f64;
            (1.0 - f64::from_bits(percent)).powf(periods)
        }
    };
    money(inner.currency(), amount(&inner) * factor)
}

fn assess_book(book: &Book, time: Timestamp) -> Value {
    let values: Vec<Value> = book.keys().iter().map(|k| assess(book.get(*k).unwrap(), time)).collect();
    kahan(&values)
}

fn make_credit_card(principal: usize, interest: f64) -> Item {
    Item::basic_debt(money(cad(), -1.0 * principal as f64), interest.to_bits(), Span::days(365), at(2008, 1, 1, 1, 1, 1))
}

#[test]
fn test_basic_debt() {
    let credit_card = make_credit_card(15000, 0.20);
    let current_debt = assess(&credit_card, at(2025, 1, 28, 11, 7, 0));
    assert_eq!(current_debt.non_decimal(), -338224);
}

#[test]
fn test_basic_book() {
    let credit_card = make_credit_card(10000, 0.20);
    let credit_card_2 = make_credit_card(100, 0.02);
    let house = Item::basic_debt(money(cad(), 150000.0), 0.04f64.to_bits(), Span::days(365), at(2000, 1, 1, 1, 1, 1));

    let mut book = Book::default();
    book.add(credit_card);
    book.add(credit_card_2);
    book.add(house);

    assert_eq!(assess_book(&book, at(2025, 1, 28, 11, 7, 0)).non_decimal(), 175733);
}

#[test]
fn partially_paid_credit_card() {
    let mut credit = make_credit_card(1000, 0.20);
    credit.add_delta(at(2008, 2, 1, 1, 1, 1), money(cad(), 1000.0));
    let value = assess(&credit, at(2015, 1, 1, 0, 0, 0));
    assert_eq!(value.non_decimal(), -55);
}

#[test]
fn test_item_fixed() {}

#[test]
fn test_always_fail() {
    let main = Item::basic_debt(money(cad(), 10.0), 0.20f64.to_bits(), Span::days(30), now());
    assert_eq!(assess(&main, now()).non_decimal(), 10);

    let risky = Risk::CertainLossPercentage { asset: main, percent: 0.5f64.to_bits() };
    assert_eq!(assess_risk(&risky, now()).non_decimal(), 5);
}

#[test]
fn test_no_interest_before_start() {
    let interest_start = at(2002, 1, 1, 0, 0, 0);
    let family_car = Risk::LosePercentOverTime {
        asset: Item::fixed(money(cad(), 50_000.00), interest_start),
        percent: 0.10f64.to_bits(),
        period: Span::days(365),
        starting: interest_start,
    };
    assert_eq!(assess_risk(&family_car, at(2000, 1, 1, 0, 0, 0)).non_decimal(), 50_000);
}

#[test]
fn test_lose_over_time_percent() {
    let purchase_date = at(2000, 1, 1, 0, 0, 0);
    let inspect_date = at(2004, 1, 1, 0, 0, 0);
    let family_car = Risk::LosePercentOverTime {
        asset: Item::fixed(money(cad(), 50_000.00), purchase_date),
        percent: 0.10f64.to_bits(),
        period: Span::days(365),
        starting: purchase_date,
    };
    assert_eq!(assess_risk(&family_car, inspect_date).non_decimal(), 32795);
}

#[test]
fn test_accurate_math() {
    let values = vec![money(cad(), 3939392.022123), money(cad(), 22.023322123), money(cad(), 32773.022123)];
    assert!((amount(&kahan(&values)) - 3972187.07).abs() < 0.01)
}

#[test]
fn test_conversion() {
    let mut table = ConversionTable::new();
    table.add_conversion(cad(), cop(), 2911.98f64.to_bits(), (1.0 / 2911.98f64).to_bits());
    let bob = money(cad(), 28.0);
    let alice = money(cop(), 600000.0);
    let total = add(&table, &bob, &alice).unwrap();
    assert!((amount(&total) - (206.0 + 28.0)).abs() < 0.1)
}

#[test]
fn compounding_at_whole_periods() {
    let t0 = at(2010, 3, 1, 0, 0, 0);
    let item = Item::basic_debt(money(cad(), 1000.0), 0.10f64.to_bits(), Span::days(365), t0);
    for k in 0..6i64 {
        let t = Timestamp::from_nanos(t0.nanos() + k * Span::days(365).nanos());
        assert_eq!(item.plan(t), vec![Step::Compound { from: t0, to: t }]);
        let expected = 1000.0 * 1.1f64.powi(k as i32);
        assert!((amount(&assess(&item, t)) - expected).abs() < 1e-6);
    }
}

#[test]
fn no_interest_counts_every_delta() {
    let mut item = Item::fixed(money(cad(), 100.0), at(2000, 1, 1, 0, 0, 0));
    assert_eq!(assess(&item, at(2001, 1, 1, 0, 0, 0)).non_decimal(), 100);
    item.add_delta(at(2030, 1, 1, 0, 0, 0), money(cad(), 7.0));
    item.add_delta(at(2010, 1, 1, 0, 0, 0), money(cad(), 5.0));
    assert_eq!(item.plan(at(2005, 1, 1, 0, 0, 0)), vec![Step::CreditAll]);
    assert_eq!(amount(&assess(&item, at(2005, 1, 1, 0, 0, 0))), 112.0);
    assert_eq!(amount(&assess(&item, at(2040, 1, 1, 0, 0, 0))), 112.0);
}

#[test]
fn delta_insertion_order_does_not_matter() {
    let start = at(2008, 1, 1, 0, 0, 0);
    let deltas = [
        (at(2009, 5, 1, 0, 0, 0), 300.0),
        (at(2008, 6, 1, 0, 0, 0), -50.0),
        (at(2012, 1, 1, 0, 0, 0), 125.5),
    ];
    let mut a = Item::basic_debt(money(cad(), -2000.0), 0.07f64.to_bits(), Span::days(365), start);
    let mut b = Item::basic_debt(money(cad(), -2000.0), 0.07f64.to_bits(), Span::days(365), start);
    for (t, v) in deltas.iter() {
        a.add_delta(*t, money(cad(), *v));
    }
    for (t, v) in deltas.iter().rev() {
        b.add_delta(*t, money(cad(), *v));
    }
    assert_eq!(a.deltas(), b.deltas());
    for year in [2007, 2008, 2009, 2010, 2015] {
        let t = at(year, 7, 1, 0, 0, 0);
        assert_eq!(assess(&a, t).amount(), assess(&b, t).amount());
    }
}

#[test]
fn compensated_sum_beats_naive_sum() {
    let mut values = Vec::new();
    for _ in 0..5000 {
        values.push(money(cad(), 1e8));
        values.push(money(cad(), 1e-8));
    }
    assert_eq!(values.len(), 10000);
    let exact = 500_000_000_000.000_05f64;
    let naive: f64 = values.iter().map(amount).fold(0.0, |a, b| a + b);
    let stable = amount(&kahan(&values));
    assert!((stable - exact).abs() < 2e-5);
    assert!((naive - exact).abs() > (stable - exact).abs());
}

#[test]
fn certain_loss_keeps_exactly_half() {
    let item = Item::basic_debt(money(cad(), 1234.56), 0.05f64.to_bits(), Span::days(90), at(2001, 1, 1, 0, 0, 0));
    let t = at(2020, 6, 15, 12, 0, 0);
    let whole = amount(&assess(&item, t));
    let risky = Risk::CertainLossPercentage { asset: item, percent: 0.5f64.to_bits() };
    assert_eq!(risky.loss(t), Loss::Scale { factor: 0.5f64.to_bits() });
    assert_eq!(amount(&assess_risk(&risky, t)), whole / 2.0);
    assert_eq!(risky.currency(), cad());
}

#[test]
fn decay_begins_at_start_date() {
    let start = at(2010, 1, 1, 0, 0, 0);
    let car = Risk::LosePercentOverTime {
        asset: Item::fixed(money(cad(), 20_000.0), at(2005, 1, 1, 0, 0, 0)),
        percent: 0.15f64.to_bits(),
        period: Span::days(365),
        starting: start,
    };
    let before = at(2009, 12, 31, 23, 59, 59);
    assert_eq!(car.loss(before), Loss::Unchanged);
    assert_eq!(amount(&assess_risk(&car, before)), 20_000.0);
    assert_eq!(amount(&assess_risk(&car, start)), 20_000.0);
    let mut last = f64::INFINITY;
    for year in [2010, 2011, 2012, 2015, 2030] {
        let t = at(year, 6, 1, 0, 0, 0);
        assert!(matches!(car.loss(t), Loss::Decay { .. }));
        let v = amount(&assess_risk(&car, t));
        assert!(v < last);
        last = v;
    }
}

#[test]
fn truncation_toward_zero() {
    assert_eq!(money(cad(), -338224.91).non_decimal(), -338224);
    assert_eq!(money(cad(), 2.999).non_decimal(), 2);
    assert_eq!(money(cad(), -0.9).non_decimal(), 0);
    assert_eq!(money(cad(), 0.5).non_decimal(), 0);
    assert_eq!(money(cad(), 4503599627370497.0).non_decimal(), 4503599627370497);
    assert_eq!(money(cad(), -(2f64.powi(100))).non_decimal(), -(1i128 << 100));
    assert_eq!(money(cad(), 1e40).non_decimal(), i128::MAX);
    assert_eq!(money(cad(), -1e40).non_decimal(), i128::MIN);
    assert_eq!(money(cad(), f64::INFINITY).non_decimal(), i128::MAX);
    assert_eq!(money(cad(), f64::NEG_INFINITY).non_decimal(), i128::MIN);
    assert_eq!(money(cad(), f64::NAN).non_decimal(), 0);
}

#[test]
fn negation_flips_sign() {
    let v = money(cad(), 5.25).negate();
    assert_eq!(amount(&v), -5.25);
    assert_eq!(v.currency(), cad());
    assert_eq!(money(cad(), 0.0).negate().amount(), (-0.0f64).to_bits());
    assert_eq!(Value::zero(cop()).amount(), 0);
}

#[test]
fn currency_codes() {
    assert_eq!(Currency::from_code("CA"), None);
    assert_eq!(Currency::from_code("CADX"), None);
    assert_ne!(cad(), cop());
    assert_eq!(Currency::null(), Currency::from_code("NAN").unwrap());
    assert_eq!(Currency::of_sum(&vec![]), cad());
    assert_eq!(Currency::of_sum(&vec![cad(), cop()]), cop());
}

#[test]
fn rates_overwrite_and_do_not_chain() {
    let usd = Currency::from_code("USD").unwrap();
    let mut table = ConversionTable::new();
    assert_eq!(table.rate(cad(), usd), None);
    table.add_conversion(cad(), usd, 2.0f64.to_bits(), 0.5f64.to_bits());
    table.add_conversion(cad(), usd, 4.0f64.to_bits(), 0.25f64.to_bits());
    assert_eq!(table.rate(cad(), usd), Some(4.0f64.to_bits()));
    assert_eq!(table.rate(usd, cad()), Some(0.25f64.to_bits()));
    table.add_conversion(usd, cop(), 4000.0f64.to_bits(), (1.0 / 4000.0f64).to_bits());
    assert_eq!(table.rate(cad(), cop()), None);
    assert_eq!(table.route(cad(), cop()), None);
    assert_eq!(table.route(cad(), cad()), Some(Route::Same));
    assert_eq!(table.route(usd, cad()), Some(Route::Scale { factor: 0.25f64.to_bits() }));
}

#[test]
fn steps_skip_later_deltas_and_keep_same_day() {
    let start = at(2008, 1, 1, 0, 0, 0);
    let mut item = Item::basic_debt(money(cad(), -1000.0), 0.2f64.to_bits(), Span::days(365), start);
    let d1 = at(2009, 1, 1, 0, 0, 0);
    let d2 = at(2010, 1, 1, 0, 0, 0);
    let d3 = at(2011, 1, 1, 0, 0, 0);
    item.add_delta(d3, money(cad(), 3.0));
    item.add_delta(d1, money(cad(), 1.0));
    item.add_delta(d2, money(cad(), 2.0));
    item.add_delta(d1, money(cad(), 4.0));
    let ds: Vec<(i64, f64)> = item.deltas().iter().map(|d| (d.time.nanos(), amount(&d.value))).collect();
    assert_eq!(ds, vec![(d1.nanos(), 1.0), (d1.nanos(), 4.0), (d2.nanos(), 2.0), (d3.nanos(), 3.0)]);
    assert_eq!(
        item.plan(d2),
        vec![
            Step::Compound { from: start, to: d1 },
            Step::Credit { index: 0 },
            Step::Compound { from: d1, to: d1 },
            Step::Credit { index: 1 },
            Step::Compound { from: d1, to: d2 },
            Step::Credit { index: 2 },
            Step::Compound { from: d2, to: d2 },
        ]
    );
    assert_eq!(item.plan(at(2000, 1, 1, 0, 0, 0)), vec![Step::Compound { from: start, to: at(2000, 1, 1, 0, 0, 0) }]);
}

#[test]
fn children_are_linked_and_counted() {
    let t0 = at(2000, 1, 1, 0, 0, 0);
    let mut book = Book::new();
    assert_eq!(book.currency(), Currency::null());
    let parent = book.add(Item::fixed(money(cad(), 100.0), t0));
    let child = book.add_child(Item::fixed(money(cad(), 40.0), t0), parent);
    assert_ne!(parent, child);
    assert_eq!(book.get(parent).unwrap().children(), &vec![child]);
    assert!(book.get(child).unwrap().children().is_empty());
    assert_eq!(book.keys().len(), 2);
    assert_eq!(book.currency(), cad());
    assert_eq!(amount(&assess_book(&book, t0)), 140.0);
}

#[test]
fn calendar_instants_and_spans() {
    assert_eq!(at(1970, 1, 1, 0, 0, 0).nanos(), 0);
    assert_eq!(at(1970, 1, 2, 0, 0, 1).nanos(), 86_401_000_000_000);
    assert_eq!(Timestamp::from_utc(2021, 2, 30, 0, 0, 0), None);
    assert_eq!(Span::days(365).nanos(), 365 * 86_400_000_000_000);
    assert_eq!(Span::days(-2).nanos(), -172_800_000_000_000);
    assert!(at(2001, 1, 1, 0, 0, 0).is_after(&at(2000, 1, 1, 0, 0, 0)));
    let i = Interest::new(0.2f64.to_bits(), Span::days(30));
    assert_eq!(i.period, Span::days(30));
}

#[test]
fn deltas_in_other_currencies_need_a_rate() {
    let usd = Currency::from_code("USD").unwrap();
    let mut item = Item::basic_debt(money(cad(), -100.0), 0.1f64.to_bits(), Span::days(365), at(2010, 1, 1, 0, 0, 0));
    item.add_delta(at(2010, 6, 1, 0, 0, 0), money(usd, 50.0));
    let t = at(2010, 6, 1, 0, 0, 0);
    assert_eq!(assess_in(&ConversionTable::new(), &item, t), None);
    let mut table = ConversionTable::new();
    table.add_conversion(usd, cad(), 2.0f64.to_bits(), 0.5f64.to_bits());
    let v = assess_in(&table, &item, t).unwrap();
    assert_eq!(v.currency(), cad());
    let grown = -100.0 * 1.1f64.powf((t.nanos() - at(2010, 1, 1, 0, 0, 0).nanos()) as f64 / Span::days(365).nanos() as f64);
    assert_eq!(amount(&v), grown + 100.0);
}

#[test]
fn display_groups_thousands() {
    let s: String = format_amount(true, 338224, 91, cad()).into_iter().collect();
    assert_eq!(s, "-338,224.91CAD");
    let s: String = format_amount(false, 1234567, 5, cop()).into_iter().collect();
    assert_eq!(s, "1,234,567.05COP");
    let s: String = format_amount(false, 0, 0, cad()).into_iter().collect();
    assert_eq!(s, "0.00CAD");
    let s: String = format_amount(false, 999, 10, cad()).into_iter().collect();
    assert_eq!(s, "999.10CAD");
    let s: String = format_amount(false, 1000, 99, cad()).into_iter().collect();
    assert_eq!(s, "1,000.99CAD");
}
