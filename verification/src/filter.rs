//! The month filter behind listings and totals: the records dated in a
//! named month of one year, in the order the ledger holds them.

use crate::bindings::{english_month_name, lowercase_of};
use crate::calendar::{month_name_text, Timestamp};
use crate::expense::Expense;
use vstd::prelude::*;

verus! {

/// The records that a list of references points at, in the same order.
pub open spec fn pointees(refs: Seq<&Expense>) -> Seq<Expense> {
    refs.map_values(|record: &Expense| *record)
}

/// The text of an optional month name.
pub open spec fn month_text(month: Option<&str>) -> Option<Seq<char>> {
    match month {
        Some(name) => Some(name@),
        None => None,
    }
}

/// Whether `record` is dated in `year`, in the month that `month` names.
/// Names are compared in lowercase, so their case does not count.
pub open spec fn in_month(record: Expense, month: Seq<char>, year: int) -> bool {
    lowercase_of(month_name_text(record.date@.month)) == lowercase_of(month) && record.date@.year
        == year
}

/// What the filter keeps of `records`: all of them without a month, else
/// those dated in that month of `year`, in their order.
pub open spec fn selection(records: Seq<Expense>, month: Option<Seq<char>>, year: int) -> Seq<
    Expense,
> {
    match month {
        None => records,
        Some(name) => records.filter(|record: Expense| in_month(record, name, year)),
    }
}

/// Whether `record` is dated in `year` and the key of its month equals
/// `wanted`. `keys` lists the keys of the months, January first; a month
/// that it does not reach has no key.
pub open spec fn key_matches(
    record: Expense,
    keys: Seq<String>,
    wanted: Seq<char>,
    year: int,
) -> bool {
    &&& 0 <= record.date@.month - 1 < keys.len()
    &&& keys[record.date@.month - 1]@ == wanted
    &&& record.date@.year == year
}

/// The records of `year` whose month is keyed `wanted`, in their order.
pub open spec fn keyed_selection(
    records: Seq<Expense>,
    keys: Seq<String>,
    wanted: Seq<char>,
    year: int,
) -> Seq<Expense> {
    records.filter(|record: Expense| key_matches(record, keys, wanted, year))
}

/// Two tests that agree on every element of a sequence keep the same
/// elements of it.
pub proof fn lemma_filter_agrees<A>(items: Seq<A>, p: spec_fn(A) -> bool, q: spec_fn(A) -> bool)
    requires
        forall|i: int| 0 <= i < items.len() ==> p(items[i]) == q(items[i]),
    ensures
        items.filter(p) == items.filter(q),
    decreases items.len(),
{
    reveal(Seq::filter);
    if items.len() > 0 {
        let front = items.drop_last();
        assert forall|i: int| 0 <= i < front.len() implies p(front[i]) == q(front[i]) by {
            assert(front[i] == items[i]);
        }
        lemma_filter_agrees(front, p, q);
        assert(p(items[items.len() - 1]) == q(items[items.len() - 1]));
    }
}

/// References to all of `expense`, in order.
fn whole<'a>(expense: &'a [Expense]) -> (kept: Vec<&'a Expense>)
    ensures
        pointees(kept@) == expense@,
{
    let mut kept: Vec<&'a Expense> = Vec::new();
    let mut i: usize = 0;
    while i < expense.len()
        invariant
            i <= expense.len(),
            pointees(kept@) == expense@.take(i as int),
        decreases expense.len() - i,
    {
        let record = &expense[i];
        assert(pointees(kept@.push(record)) == pointees(kept@).push(*record));
        assert(expense@.take(i + 1) == expense@.take(i as int).push(expense@[i as int]));
        kept.push(record);
        i += 1;
    }
    assert(expense@.take(i as int) == expense@);
    kept
}

/// The twelve month names in lowercase, January first: the keys under
/// which a month is looked up.
pub fn month_keys() -> (keys: Vec<String>)
    ensures
        keys@.len() == 12,
        forall|month: int|
            1 <= month <= 12 ==> (#[trigger] keys@[month - 1])@ == lowercase_of(
                month_name_text(month),
            ),
{
    let mut keys: Vec<String> = Vec::new();
    let mut month: u8 = 1;
    while month <= 12
        invariant
            1 <= month <= 13,
            keys@.len() == month - 1,
            forall|m: int|
                1 <= m < month ==> (#[trigger] keys@[m - 1])@ == lowercase_of(month_name_text(m)),
        decreases 13 - month,
    {
        let name = english_month_name(month);
        keys.push(name.as_str().to_lowercase());
        month += 1;
    }
    keys
}

/// The records of `expense` dated in `year` whose month has the key
/// `wanted` in `keys`, in the order of `expense`. `keys` lists the keys of
/// the months, January first.
///
/// It also reports what it saw on the way: every record carries a valid
/// date.
pub fn filter_by_key<'a>(
    expense: &'a [Expense],
    keys: &Vec<String>,
    wanted: &String,
    year: i32,
) -> (kept: Vec<&'a Expense>)
    ensures
        pointees(kept@) == keyed_selection(expense@, keys@, wanted@, year as int),
        forall|i: int| 0 <= i < expense@.len() ==> (#[trigger] expense@[i]).date@.valid(),
{
    let mut kept: Vec<&'a Expense> = Vec::new();
    let mut i: usize = 0;
    while i < expense.len()
        invariant
            i <= expense.len(),
            pointees(kept@) == keyed_selection(
                expense@.take(i as int),
                keys@,
                wanted@,
                year as int,
            ),
            forall|j: int| 0 <= j < i ==> (#[trigger] expense@[j]).date@.valid(),
        decreases expense.len() - i,
    {
        let record = &expense[i];
        let slot = (record.date.month() - 1) as usize;
        let hit = slot < keys.len() && keys[slot] == *wanted && record.date.year() == year;
        proof {
            reveal(Seq::filter);
            assert(expense@.take(i + 1).drop_last() == expense@.take(i as int));
            assert(expense@.take(i + 1).last() == *record);
            assert(pointees(kept@.push(record)) == pointees(kept@).push(*record));
        }
        if hit {
            kept.push(record);
        }
        i += 1;
    }
    assert(expense@.take(i as int) == expense@);
    kept
}

/// The filter with the year given: all of `expense` without a month, else
/// the records dated in that month of `year`, the month's English name
/// compared in lowercase. The result keeps the order of `expense` and is
/// empty when nothing matches.
pub fn filter_in_year<'a>(expense: &'a [Expense], month: Option<&str>, year: i32) -> (kept: Vec<
    &'a Expense,
>)
    ensures
        pointees(kept@) == selection(expense@, month_text(month), year as int),
{
    match month {
        None => whole(expense),
        Some(name) => {
            let keys = month_keys();
            let wanted = name.to_lowercase();
            let kept = filter_by_key(expense, &keys, &wanted, year);
            proof {
                lemma_filter_agrees(
                    expense@,
                    |record: Expense| key_matches(record, keys@, wanted@, year as int),
                    |record: Expense| in_month(record, name@, year as int),
                );
            }
            kept
        },
    }
}

/// The filter of listings and totals: all of `expense` without a month,
/// else the records dated in that month of the year that the system clock
/// shows at the call.
pub fn filter<'a>(expense: &'a [Expense], month: Option<&str>) -> (kept: Vec<&'a Expense>)
    ensures
        month is None ==> pointees(kept@) == expense@,
        exists|year: int| pointees(kept@) == selection(expense@, month_text(month), year),
{
    let now = Timestamp::now();
    filter_in_year(expense, month, now.year())
}

} // verus!
