//! Expense records and the three changes a ledger admits: adding a record
//! under a fresh id, replacing the amount of a record, removing a record.

use crate::calendar::Timestamp;
use vstd::prelude::*;

verus! {

/// One recorded expense.
///
/// `amount` is carried as the 64 bits of the number the user entered. The
/// ledger stores and replaces it and never looks inside.
#[derive(Debug, PartialEq, Eq)]
pub struct Expense {
    pub description: String,
    pub amount: u64,
    pub id: usize,
    pub date: Timestamp,
}

impl Clone for Expense {
    fn clone(&self) -> (copy: Self)
        ensures
            copy == *self,
    {
        Expense {
            description: self.description.clone(),
            amount: self.amount,
            id: self.id,
            date: self.date,
        }
    }
}

/// The greatest id among `records`, 0 when there is none.
pub open spec fn max_id(records: Seq<Expense>) -> int
    decreases records.len(),
{
    if records.len() == 0 {
        0
    } else {
        let before = max_id(records.drop_last());
        if records.last().id > before {
            records.last().id as int
        } else {
            before
        }
    }
}

/// No two records share an id.
pub open spec fn distinct_ids(records: Seq<Expense>) -> bool {
    forall|i: int, j: int| 0 <= i < j < records.len() ==> records[i].id != records[j].id
}

/// Some record carries `id`.
pub open spec fn has_id(records: Seq<Expense>, id: usize) -> bool {
    exists|i: int| 0 <= i < records.len() && records[i].id == id
}

/// The index of the first record that carries `id`; the length of
/// `records` when none does.
pub open spec fn position_of(records: Seq<Expense>, id: usize) -> int
    decreases records.len(),
{
    if records.len() == 0 {
        0
    } else if records[0].id == id {
        0
    } else {
        1 + position_of(records.drop_first(), id)
    }
}

/// `records` with one more record at the end, under the id that follows the
/// greatest one in use.
pub open spec fn with_added(
    records: Seq<Expense>,
    description: String,
    amount: u64,
    date: Timestamp,
) -> Seq<Expense> {
    records.push(Expense { description, amount, id: (max_id(records) + 1) as usize, date })
}

/// `records` with the amount of the first record under `id` replaced;
/// `records` itself when no record carries `id`.
pub open spec fn with_amount(records: Seq<Expense>, id: usize, amount: u64) -> Seq<Expense> {
    let at = position_of(records, id);
    if at < records.len() {
        records.update(at, Expense { amount, ..records[at] })
    } else {
        records
    }
}

/// `records` without the first record under `id`; `records` itself when no
/// record carries `id`.
pub open spec fn without(records: Seq<Expense>, id: usize) -> Seq<Expense> {
    let at = position_of(records, id);
    if at < records.len() {
        records.remove(at)
    } else {
        records
    }
}

/// `max_id` bounds every id from above and, in a ledger that holds
/// anything, is the id of one of its records.
pub proof fn lemma_max_id(records: Seq<Expense>)
    ensures
        0 <= max_id(records) <= usize::MAX,
        forall|i: int| 0 <= i < records.len() ==> records[i].id <= max_id(records),
        records.len() > 0 ==> exists|i: int|
            0 <= i < records.len() && records[i].id == max_id(records),
    decreases records.len(),
{
    if records.len() > 0 {
        let front = records.drop_last();
        lemma_max_id(front);
        assert forall|i: int| 0 <= i < records.len() implies records[i].id <= max_id(records) by {
            if i < front.len() {
                assert(front[i] == records[i]);
            }
        }
        if records.last().id > max_id(front) {
            assert(records[records.len() - 1].id == max_id(records));
        } else if front.len() > 0 {
            let i = choose|i: int| 0 <= i < front.len() && front[i].id == max_id(front);
            assert(records[i].id == max_id(records));
        } else {
            assert(records[records.len() - 1].id == max_id(records));
        }
    }
}

/// `position_of` is the first index under `id`, and falls inside the ledger
/// exactly when some record carries `id`.
pub proof fn lemma_position_of(records: Seq<Expense>, id: usize)
    ensures
        0 <= position_of(records, id) <= records.len(),
        position_of(records, id) < records.len() <==> has_id(records, id),
        position_of(records, id) < records.len() ==> records[position_of(records, id)].id == id,
        forall|j: int| 0 <= j < position_of(records, id) ==> records[j].id != id,
    decreases records.len(),
{
    if records.len() == 0 {
    } else if records[0].id == id {
    } else {
        let rest = records.drop_first();
        lemma_position_of(rest, id);
        let at = position_of(rest, id);
        assert forall|j: int| 0 <= j < at + 1 implies records[j].id != id by {
            if j > 0 {
                assert(rest[j - 1] == records[j]);
            }
        }
        if at < rest.len() {
            assert(rest[at] == records[at + 1]);
        } else {
            assert forall|i: int| 0 <= i < records.len() implies records[i].id != id by {}
        }
    }
}

/// `max_id` is the one number that bounds every id from above and is
/// either the id of a record or, in an empty ledger, 0.
pub proof fn lemma_max_id_is(records: Seq<Expense>, bound: int)
    requires
        forall|i: int| 0 <= i < records.len() ==> records[i].id <= bound,
        if records.len() == 0 {
            bound == 0
        } else {
            exists|i: int| 0 <= i < records.len() && records[i].id == bound
        },
    ensures
        max_id(records) == bound,
{
    lemma_max_id(records);
}

/// An added record gets an id above every id in use. So the greatest id
/// grows by one, and a ledger in which no two records share an id stays
/// such a ledger.
pub proof fn lemma_added_id_is_fresh(
    records: Seq<Expense>,
    description: String,
    amount: u64,
    date: Timestamp,
)
    requires
        max_id(records) < usize::MAX,
    ensures
        with_added(records, description, amount, date).last().id == max_id(records) + 1,
        forall|i: int|
            0 <= i < records.len() ==> records[i].id < with_added(
                records,
                description,
                amount,
                date,
            ).last().id,
        !has_id(records, with_added(records, description, amount, date).last().id),
        max_id(with_added(records, description, amount, date)) == max_id(records) + 1,
        distinct_ids(records) ==> distinct_ids(with_added(records, description, amount, date)),
{
    lemma_max_id(records);
    let after = with_added(records, description, amount, date);
    assert(after.drop_last() == records);
}

/// Replacing an amount touches nothing else: every record keeps its place,
/// id, description and date, and ids that were pairwise distinct stay so.
pub proof fn lemma_update_keeps_the_rest(records: Seq<Expense>, id: usize, amount: u64)
    ensures
        with_amount(records, id, amount).len() == records.len(),
        forall|i: int|
            0 <= i < records.len() ==> {
                &&& (#[trigger] with_amount(records, id, amount)[i]).id == records[i].id
                &&& with_amount(records, id, amount)[i].description == records[i].description
                &&& with_amount(records, id, amount)[i].date == records[i].date
            },
        forall|i: int|
            0 <= i < records.len() && i != position_of(records, id) ==> #[trigger] with_amount(
                records,
                id,
                amount,
            )[i] == records[i],
        max_id(with_amount(records, id, amount)) == max_id(records),
        distinct_ids(records) ==> distinct_ids(with_amount(records, id, amount)),
{
    lemma_position_of(records, id);
    lemma_max_id(records);
    let after = with_amount(records, id, amount);
    if records.len() > 0 {
        let top = choose|i: int| 0 <= i < records.len() && records[i].id == max_id(records);
        assert(after[top].id == max_id(records));
    }
    lemma_max_id_is(after, max_id(records));
}

/// Removing a record leaves the others as they were and in their order.
/// Ids that were pairwise distinct stay so, and then the removed id is
/// gone from the ledger.
pub proof fn lemma_delete_keeps_the_rest(records: Seq<Expense>, id: usize)
    ensures
        has_id(records, id) ==> without(records, id).len() == records.len() - 1,
        forall|i: int|
            0 <= i < without(records, id).len() ==> #[trigger] without(records, id)[i] == records[if i
                < position_of(records, id) {
                i
            } else {
                i + 1
            }],
        max_id(without(records, id)) <= max_id(records),
        distinct_ids(records) ==> distinct_ids(without(records, id)),
        distinct_ids(records) ==> !has_id(without(records, id), id),
{
    lemma_position_of(records, id);
    lemma_max_id(records);
    let rest = without(records, id);
    lemma_max_id(rest);
    let at = position_of(records, id);
    assert forall|i: int| 0 <= i < rest.len() implies rest[i].id <= max_id(records) by {
        if at < records.len() && i >= at {
            assert(rest[i] == records[i + 1]);
        } else {
            assert(rest[i] == records[i]);
        }
    }
    if distinct_ids(records) {
        assert forall|i: int, j: int| 0 <= i < j < rest.len() implies rest[i].id != rest[j].id by {
            let from_i = if i < at { i } else { i + 1 };
            let from_j = if j < at { j } else { j + 1 };
            assert(rest[i] == records[from_i]);
            assert(rest[j] == records[from_j]);
        }
        assert forall|i: int| 0 <= i < rest.len() implies rest[i].id != id by {
            let from_i = if i < at { i } else { i + 1 };
            assert(rest[i] == records[from_i]);
        }
    }
}

/// No id comes back by removal. After a record is removed, the next id is
/// still one more than the greatest id left: it is the removed id again
/// only where that id was one more than every id left, and it is the very
/// id that would have come next without the removal where the removed id
/// was not the greatest in use.
pub proof fn lemma_removed_id_is_not_recycled(
    records: Seq<Expense>,
    id: usize,
    description: String,
    amount: u64,
    date: Timestamp,
)
    requires
        max_id(records) < usize::MAX,
    ensures
        ({
            let rest = without(records, id);
            let again = with_added(rest, description, amount, date);
            &&& again.last().id == max_id(rest) + 1
            &&& !has_id(rest, again.last().id)
            &&& again.last().id == id <==> id == max_id(rest) + 1
            &&& again.last().id == id ==> forall|i: int| 0 <= i < rest.len() ==> rest[i].id < id
            &&& id < max_id(records) ==> again.last().id == max_id(records) + 1 && again.last().id
                != id
        }),
{
    let rest = without(records, id);
    lemma_delete_keeps_the_rest(records, id);
    lemma_position_of(records, id);
    lemma_max_id(records);
    lemma_max_id(rest);
    lemma_added_id_is_fresh(rest, description, amount, date);
    if id < max_id(records) {
        let at = position_of(records, id);
        let top = choose|i: int| 0 <= i < records.len() && records[i].id == max_id(records);
        if at < records.len() {
            assert(top != at);
            let moved = if top < at { top } else { top - 1 };
            assert(rest[moved] == records[top]);
            assert(rest[moved].id == max_id(records));
        }
        lemma_max_id_is(rest, max_id(records));
    }
}

/// The ledger that a run of additions builds from nothing, one record for
/// each entry of description, amount and date.
pub open spec fn added_in_turn(entries: Seq<(String, u64, Timestamp)>) -> Seq<Expense>
    decreases entries.len(),
{
    if entries.len() == 0 {
        Seq::empty()
    } else {
        with_added(
            added_in_turn(entries.drop_last()),
            entries.last().0,
            entries.last().1,
            entries.last().2,
        )
    }
}

/// In a ledger built from nothing by additions alone, each record got one
/// more than the greatest id in use before it was added, which makes the
/// ids 1, 2, 3 and so on, no two alike.
pub proof fn lemma_ids_count_up(entries: Seq<(String, u64, Timestamp)>)
    requires
        entries.len() <= usize::MAX,
    ensures
        added_in_turn(entries).len() == entries.len(),
        max_id(added_in_turn(entries)) == entries.len(),
        distinct_ids(added_in_turn(entries)),
        forall|k: int|
            0 <= k < entries.len() ==> (#[trigger] added_in_turn(entries)[k]).id == max_id(
                added_in_turn(entries.take(k)),
            ) + 1,
        forall|k: int|
            0 <= k < entries.len() ==> {
                &&& (#[trigger] added_in_turn(entries)[k]).id == k + 1
                &&& added_in_turn(entries)[k].description == entries[k].0
                &&& added_in_turn(entries)[k].amount == entries[k].1
                &&& added_in_turn(entries)[k].date == entries[k].2
            },
    decreases entries.len(),
{
    if entries.len() > 0 {
        let front = entries.drop_last();
        let before = added_in_turn(front);
        let ledger = added_in_turn(entries);
        lemma_ids_count_up(front);
        lemma_added_id_is_fresh(before, entries.last().0, entries.last().1, entries.last().2);
        assert forall|k: int| 0 <= k < entries.len() implies (#[trigger] ledger[k]).id == max_id(
            added_in_turn(entries.take(k)),
        ) + 1 by {
            if k < front.len() {
                assert(ledger[k] == before[k]);
                assert(entries.take(k) == front.take(k));
            } else {
                assert(entries.take(k) == front);
            }
        }
        assert forall|k: int| 0 <= k < entries.len() implies {
            &&& (#[trigger] ledger[k]).id == k + 1
            &&& ledger[k].description == entries[k].0
            &&& ledger[k].amount == entries[k].1
            &&& ledger[k].date == entries[k].2
        } by {
            if k < front.len() {
                assert(ledger[k] == before[k]);
                assert(front[k] == entries[k]);
            }
        }
    }
}

/// The greatest id in use, 0 in an empty ledger.
pub fn greatest_id(expense: &[Expense]) -> (id: usize)
    ensures
        id == max_id(expense@),
        forall|i: int| 0 <= i < expense@.len() ==> expense@[i].id <= id,
{
    let mut greatest: usize = 0;
    let mut i: usize = 0;
    while i < expense.len()
        invariant
            i <= expense.len(),
            greatest == max_id(expense@.take(i as int)),
        decreases expense.len() - i,
    {
        assert(expense@.take(i + 1).drop_last() == expense@.take(i as int));
        if expense[i].id > greatest {
            greatest = expense[i].id;
        }
        i += 1;
    }
    assert(expense@.take(i as int) == expense@);
    proof {
        lemma_max_id(expense@);
    }
    greatest
}

/// The id that the next added record gets: one more than the greatest id
/// in use, 1 in an empty ledger.
pub fn next_id(expense: &[Expense]) -> (id: usize)
    requires
        max_id(expense@) < usize::MAX,
    ensures
        id == max_id(expense@) + 1,
        expense@.len() == 0 ==> id == 1,
        forall|i: int| 0 <= i < expense@.len() ==> expense@[i].id < id,
{
    greatest_id(expense) + 1
}

/// Where the first record under `id` stands, if any does.
pub fn find(expense: &[Expense], id: usize) -> (found: Option<usize>)
    ensures
        found is Some <==> has_id(expense@, id),
        found matches Some(at) ==> at == position_of(expense@, id) && at < expense@.len()
            && expense@[at as int].id == id,
{
    proof {
        lemma_position_of(expense@, id);
    }
    let mut i: usize = 0;
    while i < expense.len()
        invariant
            i <= expense.len(),
            i <= position_of(expense@, id),
            forall|j: int| 0 <= j < position_of(expense@, id) ==> expense@[j].id != id,
            position_of(expense@, id) < expense@.len() ==> expense@[position_of(expense@, id)].id
                == id,
        decreases expense.len() - i,
    {
        if expense[i].id == id {
            return Some(i);
        }
        i += 1;
    }
    None
}

/// Appends a record for `description` and `amount`, stamped `date`, under
/// the next free id, and returns that id.
pub fn add_expense(
    expense: &mut Vec<Expense>,
    description: String,
    amount: u64,
    date: Timestamp,
) -> (id: usize)
    requires
        max_id(old(expense)@) < usize::MAX,
    ensures
        id == max_id(old(expense)@) + 1,
        final(expense)@ == old(expense)@.push(Expense { description, amount, id, date }),
        final(expense)@ == with_added(old(expense)@, description, amount, date),
        !has_id(old(expense)@, id),
        distinct_ids(old(expense)@) ==> distinct_ids(final(expense)@),
{
    let id = next_id(expense.as_slice());
    expense.push(Expense { description, amount, id, date });
    id
}

/// Replaces the amount of the first record under `id`. Returns whether
/// there was such a record; without one the ledger stays as it was.
pub fn update_amount(expense: &mut Vec<Expense>, id: usize, amount: u64) -> (found: bool)
    ensures
        found == has_id(old(expense)@, id),
        final(expense)@ == with_amount(old(expense)@, id, amount),
        !found ==> final(expense)@ == old(expense)@,
        final(expense)@.len() == old(expense)@.len(),
        forall|i: int|
            0 <= i < old(expense)@.len() ==> {
                &&& final(expense)@[i].id == old(expense)@[i].id
                &&& final(expense)@[i].description == old(expense)@[i].description
                &&& final(expense)@[i].date == old(expense)@[i].date
                &&& final(expense)@[i].amount == if i == position_of(old(expense)@, id) {
                    amount
                } else {
                    old(expense)@[i].amount
                }
            },
        distinct_ids(old(expense)@) ==> distinct_ids(final(expense)@),
{
    proof {
        lemma_position_of(expense@, id);
    }
    match find(expense.as_slice(), id) {
        Some(at) => {
            expense[at].amount = amount;
            assert(expense@ =~= with_amount(old(expense)@, id, amount));
            true
        },
        None => false,
    }
}

/// Removes the first record under `id`. Returns whether there was such a
/// record; without one the ledger stays as it was.
pub fn delete_expense(expense: &mut Vec<Expense>, id: usize) -> (found: bool)
    ensures
        found == has_id(old(expense)@, id),
        final(expense)@ == without(old(expense)@, id),
        found ==> final(expense)@ == old(expense)@.remove(position_of(old(expense)@, id)),
        !found ==> final(expense)@ == old(expense)@,
        distinct_ids(old(expense)@) ==> distinct_ids(final(expense)@),
        distinct_ids(old(expense)@) ==> !has_id(final(expense)@, id),
{
    proof {
        lemma_position_of(expense@, id);
        lemma_delete_keeps_the_rest(expense@, id);
    }
    match find(expense.as_slice(), id) {
        Some(at) => {
            expense.remove(at);
            true
        },
        None => false,
    }
}

} // verus!
