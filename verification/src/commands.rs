//! The five commands of the ledger, what each does to the records, and what
//! it has to tell the user.

use crate::calendar::Timestamp;
use crate::expense::{
    add_expense, delete_expense, distinct_ids, has_id, lemma_added_id_is_fresh, max_id,
    update_amount, with_added, with_amount, without, Expense,
};
use crate::filter::{filter_in_year, pointees, selection};
use crate::text::{decimal, decimal_text};
use vstd::prelude::*;
use vstd::string::StringExecFns;

verus! {

/// A command against the ledger.
#[derive(Debug, PartialEq, Eq)]
pub enum Commands {
    /// Record a new expense.
    Add { description: String, amount: u64 },
    /// Replace the amount of the expense under `id`.
    Update { id: usize, amount: u64 },
    /// Remove the expense under `id`.
    Delete { id: usize },
    /// List the expenses, of one month of the current year if one is named.
    View { month: Option<String> },
    /// Total the expenses, of one month of the current year if one is named.
    Summary { month: Option<String> },
}

/// What a command did.
#[derive(Debug, PartialEq, Eq)]
pub enum Outcome<'a> {
    /// A record was added under `id`.
    Added { id: usize },
    /// The amount of the record under `id` was replaced.
    Updated { id: usize },
    /// The record under `id` was removed.
    Deleted { id: usize },
    /// No record carries `id`; the ledger is as it was.
    NotFound { id: usize },
    /// The records to list, at least one.
    Listed { rows: Vec<&'a Expense> },
    /// The records to total, at least one.
    Totalled { rows: Vec<&'a Expense> },
    /// Nothing to list or total.
    Nothing,
}

/// The text of an optional month name.
pub open spec fn month_of(month: Option<String>) -> Option<Seq<char>> {
    match month {
        Some(name) => Some(name@),
        None => None,
    }
}

impl Commands {
    /// The ledger that the command leaves behind when it runs on `records`
    /// at the moment `now`.
    pub open spec fn applied(self, records: Seq<Expense>, now: Timestamp) -> Seq<Expense> {
        match self {
            Commands::Add { description, amount } => with_added(records, description, amount, now),
            Commands::Update { id, amount } => with_amount(records, id, amount),
            Commands::Delete { id } => without(records, id),
            Commands::View { month } => records,
            Commands::Summary { month } => records,
        }
    }

    /// Whether `outcome` is what the command has to report when it runs on
    /// `records` at the moment `now`.
    pub open spec fn answered_by(
        self,
        outcome: Outcome,
        records: Seq<Expense>,
        now: Timestamp,
    ) -> bool {
        match self {
            Commands::Add { description, amount } => outcome == (Outcome::Added {
                id: (max_id(records) + 1) as usize,
            }),
            Commands::Update { id, amount } => outcome == if has_id(records, id) {
                Outcome::Updated { id }
            } else {
                Outcome::NotFound { id }
            },
            Commands::Delete { id } => outcome == if has_id(records, id) {
                Outcome::Deleted { id }
            } else {
                Outcome::NotFound { id }
            },
            Commands::View { month } => {
                let chosen = selection(records, month_of(month), now@.year);
                if chosen.len() == 0 {
                    outcome == Outcome::Nothing
                } else {
                    outcome matches Outcome::Listed { rows } && pointees(rows@) == chosen
                }
            },
            Commands::Summary { month } => {
                let chosen = selection(records, month_of(month), now@.year);
                if chosen.len() == 0 {
                    outcome == Outcome::Nothing
                } else {
                    outcome matches Outcome::Totalled { rows } && pointees(rows@) == chosen
                }
            },
        }
    }

    /// Runs the command on the ledger at the moment `now`: an added record
    /// is stamped `now`, and a month filter keeps the records of the year
    /// of `now`.
    pub fn execute_at<'a>(self, expense: &'a mut Vec<Expense>, now: Timestamp) -> (outcome: Outcome<
        'a,
    >)
        requires
            self is Add ==> max_id(old(expense)@) < usize::MAX,
        ensures
            final(expense)@ == self.applied(old(expense)@, now),
            self.answered_by(outcome, old(expense)@, now),
            distinct_ids(old(expense)@) ==> distinct_ids(final(expense)@),
    {
        match self {
            Commands::Add { description, amount } => {
                let id = add_expense(expense, description, amount, now);
                Outcome::Added { id }
            },
            Commands::Update { id, amount } => {
                if update_amount(expense, id, amount) {
                    Outcome::Updated { id }
                } else {
                    Outcome::NotFound { id }
                }
            },
            Commands::Delete { id } => {
                if delete_expense(expense, id) {
                    Outcome::Deleted { id }
                } else {
                    Outcome::NotFound { id }
                }
            },
            Commands::View { month } => {
                let rows = match &month {
                    Some(name) => filter_in_year(expense.as_slice(), Some(name.as_str()), now.year()),
                    None => filter_in_year(expense.as_slice(), None, now.year()),
                };
                if rows.len() == 0 {
                    Outcome::Nothing
                } else {
                    Outcome::Listed { rows }
                }
            },
            Commands::Summary { month } => {
                let rows = match &month {
                    Some(name) => filter_in_year(expense.as_slice(), Some(name.as_str()), now.year()),
                    None => filter_in_year(expense.as_slice(), None, now.year()),
                };
                if rows.len() == 0 {
                    Outcome::Nothing
                } else {
                    Outcome::Totalled { rows }
                }
            },
        }
    }

    /// Runs the command on the ledger at the moment the system clock shows.
    ///
    /// Whatever the clock reads, the ledger and the outcome are those of
    /// `execute_at` for one valid moment.
    pub fn execute<'a>(self, expense: &'a mut Vec<Expense>) -> (outcome: Outcome<'a>)
        requires
            self is Add ==> max_id(old(expense)@) < usize::MAX,
        ensures
            exists|now: Timestamp|
                {
                    &&& now@.valid()
                    &&& final(expense)@ == #[trigger] self.applied(old(expense)@, now)
                    &&& self.answered_by(outcome, old(expense)@, now)
                },
            distinct_ids(old(expense)@) ==> distinct_ids(final(expense)@),
    {
        let now = Timestamp::now();
        self.execute_at(expense, now)
    }
}

/// The ledger that a run of commands leaves behind, each command run at its
/// own moment and in turn, starting from `records`.
pub open spec fn applied_in_turn(
    records: Seq<Expense>,
    run: Seq<(Commands, Timestamp)>,
) -> Seq<Expense>
    decreases run.len(),
{
    if run.len() == 0 {
        records
    } else {
        run.last().0.applied(applied_in_turn(records, run.drop_last()), run.last().1)
    }
}

/// Whether `run` holds additions and nothing else.
pub open spec fn only_adds(run: Seq<(Commands, Timestamp)>) -> bool {
    forall|i: int| 0 <= i < run.len() ==> (#[trigger] run[i]).0 is Add
}

/// A run of additions without its last command is a run of additions.
proof fn lemma_front_only_adds(run: Seq<(Commands, Timestamp)>)
    requires
        only_adds(run),
        run.len() > 0,
    ensures
        only_adds(run.drop_last()),
{
    let front = run.drop_last();
    assert forall|i: int| 0 <= i < front.len() implies (#[trigger] front[i]).0 is Add by {
        assert(front[i] == run[i]);
    }
}

/// Additions alone leave as many records as there were additions, the
/// greatest id being their number, and no two ids alike.
proof fn lemma_adds_fill(run: Seq<(Commands, Timestamp)>)
    requires
        only_adds(run),
        run.len() <= usize::MAX,
    ensures
        applied_in_turn(Seq::empty(), run).len() == run.len(),
        max_id(applied_in_turn(Seq::empty(), run)) == run.len(),
        distinct_ids(applied_in_turn(Seq::empty(), run)),
    decreases run.len(),
{
    if run.len() > 0 {
        let front = run.drop_last();
        let before = applied_in_turn(Seq::empty(), front);
        lemma_front_only_adds(run);
        lemma_adds_fill(front);
        assert(run.last() == run[run.len() - 1]);
        lemma_added_id_is_fresh(
            before,
            run.last().0->Add_description,
            run.last().0->Add_amount,
            run.last().1,
        );
    }
}

/// The record that the addition at place `k` of a run of additions left,
/// and the ledger that it found.
proof fn lemma_adds_record(run: Seq<(Commands, Timestamp)>, k: int)
    requires
        only_adds(run),
        run.len() <= usize::MAX,
        0 <= k < run.len(),
    ensures
        applied_in_turn(Seq::empty(), run.take(k)) == applied_in_turn(Seq::empty(), run).take(k),
        applied_in_turn(Seq::empty(), run)[k] == (Expense {
            description: run[k].0->Add_description,
            amount: run[k].0->Add_amount,
            id: (k + 1) as usize,
            date: run[k].1,
        }),
    decreases run.len(),
{
    let front = run.drop_last();
    let before = applied_in_turn(Seq::empty(), front);
    let ledger = applied_in_turn(Seq::empty(), run);
    lemma_front_only_adds(run);
    lemma_adds_fill(front);
    assert(run.last() == run[run.len() - 1]);
    assert(ledger == before.push(ledger.last()));
    if k < front.len() {
        lemma_adds_record(front, k);
        assert(front[k] == run[k]);
        assert(run.take(k) == front.take(k));
        assert(ledger.take(k) == before.take(k));
        assert(ledger[k] == before[k]);
    } else {
        assert(run.take(k) == front);
        assert(ledger.take(k) == before);
    }
}

/// What the addition at place `k` of a run of additions found and left.
proof fn lemma_adds_at(run: Seq<(Commands, Timestamp)>, k: int)
    requires
        only_adds(run),
        run.len() <= usize::MAX,
        0 <= k < run.len(),
    ensures
        applied_in_turn(Seq::empty(), run.take(k)) == applied_in_turn(Seq::empty(), run).take(k),
        max_id(applied_in_turn(Seq::empty(), run).take(k)) == k,
        applied_in_turn(Seq::empty(), run)[k].id == k + 1,
        applied_in_turn(Seq::empty(), run)[k].description == run[k].0->Add_description,
        applied_in_turn(Seq::empty(), run)[k].amount == run[k].0->Add_amount,
        applied_in_turn(Seq::empty(), run)[k].date == run[k].1,
{
    lemma_adds_record(run, k);
    let early = run.take(k);
    assert forall|i: int| 0 <= i < early.len() implies (#[trigger] early[i]).0 is Add by {
        assert(early[i] == run[i]);
    }
    lemma_adds_fill(early);
}

/// Additions alone, run on an empty ledger, leave one record for each of
/// them, in their order and as each was given, under the ids 1, 2, 3 and so
/// on: each id is one more than the greatest id in use before that
/// addition, and no two are alike. What stood in the ledger before an
/// addition stands there after it.
pub proof fn lemma_adds_count_up(run: Seq<(Commands, Timestamp)>)
    requires
        only_adds(run),
        run.len() <= usize::MAX,
    ensures
        applied_in_turn(Seq::empty(), run).len() == run.len(),
        max_id(applied_in_turn(Seq::empty(), run)) == run.len(),
        distinct_ids(applied_in_turn(Seq::empty(), run)),
        forall|k: int|
            0 <= k < run.len() ==> {
                &&& applied_in_turn(Seq::empty(), #[trigger] run.take(k)) == applied_in_turn(
                    Seq::empty(),
                    run,
                ).take(k)
                &&& applied_in_turn(Seq::empty(), run)[k].id == k + 1
                &&& applied_in_turn(Seq::empty(), run)[k].id == max_id(
                    applied_in_turn(Seq::empty(), run).take(k),
                ) + 1
                &&& applied_in_turn(Seq::empty(), run)[k].description == run[k].0->Add_description
                &&& applied_in_turn(Seq::empty(), run)[k].amount == run[k].0->Add_amount
                &&& applied_in_turn(Seq::empty(), run)[k].date == run[k].1
            },
{
    lemma_adds_fill(run);
    assert forall|k: int| 0 <= k < run.len() implies {
        &&& applied_in_turn(Seq::empty(), #[trigger] run.take(k)) == applied_in_turn(
            Seq::empty(),
            run,
        ).take(k)
        &&& applied_in_turn(Seq::empty(), run)[k].id == k + 1
        &&& applied_in_turn(Seq::empty(), run)[k].id == max_id(
            applied_in_turn(Seq::empty(), run).take(k),
        ) + 1
        &&& applied_in_turn(Seq::empty(), run)[k].description == run[k].0->Add_description
        &&& applied_in_turn(Seq::empty(), run)[k].amount == run[k].0->Add_amount
        &&& applied_in_turn(Seq::empty(), run)[k].date == run[k].1
    } by {
        lemma_adds_at(run, k);
    }
}

/// One more addition after additions alone: on a ledger that `run` built
/// from nothing, an addition may run as long as fewer than `usize::MAX`
/// went before, and it appends the record as given, under the id that
/// counts it, and leaves the earlier records as they were.
pub proof fn lemma_add_after_adds(
    run: Seq<(Commands, Timestamp)>,
    description: String,
    amount: u64,
    now: Timestamp,
)
    requires
        only_adds(run),
        run.len() < usize::MAX,
    ensures
        ({
            let before = applied_in_turn(Seq::empty(), run);
            let after = (Commands::Add { description, amount }).applied(before, now);
            &&& max_id(before) == run.len()
            &&& after.len() == run.len() + 1
            &&& after.take(run.len() as int) == before
            &&& after.last() == (Expense {
                description,
                amount,
                id: (run.len() + 1) as usize,
                date: now,
            })
            &&& after.last().id == max_id(before) + 1
            &&& run.len() == 0 ==> after.last().id == 1
            &&& distinct_ids(after)
            &&& forall|i: int| 0 <= i < after.len() ==> (#[trigger] after[i]).id == i + 1
        }),
{
    let before = applied_in_turn(Seq::empty(), run);
    let after = (Commands::Add { description, amount }).applied(before, now);
    lemma_adds_count_up(run);
    lemma_added_id_is_fresh(before, description, amount, now);
    assert(after.take(run.len() as int) == before);
    assert forall|i: int| 0 <= i < after.len() implies (#[trigger] after[i]).id == i + 1 by {
        if i < before.len() {
            lemma_adds_at(run, i);
            assert(after[i] == before[i]);
        }
    }
}

impl<'a> Outcome<'a> {
    /// The line that tells the user what the command did, where there is
    /// one to show before anything is saved.
    pub open spec fn notice_text(self) -> Option<Seq<char>> {
        match self {
            Outcome::Deleted { id } => Some(
                "Expense "@ + decimal_text(id as nat) + " deleted successfully."@,
            ),
            Outcome::NotFound { id } => Some("ID not found"@),
            Outcome::Nothing => Some("No expenses found"@),
            _ => None,
        }
    }

    /// The line that confirms a change once the ledger is saved.
    pub open spec fn saved_text(self) -> Option<Seq<char>> {
        match self {
            Outcome::Added { id } => Some("Expense added successfully"@),
            Outcome::Updated { id } => Some("Expense updated successfully"@),
            Outcome::Deleted { id } => Some("Expense deleted successfully"@),
            _ => None,
        }
    }

    /// The line that reports that saving a change failed for `reason`.
    pub open spec fn save_failure_text(self, reason: Seq<char>) -> Option<Seq<char>> {
        match self {
            Outcome::Added { id } => Some("There is an error in saving file: "@ + reason),
            Outcome::Updated { id } => Some("There is an error in saving the file: "@ + reason),
            Outcome::Deleted { id } => Some("There is an error in saving the file: "@ + reason),
            _ => None,
        }
    }

    /// Whether the command changed the ledger, which is then due to be
    /// saved.
    pub fn changed(&self) -> (changed: bool)
        ensures
            changed == (self is Added || self is Updated || self is Deleted),
    {
        match self {
            Outcome::Added { .. } => true,
            Outcome::Updated { .. } => true,
            Outcome::Deleted { .. } => true,
            _ => false,
        }
    }

    /// The line to show as soon as the command has run.
    pub fn notice(&self) -> (line: Option<String>)
        ensures
            line is Some <==> self.notice_text() is Some,
            line matches Some(text) ==> Some(text@) == self.notice_text(),
    {
        match self {
            Outcome::Deleted { id } => {
                let mut text = "Expense ".to_owned();
                let number = decimal(*id);
                text.append(number.as_str());
                text.append(" deleted successfully.");
                Some(text)
            },
            Outcome::NotFound { .. } => Some("ID not found".to_owned()),
            Outcome::Nothing => Some("No expenses found".to_owned()),
            _ => None,
        }
    }

    /// The line to show once a change is saved.
    pub fn saved_notice(&self) -> (line: Option<String>)
        ensures
            line is Some <==> self.saved_text() is Some,
            line matches Some(text) ==> Some(text@) == self.saved_text(),
    {
        match self {
            Outcome::Added { .. } => Some("Expense added successfully".to_owned()),
            Outcome::Updated { .. } => Some("Expense updated successfully".to_owned()),
            Outcome::Deleted { .. } => Some("Expense deleted successfully".to_owned()),
            _ => None,
        }
    }

    /// The line to show when a change could not be saved, for `reason`.
    pub fn save_failure_notice(&self, reason: &str) -> (line: Option<String>)
        ensures
            line is Some <==> self.save_failure_text(reason@) is Some,
            line matches Some(text) ==> Some(text@) == self.save_failure_text(reason@),
    {
        match self {
            Outcome::Added { .. } => {
                let mut text = "There is an error in saving file: ".to_owned();
                text.append(reason);
                Some(text)
            },
            Outcome::Updated { .. } => {
                let mut text = "There is an error in saving the file: ".to_owned();
                text.append(reason);
                Some(text)
            },
            Outcome::Deleted { .. } => {
                let mut text = "There is an error in saving the file: ".to_owned();
                text.append(reason);
                Some(text)
            },
            _ => None,
        }
    }
}

} // verus!
