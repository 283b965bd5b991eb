use expense_tracker::calendar::Timestamp;
use expense_tracker::expense::Expense;
use expense_tracker::storage::{load_expenses, LoadError, Stored};

fn record(id: usize, description: &str) -> Expense {
    Expense {
        description: description.to_string(),
        amount: 2.5f64.to_bits(),
        id,
        date: Timestamp::new(2024, 6, 1, 0, 0, 0, 0).unwrap(),
    }
}

#[test]
fn missing_file_is_an_empty_ledger() {
    assert_eq!(load_expenses(Stored::Missing), Ok(Vec::new()));
}

#[test]
fn malformed_file_is_fatal() {
    assert_eq!(load_expenses(Stored::Malformed), Err(LoadError::Malformed));
}

#[test]
fn unreadable_file_is_fatal() {
    assert_eq!(load_expenses(Stored::Unreadable), Err(LoadError::Unreadable));
}

#[test]
fn records_are_loaded_as_they_were_read() {
    let read = vec![record(3, "c"), record(1, "a"), record(3, "again")];
    let expected = read.clone();
    assert_eq!(load_expenses(Stored::Records(read)), Ok(expected));
}

#[test]
fn a_file_holding_an_empty_list_is_an_empty_ledger() {
    assert_eq!(load_expenses(Stored::Records(Vec::new())), Ok(Vec::new()));
}
