use expense_tracker::calendar::Timestamp;
use expense_tracker::commands::{Commands, Outcome};
use expense_tracker::expense::Expense;

fn at(year: i32, month: u32, day: u32) -> Timestamp {
    Timestamp::new(year, month, day, 18, 45, 12, 0).unwrap()
}

fn record(id: usize, description: &str, amount: f64, date: Timestamp) -> Expense {
    Expense { description: description.to_string(), amount: amount.to_bits(), id, date }
}

fn total(rows: &[&Expense]) -> f64 {
    rows.iter().map(|e| f64::from_bits(e.amount)).sum()
}

fn ids(rows: &[&Expense]) -> Vec<usize> {
    rows.iter().map(|e| e.id).collect()
}

#[test]
fn a_session_from_an_empty_ledger() {
    let mut ledger: Vec<Expense> = Vec::new();

    let added =
        Commands::Add { description: "Coffee".to_string(), amount: 4.5f64.to_bits() }
            .execute(&mut ledger);
    assert_eq!(added, Outcome::Added { id: 1 });
    assert!(added.changed());
    assert_eq!(added.notice(), None);
    assert_eq!(added.saved_notice(), Some("Expense added successfully".to_string()));
    assert_eq!(ledger.len(), 1);
    assert_eq!(ledger[0].id, 1);
    assert_eq!(ledger[0].description, "Coffee");
    assert_eq!(f64::from_bits(ledger[0].amount), 4.5);

    let added =
        Commands::Add { description: "Book".to_string(), amount: 12.0f64.to_bits() }
            .execute(&mut ledger);
    assert_eq!(added, Outcome::Added { id: 2 });
    assert_eq!(ledger.len(), 2);
    assert_eq!(ledger[1].id, 2);

    let updated = Commands::Update { id: 1, amount: 5.0f64.to_bits() }.execute(&mut ledger);
    assert_eq!(updated, Outcome::Updated { id: 1 });
    assert!(updated.changed());
    assert_eq!(updated.saved_notice(), Some("Expense updated successfully".to_string()));
    assert_eq!(f64::from_bits(ledger[0].amount), 5.0);
    assert_eq!(f64::from_bits(ledger[1].amount), 12.0);
    assert_eq!(ledger[0].description, "Coffee");

    match (Commands::View { month: None }).execute(&mut ledger) {
        Outcome::Listed { rows } => {
            assert_eq!(ids(&rows), vec![1, 2]);
            assert_eq!(rows[0].description, "Coffee");
            assert_eq!(rows[1].description, "Book");
        }
        other => panic!("unexpected outcome {:?}", other),
    }

    match (Commands::Summary { month: None }).execute(&mut ledger) {
        Outcome::Totalled { rows } => assert_eq!(total(&rows), 17.0),
        other => panic!("unexpected outcome {:?}", other),
    }

    let deleted = Commands::Delete { id: 1 }.execute(&mut ledger);
    assert_eq!(deleted, Outcome::Deleted { id: 1 });
    assert!(deleted.changed());
    assert_eq!(deleted.notice(), Some("Expense 1 deleted successfully.".to_string()));
    assert_eq!(deleted.saved_notice(), Some("Expense deleted successfully".to_string()));
    assert_eq!(ledger.len(), 1);
    assert_eq!(ledger[0].id, 2);

    let before = ledger.clone();
    let missed = Commands::Update { id: 99, amount: 1.0f64.to_bits() }.execute(&mut ledger);
    assert_eq!(missed, Outcome::NotFound { id: 99 });
    assert!(!missed.changed());
    assert_eq!(missed.notice(), Some("ID not found".to_string()));
    assert_eq!(missed.saved_notice(), None);
    assert_eq!(ledger, before);
}

#[test]
fn add_stamps_the_record_with_the_given_moment() {
    let mut ledger = vec![record(6, "Rent", 700.0, at(2023, 1, 1))];
    let now = at(2024, 8, 9);
    let outcome = Commands::Add { description: "Tea".to_string(), amount: 2.0f64.to_bits() }
        .execute_at(&mut ledger, now);
    assert_eq!(outcome, Outcome::Added { id: 7 });
    assert_eq!(
        ledger,
        vec![record(6, "Rent", 700.0, at(2023, 1, 1)), record(7, "Tea", 2.0, now)]
    );
}

#[test]
fn add_stamps_the_record_with_the_present() {
    let mut ledger: Vec<Expense> = Vec::new();
    let before = Timestamp::now();
    let _ = Commands::Add { description: "Tea".to_string(), amount: 2.0f64.to_bits() }
        .execute(&mut ledger);
    let after = Timestamp::now();
    let stamp = ledger[0].date;
    assert!(before.year() <= stamp.year() && stamp.year() <= after.year());
}

#[test]
fn add_accepts_an_empty_description_and_any_amount() {
    let mut ledger: Vec<Expense> = Vec::new();
    let outcome = Commands::Add { description: String::new(), amount: (-0.01f64).to_bits() }
        .execute_at(&mut ledger, at(2024, 1, 1));
    assert_eq!(outcome, Outcome::Added { id: 1 });
    assert_eq!(ledger[0].description, "");
    assert_eq!(f64::from_bits(ledger[0].amount), -0.01);
}

#[test]
fn delete_of_an_unknown_id_reports_it_and_changes_nothing() {
    let mut ledger = vec![record(1, "Coffee", 4.5, at(2024, 1, 1))];
    let before = ledger.clone();
    let outcome = Commands::Delete { id: 2 }.execute(&mut ledger);
    assert_eq!(outcome, Outcome::NotFound { id: 2 });
    assert!(!outcome.changed());
    assert_eq!(outcome.notice(), Some("ID not found".to_string()));
    assert_eq!(outcome.save_failure_notice("disk full"), None);
    assert_eq!(ledger, before);
}

#[test]
fn view_and_summary_of_an_empty_ledger_find_nothing() {
    let mut ledger: Vec<Expense> = Vec::new();
    let outcome = Commands::View { month: None }.execute(&mut ledger);
    assert_eq!(outcome, Outcome::Nothing);
    assert!(!outcome.changed());
    assert_eq!(outcome.notice(), Some("No expenses found".to_string()));
    assert_eq!(Commands::Summary { month: None }.execute(&mut ledger), Outcome::Nothing);
    assert!(ledger.is_empty());
}

#[test]
fn view_of_a_month_lists_that_month_of_the_year_of_the_moment() {
    let mut ledger = vec![
        record(1, "a", 1.0, at(2024, 3, 1)),
        record(2, "b", 2.0, at(2023, 3, 1)),
        record(3, "c", 4.0, at(2024, 4, 1)),
        record(4, "d", 8.0, at(2024, 3, 20)),
    ];
    let before = ledger.clone();
    match (Commands::View { month: Some("march".to_string()) }).execute_at(&mut ledger, at(2024, 11, 5))
    {
        Outcome::Listed { rows } => assert_eq!(ids(&rows), vec![1, 4]),
        other => panic!("unexpected outcome {:?}", other),
    }
    match (Commands::Summary { month: Some("March".to_string()) })
        .execute_at(&mut ledger, at(2023, 11, 5))
    {
        Outcome::Totalled { rows } => {
            assert_eq!(ids(&rows), vec![2]);
            assert_eq!(total(&rows), 2.0);
        }
        other => panic!("unexpected outcome {:?}", other),
    }
    assert_eq!(
        Commands::View { month: Some("May".to_string()) }.execute_at(&mut ledger, at(2024, 11, 5)),
        Outcome::Nothing
    );
    assert_eq!(
        Commands::Summary { month: Some("March".to_string()) }
            .execute_at(&mut ledger, at(2022, 11, 5)),
        Outcome::Nothing
    );
    assert_eq!(ledger, before);
}

#[test]
fn view_of_a_month_uses_the_current_year() {
    let year = Timestamp::now().year();
    let mut ledger = vec![
        record(1, "this year", 3.0, at(year, 3, 1)),
        record(2, "last year", 5.0, at(year - 1, 3, 1)),
    ];
    match (Commands::View { month: Some("March".to_string()) }).execute(&mut ledger) {
        Outcome::Listed { rows } => assert_eq!(ids(&rows), vec![1]),
        other => panic!("unexpected outcome {:?}", other),
    }
}

#[test]
fn notices_of_each_outcome() {
    let added = Outcome::Added { id: 12 };
    assert_eq!(added.notice(), None);
    assert_eq!(added.saved_notice(), Some("Expense added successfully".to_string()));
    assert_eq!(
        added.save_failure_notice("permission denied"),
        Some("There is an error in saving file: permission denied".to_string())
    );

    let updated = Outcome::Updated { id: 12 };
    assert_eq!(updated.notice(), None);
    assert_eq!(updated.saved_notice(), Some("Expense updated successfully".to_string()));
    assert_eq!(
        updated.save_failure_notice("permission denied"),
        Some("There is an error in saving the file: permission denied".to_string())
    );

    let deleted = Outcome::Deleted { id: 120 };
    assert_eq!(deleted.notice(), Some("Expense 120 deleted successfully.".to_string()));
    assert_eq!(deleted.saved_notice(), Some("Expense deleted successfully".to_string()));
    assert_eq!(
        deleted.save_failure_notice(""),
        Some("There is an error in saving the file: ".to_string())
    );

    let listed = Outcome::Listed { rows: Vec::new() };
    assert!(!listed.changed());
    assert_eq!(listed.notice(), None);
    assert_eq!(listed.saved_notice(), None);
    assert_eq!(listed.save_failure_notice("x"), None);

    let totalled = Outcome::Totalled { rows: Vec::new() };
    assert!(!totalled.changed());
    assert_eq!(totalled.notice(), None);

    assert_eq!(Outcome::Nothing.notice(), Some("No expenses found".to_string()));
    assert_eq!(Outcome::Nothing.saved_notice(), None);
}

#[test]
fn ids_stay_distinct_through_a_run_of_commands() {
    let mut ledger: Vec<Expense> = Vec::new();
    let now = at(2024, 5, 5);
    for k in 0..6 {
        let _ = Commands::Add { description: format!("n{}", k), amount: 1.0f64.to_bits() }
            .execute_at(&mut ledger, now);
    }
    let _ = Commands::Delete { id: 2 }.execute_at(&mut ledger, now);
    let _ = Commands::Delete { id: 6 }.execute_at(&mut ledger, now);
    let _ = Commands::Update { id: 3, amount: 9.0f64.to_bits() }.execute_at(&mut ledger, now);
    let _ = Commands::Add { description: "x".to_string(), amount: 1.0f64.to_bits() }
        .execute_at(&mut ledger, now);
    let _ = Commands::Add { description: "y".to_string(), amount: 1.0f64.to_bits() }
        .execute_at(&mut ledger, now);
    let got: Vec<usize> = ledger.iter().map(|e| e.id).collect();
    assert_eq!(got, vec![1, 3, 4, 5, 6, 7]);
}

#[test]
fn additions_alone_number_the_records_from_one() {
    let mut ledger: Vec<Expense> = Vec::new();
    for k in 0..12usize {
        let before = ledger.clone();
        let now = at(2024, (k as u32) + 1, 1);
        let outcome =
            Commands::Add { description: format!("entry {}", k), amount: (k as f64).to_bits() }
                .execute_at(&mut ledger, now);
        assert_eq!(outcome, Outcome::Added { id: k + 1 });
        assert_eq!(ledger.len(), k + 1);
        assert_eq!(&ledger[..k], &before[..]);
        assert_eq!(ledger[k], record(k + 1, &format!("entry {}", k), k as f64, now));
    }
    let got: Vec<usize> = ledger.iter().map(|e| e.id).collect();
    assert_eq!(got, (1..=12usize).collect::<Vec<usize>>());
}
