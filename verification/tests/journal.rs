use record_ledger::errors::JournalError;
use record_ledger::identity::Identity;
use record_ledger::journal::create_entry_handler;
use record_ledger::journal::delete_entry_handler;
use record_ledger::journal::edit_entry_handler;
use record_ledger::journal::Journal;

fn ident(b: u8) -> Identity {
    Identity::new(vec![b; 32]).unwrap()
}

#[test]
fn identity_rejects_wrong_length() {
    assert!(Identity::new(vec![1u8; 31]).is_none());
    assert!(Identity::new(vec![1u8; 33]).is_none());
    assert!(Identity::new(Vec::new()).is_none());
    assert!(Identity::new(vec![1u8; 32]).is_some());
}

#[test]
fn identity_equality() {
    let a = ident(1);
    let b = ident(1);
    let c = ident(2);
    assert!(a.same_as(&b));
    assert!(!a.same_as(&c));
    assert!(a.same_as(&a.duplicate()));
}

#[test]
fn create_rejects_month_out_of_range() {
    for month in [0u8, 13, 14, 255] {
        let r = create_entry_handler(
            ident(1),
            "calm".to_string(),
            2024,
            month,
            5,
            "rain".to_string(),
            "hello".to_string(),
        );
        assert!(matches!(r, Err(JournalError::InvalidMonth)));
    }
    let mut j = Journal::new();
    let r = j.create_entry(
        ident(1),
        "calm".to_string(),
        2024,
        0,
        5,
        "rain".to_string(),
        "hello".to_string(),
    );
    assert_eq!(r, Err(JournalError::InvalidMonth));
    assert_eq!(j.entry_count(), 0);
}

#[test]
fn create_rejects_day_out_of_range() {
    for day in [0u8, 32, 33, 255] {
        let r = create_entry_handler(
            ident(1),
            "calm".to_string(),
            2024,
            6,
            day,
            "rain".to_string(),
            "hello".to_string(),
        );
        assert!(matches!(r, Err(JournalError::InvalidDay)));
    }
    let mut j = Journal::new();
    let r = j.create_entry(
        ident(1),
        "calm".to_string(),
        2024,
        6,
        32,
        "rain".to_string(),
        "hello".to_string(),
    );
    assert_eq!(r, Err(JournalError::InvalidDay));
    assert_eq!(j.entry_count(), 0);
}

#[test]
fn create_accepts_loose_day() {
    // Day range check only: February 30 passes, by design.
    let r = create_entry_handler(
        ident(0xA),
        "happy".to_string(),
        2024,
        2,
        30,
        "sunny".to_string(),
        "hi".to_string(),
    );
    let e = r.unwrap();
    assert_eq!(e.year, 2024);
    assert_eq!(e.month, 2);
    assert_eq!(e.day, 30);
    assert_eq!(e.mood, "happy");
    assert_eq!(e.weather, "sunny");
    assert_eq!(e.message, "hi");
    assert!(e.authority.same_as(&ident(0xA)));

    let mut j = Journal::new();
    let r = j.create_entry(
        ident(0xA),
        "happy".to_string(),
        2024,
        2,
        30,
        "sunny".to_string(),
        "hi".to_string(),
    );
    assert_eq!(r, Ok(()));
    assert_eq!(j.entry_count(), 1);
}

#[test]
fn create_is_unique_per_date_and_owner() {
    let mut j = Journal::new();
    let first = j.create_entry(
        ident(1),
        "calm".to_string(),
        2024,
        6,
        5,
        "rain".to_string(),
        "one".to_string(),
    );
    assert_eq!(first, Ok(()));
    let second = j.create_entry(
        ident(1),
        "tired".to_string(),
        2024,
        6,
        5,
        "sun".to_string(),
        "two".to_string(),
    );
    assert_eq!(second, Err(JournalError::DefaultError));
    assert_eq!(j.entry_count(), 1);

    // Another owner or another date is a different slot.
    assert_eq!(
        j.create_entry(
            ident(2),
            "calm".to_string(),
            2024,
            6,
            5,
            "rain".to_string(),
            "three".to_string(),
        ),
        Ok(())
    );
    assert_eq!(
        j.create_entry(
            ident(1),
            "calm".to_string(),
            2024,
            6,
            6,
            "rain".to_string(),
            "four".to_string(),
        ),
        Ok(())
    );
    assert_eq!(j.entry_count(), 3);
}

#[test]
fn edit_requires_authority() {
    let mut j = Journal::new();
    j.create_entry(
        ident(1),
        "calm".to_string(),
        2024,
        6,
        5,
        "rain".to_string(),
        "one".to_string(),
    )
    .unwrap();
    let r = j.edit_entry(
        &ident(2),
        &ident(1),
        2024,
        6,
        5,
        "angry".to_string(),
        "hail".to_string(),
        "hacked".to_string(),
    );
    assert_eq!(r, Err(JournalError::Unauthorized));
    let e = j.get_entry(&ident(1), 2024, 6, 5).unwrap();
    assert_eq!(e.mood, "calm");
    assert_eq!(e.message, "one");
}

#[test]
fn edit_by_authority_overwrites_texts_only() {
    let mut j = Journal::new();
    j.create_entry(
        ident(1),
        "calm".to_string(),
        2024,
        6,
        5,
        "rain".to_string(),
        "one".to_string(),
    )
    .unwrap();
    let r = j.edit_entry(
        &ident(1),
        &ident(1),
        2024,
        6,
        5,
        "glad".to_string(),
        "snow".to_string(),
        "two".to_string(),
    );
    assert_eq!(r, Ok(()));
    let e = j.get_entry(&ident(1), 2024, 6, 5).unwrap();
    assert_eq!(e.mood, "glad");
    assert_eq!(e.weather, "snow");
    assert_eq!(e.message, "two");
    assert_eq!(e.year, 2024);
    assert_eq!(e.month, 6);
    assert_eq!(e.day, 5);
    assert!(e.authority.same_as(&ident(1)));
}

#[test]
fn edit_missing_record_fails() {
    let mut j = Journal::new();
    let r = j.edit_entry(
        &ident(1),
        &ident(1),
        2024,
        6,
        5,
        "glad".to_string(),
        "snow".to_string(),
        "two".to_string(),
    );
    assert_eq!(r, Err(JournalError::DefaultError));
}

#[test]
fn edit_handler_checks_caller() {
    let mut e = create_entry_handler(
        ident(1),
        "calm".to_string(),
        2024,
        6,
        5,
        "rain".to_string(),
        "one".to_string(),
    )
    .unwrap();
    assert_eq!(
        edit_entry_handler(
            &mut e,
            &ident(2),
            "angry".to_string(),
            "hail".to_string(),
            "hacked".to_string(),
        ),
        Err(JournalError::Unauthorized)
    );
    assert_eq!(e.mood, "calm");
    assert_eq!(
        edit_entry_handler(
            &mut e,
            &ident(1),
            "glad".to_string(),
            "snow".to_string(),
            "two".to_string(),
        ),
        Ok(())
    );
    assert_eq!(e.mood, "glad");
    assert_eq!(e.weather, "snow");
    assert_eq!(e.message, "two");
}

#[test]
fn delete_requires_authority() {
    let mut j = Journal::new();
    j.create_entry(
        ident(1),
        "calm".to_string(),
        2024,
        6,
        5,
        "rain".to_string(),
        "one".to_string(),
    )
    .unwrap();
    assert_eq!(
        j.delete_entry(&ident(2), &ident(1), 2024, 6, 5),
        Err(JournalError::Unauthorized)
    );
    assert_eq!(j.entry_count(), 1);
    assert_eq!(j.delete_entry(&ident(1), &ident(1), 2024, 6, 5), Ok(()));
    assert_eq!(j.entry_count(), 0);
    assert!(j.get_entry(&ident(1), 2024, 6, 5).is_none());
}

#[test]
fn delete_missing_record_fails() {
    let mut j = Journal::new();
    assert_eq!(
        j.delete_entry(&ident(1), &ident(1), 2024, 6, 5),
        Err(JournalError::DefaultError)
    );
}

#[test]
fn delete_frees_the_slot_for_a_new_create() {
    let mut j = Journal::new();
    j.create_entry(
        ident(1),
        "calm".to_string(),
        2024,
        6,
        5,
        "rain".to_string(),
        "one".to_string(),
    )
    .unwrap();
    j.delete_entry(&ident(1), &ident(1), 2024, 6, 5).unwrap();
    assert_eq!(
        j.create_entry(
            ident(1),
            "new".to_string(),
            2024,
            6,
            5,
            "sun".to_string(),
            "again".to_string(),
        ),
        Ok(())
    );
    let e = j.get_entry(&ident(1), 2024, 6, 5).unwrap();
    assert_eq!(e.mood, "new");
}

#[test]
fn delete_handler_checks_caller() {
    let e = create_entry_handler(
        ident(1),
        "calm".to_string(),
        2024,
        6,
        5,
        "rain".to_string(),
        "one".to_string(),
    )
    .unwrap();
    assert_eq!(
        delete_entry_handler(&e, &ident(2)),
        Err(JournalError::Unauthorized)
    );
    assert_eq!(delete_entry_handler(&e, &ident(1)), Ok(()));
}
