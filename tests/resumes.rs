use rabbit_ledger::{
    LedgerError, Operation, PaymentTypes, ResumeEntity, ResumeService, SqliteDbService, StoreFault,
    Table,
};

const NOON: i64 = 1_717_243_200_000; // 2024-06-01T12:00:00Z
const DAY: i64 = 86_400_000;

#[test]
fn resume_accumulates_increments() {
    let mut db = SqliteDbService::new_in_memory().unwrap();
    let r = ResumeService::find_or_create_with_id(&mut db, PaymentTypes::Dinheiro, "r1".to_string(), NOON, 0)
        .unwrap();
    assert_eq!((r.amount_s, r.amount_n), (0, 0));
    ResumeService::increment_amounts(&mut db, "r1", 10, 5, NOON + 1).unwrap();
    ResumeService::increment_amounts(&mut db, "r1", 3, 0, NOON + 2).unwrap();
    let r = ResumeService::find_by_id(&db, "r1").unwrap().unwrap();
    assert_eq!((r.amount_s, r.amount_n), (13, 5));
    assert_eq!(r.updated_at, NOON + 2);
}

#[test]
fn negative_increments_are_taken() {
    let mut db = SqliteDbService::new_in_memory().unwrap();
    ResumeService::find_or_create_with_id(&mut db, PaymentTypes::Cheque, "r".to_string(), NOON, 0).unwrap();
    ResumeService::increment_amounts(&mut db, "r", -7, -1, NOON).unwrap();
    let r = ResumeService::find_by_id(&db, "r").unwrap().unwrap();
    assert_eq!((r.amount_s, r.amount_n), (-7, -1));
}

#[test]
fn overflowing_increment_is_refused() {
    let mut db = SqliteDbService::new_in_memory().unwrap();
    ResumeService::find_or_create_with_id(&mut db, PaymentTypes::Cheque, "r".to_string(), NOON, 0).unwrap();
    ResumeService::increment_amounts(&mut db, "r", i64::MAX, 0, NOON).unwrap();
    let e = ResumeService::increment_amounts(&mut db, "r", 1, 0, NOON);
    assert_eq!(e, Err(LedgerError::StorageFailure(Operation::UpdateResume, StoreFault::Overflow)));
    assert_eq!(ResumeService::find_by_id(&db, "r").unwrap().unwrap().amount_s, i64::MAX);
}

#[test]
fn unknown_resume_is_not_found() {
    let mut db = SqliteDbService::new_in_memory().unwrap();
    assert_eq!(ResumeService::increment_amounts(&mut db, "nope", 1, 1, NOON), Err(LedgerError::NotFound));
    assert_eq!(ResumeService::update_amounts(&mut db, "nope", 1, 1, NOON), Err(LedgerError::NotFound));
    assert_eq!(ResumeService::find_by_id(&db, "nope").unwrap().map(|r| r.id), None);
}

#[test]
fn update_sets_both_amounts() {
    let mut db = SqliteDbService::new_in_memory().unwrap();
    ResumeService::find_or_create_with_id(&mut db, PaymentTypes::Outros, "r".to_string(), NOON, 0).unwrap();
    ResumeService::update_amounts(&mut db, "r", 40, 2, NOON + 5).unwrap();
    let r = ResumeService::find_by_id(&db, "r").unwrap().unwrap();
    assert_eq!((r.amount_s, r.amount_n, r.updated_at, r.created_at), (40, 2, NOON + 5, NOON));
}

#[test]
fn find_or_create_reuses_the_row_of_the_day() {
    let mut db = SqliteDbService::new_in_memory().unwrap();
    let a = ResumeService::find_or_create_with_id(&mut db, PaymentTypes::Dinheiro, "a".to_string(), NOON, 0).unwrap();
    let b = ResumeService::find_or_create_with_id(&mut db, PaymentTypes::Dinheiro, "b".to_string(), NOON + 1000, 0).unwrap();
    assert_eq!(a.id, "a");
    assert_eq!(b.id, "a");
    let c = ResumeService::find_or_create_with_id(&mut db, PaymentTypes::Dinheiro, "c".to_string(), NOON + DAY, 0).unwrap();
    assert_eq!(c.id, "c");
    assert_eq!(c.created_at, NOON + DAY);
    assert_eq!(db.resumes.len(), 2);
}

#[test]
fn find_or_create_by_code_makes_a_uuid() {
    let mut db = SqliteDbService::new_in_memory().unwrap();
    let a = ResumeService::find_or_create_by_code(&mut db, PaymentTypes::CartaoDeCredito, NOON, 0).unwrap();
    assert_eq!(a.id.len(), 36);
    assert_eq!(a.id.matches('-').count(), 4);
    assert_eq!(a.code, PaymentTypes::CartaoDeCredito);
    let b = ResumeService::find_or_create_by_code(&mut db, PaymentTypes::CartaoDeCredito, NOON + 1, 0).unwrap();
    assert_eq!(a.id, b.id);
    let c = ResumeService::find_or_create_by_code(&mut db, PaymentTypes::CartaoDeDebito, NOON + 1, 0).unwrap();
    assert_ne!(a.id, c.id);
}

#[test]
fn find_or_create_fails_without_its_table() {
    let mut db = SqliteDbService::new_in_memory().unwrap();
    db.drop_table(Table::Resume);
    let r = ResumeService::find_or_create_by_code(&mut db, PaymentTypes::Dinheiro, NOON, 0);
    assert_eq!(
        r.map(|x| x.id),
        Err(LedgerError::StorageFailure(Operation::QueryResumes, StoreFault::MissingTable(Table::Resume)))
    );
}

#[test]
fn day_starts_at_local_midnight() {
    assert_eq!(ResumeService::day_start(NOON, 0), 1_717_200_000_000);
    let offset = -3 * 3_600_000;
    assert_eq!(ResumeService::day_start(NOON, offset), 1_717_200_000_000 + 3 * 3_600_000);
    let early = 1_717_200_000_000 + 3_600_000; // 2024-06-01T01:00Z, 22:00 of May 31 at UTC-3
    assert_eq!(ResumeService::day_start(early, offset), (1_717_200_000_000 - DAY + 3 * 3_600_000) as i128);
    assert_eq!(ResumeService::day_start(-1, 0), -(DAY as i128));
}

#[test]
fn todays_rows_are_ordered_by_code() {
    let mut db = SqliteDbService::new_in_memory().unwrap();
    let old = ResumeEntity::new("old".to_string(), PaymentTypes::Dinheiro, NOON - DAY);
    ResumeService::save(&mut db, &old).unwrap();
    for (id, code) in [("x", PaymentTypes::Outros), ("y", PaymentTypes::Dinheiro), ("z", PaymentTypes::ValeRefeicao)] {
        ResumeService::find_or_create_with_id(&mut db, code, id.to_string(), NOON, 0).unwrap();
    }
    let today = ResumeService::get_all_today(&db, NOON + 60_000, 0).unwrap();
    let ids: Vec<&str> = today.iter().map(|r| r.id.as_str()).collect();
    assert_eq!(ids, vec!["y", "z", "x"]);
}

#[test]
fn save_replaces_the_row_with_the_same_identifier() {
    let mut db = SqliteDbService::new_in_memory().unwrap();
    let mut r = ResumeEntity::new("r".to_string(), PaymentTypes::Dinheiro, NOON);
    ResumeService::save(&mut db, &r).unwrap();
    r.amount_s = 9;
    ResumeService::save(&mut db, &r).unwrap();
    assert_eq!(db.resumes.len(), 1);
    assert_eq!(db.resumes[0].amount_s, 9);
}

#[test]
fn purge_removes_rows_older_than_the_cut() {
    let mut db = SqliteDbService::new_in_memory().unwrap();
    for (id, created) in [("a", NOON - 10 * DAY), ("b", NOON - 3 * DAY), ("c", NOON - DAY), ("d", NOON)] {
        ResumeService::save(&mut db, &ResumeEntity::new(id.to_string(), PaymentTypes::Dinheiro, created)).unwrap();
    }
    let removed = ResumeService::delete_old_resumes(&mut db, 3, NOON).unwrap();
    assert_eq!(removed, 1);
    let ids: Vec<&str> = db.resumes.iter().map(|r| r.id.as_str()).collect();
    assert_eq!(ids, vec!["b", "c", "d"]);
    assert_eq!(ResumeService::delete_old_resumes(&mut db, 0, NOON).unwrap(), 2);
}
