use rabbit_ledger::{
    CalendarDate, DateTime, LedgerError, Operation, SqliteDbService, StoreFault, Table,
    VendaEntity, VendaItemEntity, VendaPagamentoEntity, VendaResumo, VendaService,
};

fn at(text: &str) -> DateTime {
    DateTime::parse(text).unwrap()
}

fn day(text: &str) -> CalendarDate {
    CalendarDate::parse(text).unwrap()
}

fn sale(emission: &str, total: i64, discount: i64, addition: i64) -> VendaEntity {
    let mut v = VendaEntity::new(
        1,
        59,
        "1".to_string(),
        1001,
        "28095955000199".to_string(),
        at(emission),
        total,
        "CFe35240628095955000199590000010010010010010010".to_string(),
        1_717_236_000_000,
    );
    v.discount = discount;
    v.addition = addition;
    v
}

fn item(code: &str, quantity: i64, unit_price: i64) -> VendaItemEntity {
    VendaItemEntity::new(
        0,
        code.to_string(),
        format!("Produto {}", code),
        "UN".to_string(),
        quantity,
        unit_price,
        1_717_236_000_000,
    )
}

fn payment(code: &str, amount: i64) -> VendaPagamentoEntity {
    VendaPagamentoEntity::new(0, code.to_string(), "Dinheiro".to_string(), amount, 1_717_236_000_000)
}

#[test]
fn end_to_end_sale_and_summary() {
    let mut db = SqliteDbService::new_in_memory().unwrap();
    let id = VendaService::create_venda(
        &mut db,
        &sale("2024-06-01T10:00:00", 100, 10, 0),
        vec![item("A", 2, 25), item("B", 1, 50)],
        vec![payment("01", 100)],
    )
    .unwrap();
    let found = VendaService::find_by_id(&db, id).unwrap().unwrap();
    assert_eq!(found.total, 100);
    assert_eq!(found.id, Some(id));
    let s = VendaService::get_resumo_by_interval(&db, day("2024-06-01"), day("2024-06-01")).unwrap();
    assert_eq!(
        s,
        VendaResumo {
            total_vendas: 1,
            total_valor: 100,
            total_desconto: 10,
            total_acrescimo: 0,
            total_canceladas: 0,
        }
    );
}

#[test]
fn item_total_is_quantity_times_price() {
    assert_eq!(item("A", 2, 25).preco_total, 50);
    assert_eq!(item("B", 3, -7).preco_total, -21);
}

#[test]
fn create_hands_out_identifiers_in_order() {
    let mut db = SqliteDbService::new_in_memory().unwrap();
    let first = VendaService::create_venda(
        &mut db,
        &sale("2024-06-01T10:00:00", 100, 0, 0),
        vec![item("A", 2, 25), item("B", 1, 50)],
        vec![payment("01", 60), payment("03", 40)],
    )
    .unwrap();
    let second = VendaService::create_venda(
        &mut db,
        &sale("2024-06-01T11:00:00", 30, 0, 0),
        vec![item("C", 1, 30)],
        vec![payment("01", 30)],
    )
    .unwrap();
    assert_eq!((first, second), (1, 2));
    let items = VendaService::find_items_by_venda_id(&db, first).unwrap();
    assert_eq!(items.len(), 2);
    assert_eq!((items[0].id, items[1].id), (Some(1), Some(2)));
    assert_eq!(items[0].produto_code, "A");
    assert_eq!((items[0].venda_id, items[1].venda_id), (1, 1));
    let later = VendaService::find_items_by_venda_id(&db, second).unwrap();
    assert_eq!(later[0].id, Some(3));
    assert_eq!(later[0].venda_id, 2);
    let pays = VendaService::find_payments_by_venda_id(&db, first).unwrap();
    assert_eq!(pays.len(), 2);
    assert_eq!((pays[0].total_pagamento, pays[1].total_pagamento), (60, 40));
    assert_eq!(pays[1].code, "03");
    assert_eq!(VendaService::find_payments_by_venda_id(&db, second).unwrap()[0].id, Some(3));
}

#[test]
fn failed_payment_insert_leaves_no_rows() {
    let mut db = SqliteDbService::new_in_memory().unwrap();
    db.drop_table(Table::VendaPagamento);
    let r = VendaService::create_venda(
        &mut db,
        &sale("2024-06-01T10:00:00", 100, 0, 0),
        vec![item("A", 2, 25), item("B", 1, 50)],
        vec![payment("01", 100)],
    );
    assert_eq!(
        r,
        Err(LedgerError::TransactionFailure(
            Operation::InsertPayment,
            StoreFault::MissingTable(Table::VendaPagamento)
        ))
    );
    assert_eq!(db.vendas.len(), 0);
    assert_eq!(db.next_venda_id, 1);
    assert_eq!(db.next_item_id, 1);
    assert!(VendaService::find_by_id(&db, 1).unwrap().is_none());
    assert!(VendaService::find_items_by_venda_id(&db, 1).unwrap().is_empty());
}

#[test]
fn failed_item_insert_leaves_no_rows() {
    let mut db = SqliteDbService::new_in_memory().unwrap();
    VendaService::create_venda(&mut db, &sale("2024-06-01T09:00:00", 5, 0, 0), vec![], vec![]).unwrap();
    db.drop_table(Table::VendaItem);
    let r = VendaService::create_venda(
        &mut db,
        &sale("2024-06-01T10:00:00", 100, 0, 0),
        vec![item("A", 2, 25)],
        vec![payment("01", 100)],
    );
    assert_eq!(
        r,
        Err(LedgerError::TransactionFailure(Operation::InsertItem, StoreFault::MissingTable(Table::VendaItem)))
    );
    assert_eq!(db.vendas.len(), 1);
    assert_eq!(db.next_venda_id, 2);
}

#[test]
fn a_sale_without_lines_needs_no_line_table() {
    let mut db = SqliteDbService::new_in_memory().unwrap();
    db.drop_table(Table::VendaItem);
    let r = VendaService::create_venda(&mut db, &sale("2024-06-01T10:00:00", 100, 0, 0), vec![], vec![payment("01", 100)]);
    assert_eq!(r, Ok(1));
}

#[test]
fn create_fails_without_the_sale_table() {
    let mut db = SqliteDbService::new("x.sqlite".to_string());
    let r = VendaService::create_venda(&mut db, &sale("2024-06-01T10:00:00", 1, 0, 0), vec![], vec![]);
    assert_eq!(
        r,
        Err(LedgerError::TransactionFailure(Operation::InsertVenda, StoreFault::MissingTable(Table::Venda)))
    );
    assert_eq!(
        VendaService::find_by_id(&db, 1).map(|v| v.is_some()),
        Err(LedgerError::StorageFailure(Operation::FindVenda, StoreFault::MissingTable(Table::Venda)))
    );
}

#[test]
fn create_fails_when_identifiers_run_out() {
    let mut db = SqliteDbService::new_in_memory().unwrap();
    db.next_item_id = i64::MAX - 1;
    let r = VendaService::create_venda(
        &mut db,
        &sale("2024-06-01T10:00:00", 1, 0, 0),
        vec![item("A", 1, 1), item("B", 1, 1)],
        vec![],
    );
    assert_eq!(
        r,
        Err(LedgerError::TransactionFailure(Operation::InsertItem, StoreFault::IdsExhausted(Table::VendaItem)))
    );
    assert_eq!(db.vendas.len(), 0);
}

#[test]
fn unknown_sale_is_absent() {
    let db = SqliteDbService::new_in_memory().unwrap();
    assert!(VendaService::find_by_id(&db, 42).unwrap().is_none());
    assert!(VendaService::find_payments_by_venda_id(&db, 42).unwrap().is_empty());
}

#[test]
fn interval_includes_both_bounds() {
    let mut db = SqliteDbService::new_in_memory().unwrap();
    let before = VendaService::create_venda(&mut db, &sale("2024-05-31T23:59:59", 1, 0, 0), vec![], vec![]).unwrap();
    let first = VendaService::create_venda(&mut db, &sale("2024-06-01T00:00:00", 2, 0, 0), vec![], vec![]).unwrap();
    let last = VendaService::create_venda(&mut db, &sale("2024-06-03T23:59:59", 4, 0, 0), vec![], vec![]).unwrap();
    let after = VendaService::create_venda(&mut db, &sale("2024-06-04T00:00:00", 8, 0, 0), vec![], vec![]).unwrap();
    let got = VendaService::get_vendas_by_interval(&db, day("2024-06-01"), day("2024-06-03")).unwrap();
    let ids: Vec<i64> = got.iter().map(|v| v.venda.id.unwrap()).collect();
    assert_eq!(ids, vec![last, first]);
    assert!(!ids.contains(&before));
    assert!(!ids.contains(&after));
    let s = VendaService::get_resumo_by_interval(&db, day("2024-06-01"), day("2024-06-03")).unwrap();
    assert_eq!((s.total_vendas, s.total_valor), (2, 6));
}

#[test]
fn interval_reports_latest_first_and_keeps_children_with_their_sale() {
    let mut db = SqliteDbService::new_in_memory().unwrap();
    let a = VendaService::create_venda(
        &mut db,
        &sale("2024-06-01T09:00:00", 10, 0, 0),
        vec![item("A1", 1, 10)],
        vec![payment("01", 10)],
    )
    .unwrap();
    let b = VendaService::create_venda(
        &mut db,
        &sale("2024-06-02T09:00:00", 20, 0, 0),
        vec![item("B1", 1, 5), item("B2", 1, 15)],
        vec![payment("03", 20)],
    )
    .unwrap();
    let c = VendaService::create_venda(
        &mut db,
        &sale("2024-06-01T09:00:00", 30, 0, 0),
        vec![item("C1", 1, 30)],
        vec![payment("04", 30)],
    )
    .unwrap();
    let got = VendaService::get_vendas_by_interval(&db, day("2024-06-01"), day("2024-06-02")).unwrap();
    let ids: Vec<i64> = got.iter().map(|v| v.venda.id.unwrap()).collect();
    assert_eq!(ids, vec![b, a, c]);
    assert_eq!(got[0].itens.len(), 2);
    assert_eq!(got[0].itens[1].produto_code, "B2");
    assert_eq!(got[2].pagamentos[0].code, "04");
    for v in got.iter() {
        for it in v.itens.iter() {
            assert_eq!(it.venda_id, v.venda.id.unwrap());
        }
    }
    let items = VendaService::get_items_by_interval(&db, day("2024-06-01"), day("2024-06-02")).unwrap();
    let codes: Vec<&str> = items.iter().map(|i| i.produto_code.as_str()).collect();
    assert_eq!(codes, vec!["B1", "B2", "A1", "C1"]);
    let pays = VendaService::get_payments_by_interval(&db, day("2024-06-02"), day("2024-06-02")).unwrap();
    assert_eq!(pays.len(), 1);
    assert_eq!(pays[0].venda_id, b);
}

#[test]
fn interval_queries_fail_without_their_tables() {
    let mut db = SqliteDbService::new_in_memory().unwrap();
    VendaService::create_venda(&mut db, &sale("2024-06-01T09:00:00", 10, 0, 0), vec![], vec![]).unwrap();
    db.drop_table(Table::VendaItem);
    assert_eq!(
        VendaService::get_items_by_interval(&db, day("2024-06-01"), day("2024-06-01")).map(|v| v.len()),
        Err(LedgerError::StorageFailure(Operation::QueryInterval, StoreFault::MissingTable(Table::VendaItem)))
    );
    assert_eq!(
        VendaService::get_vendas_by_interval(&db, day("2024-06-01"), day("2024-06-01")).map(|v| v.len()),
        Err(LedgerError::StorageFailure(Operation::FindItems, StoreFault::MissingTable(Table::VendaItem)))
    );
    assert_eq!(
        VendaService::get_vendas_by_interval(&db, day("2024-07-01"), day("2024-07-01")).map(|v| v.len()),
        Ok(0)
    );
}

#[test]
fn cancelling_keeps_lines_and_payments() {
    let mut db = SqliteDbService::new_in_memory().unwrap();
    let id = VendaService::create_venda(
        &mut db,
        &sale("2024-06-01T10:00:00", 100, 0, 0),
        vec![item("A", 2, 25), item("B", 1, 50)],
        vec![payment("01", 100)],
    )
    .unwrap();
    VendaService::cancel_venda(
        &mut db,
        id,
        "CFe-canc".to_string(),
        "2024-06-01T10:05:00".to_string(),
        Some("/tmp/canc.xml".to_string()),
        1_717_236_300_000,
    )
    .unwrap();
    let v = VendaService::find_by_id(&db, id).unwrap().unwrap();
    assert!(v.cancelled);
    assert_eq!(v.chave_canc, Some("CFe-canc".to_string()));
    assert_eq!(v.dh_emi_canc, Some("2024-06-01T10:05:00".to_string()));
    assert_eq!(v.cancel_file_path, Some("/tmp/canc.xml".to_string()));
    assert_eq!(v.updated_at, 1_717_236_300_000);
    assert_eq!(v.total, 100);
    assert_eq!(VendaService::find_items_by_venda_id(&db, id).unwrap().len(), 2);
    assert_eq!(VendaService::find_payments_by_venda_id(&db, id).unwrap().len(), 1);
    let s = VendaService::get_resumo_by_interval(&db, day("2024-06-01"), day("2024-06-01")).unwrap();
    assert_eq!((s.total_vendas, s.total_valor, s.total_canceladas), (1, 100, 1));
}

#[test]
fn cancelling_an_unknown_sale_is_not_found() {
    let mut db = SqliteDbService::new_in_memory().unwrap();
    let r = VendaService::cancel_venda(&mut db, 7, "k".to_string(), "t".to_string(), None, 0);
    assert_eq!(r, Err(LedgerError::NotFound));
    db.drop_table(Table::Venda);
    let r = VendaService::cancel_venda(&mut db, 7, "k".to_string(), "t".to_string(), None, 0);
    assert_eq!(
        r,
        Err(LedgerError::StorageFailure(Operation::CancelVenda, StoreFault::MissingTable(Table::Venda)))
    );
}

#[test]
fn empty_interval_summary_is_all_zero() {
    let mut db = SqliteDbService::new_in_memory().unwrap();
    VendaService::create_venda(&mut db, &sale("2024-06-01T10:00:00", 100, 10, 5), vec![], vec![]).unwrap();
    let s = VendaService::get_resumo_by_interval(&db, day("2025-01-01"), day("2025-01-31")).unwrap();
    assert_eq!(
        s,
        VendaResumo {
            total_vendas: 0,
            total_valor: 0,
            total_desconto: 0,
            total_acrescimo: 0,
            total_canceladas: 0,
        }
    );
}

#[test]
fn summary_sums_every_figure() {
    let mut db = SqliteDbService::new_in_memory().unwrap();
    VendaService::create_venda(&mut db, &sale("2024-06-01T10:00:00", i64::MAX, 10, 5), vec![], vec![]).unwrap();
    VendaService::create_venda(&mut db, &sale("2024-06-02T10:00:00", i64::MAX, 1, 2), vec![], vec![]).unwrap();
    let s = VendaService::get_resumo_by_interval(&db, day("2024-06-01"), day("2024-06-30")).unwrap();
    assert_eq!(s.total_vendas, 2);
    assert_eq!(s.total_valor, 2 * (i64::MAX as i128));
    assert_eq!((s.total_desconto, s.total_acrescimo), (11, 7));
}
