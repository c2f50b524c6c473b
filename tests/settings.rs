use rabbit_ledger::{
    ConfigEntity, ConfigService, CreateOrUpdateConfigDto, CreateOrUpdateConfigUseCase,
    GetFirstConfigUseCase, LedgerError, SqliteDbService, UpdatePercentConfigDto,
    UpdatePercentUseCase,
};

fn empty_change() -> CreateOrUpdateConfigDto {
    CreateOrUpdateConfigDto {
        id: None,
        flow_base_url: None,
        code_uf: None,
        nserie_sat: None,
        nserie_sat_nao: None,
        nr_nf_sim: None,
        nr_nf_nao: None,
        sign_ac: None,
        regime_tributario: None,
        cnpj: None,
        name: None,
        short_name: None,
        zipcode: None,
        address_name: None,
        address_number: None,
        address_city: None,
        address_city_code: None,
        tipo_ambiente: None,
        address_cpl: None,
        address_neiborhood: None,
        address_state: None,
        fone: None,
        percent_s: None,
        only_money: None,
        error_as_success: None,
        ie: None,
        pagamentos: None,
        ignore_cpf: None,
        numero_caixa: None,
        emitir_l: None,
        habilitar_contador: None,
        habilitar_contador_nao: None,
        controle_estoque: None,
        modelo: None,
    }
}

#[test]
fn default_settings() {
    let c = ConfigEntity::default();
    assert_eq!(c.id, "default");
    assert_eq!(c.code_uf, 35);
    assert_eq!(c.cnpj, "28095955000199");
    assert_eq!(c.address_city, "São Paulo");
    assert_eq!(c.address_neiborhood, "Consolação");
    assert_eq!(c.percent_s, 50);
    assert_eq!(c.modelo, 59);
    assert_eq!(c.fone, None);
}

#[test]
fn first_update_stores_the_default_settings_with_the_changes() {
    let mut db = SqliteDbService::new_in_memory().unwrap();
    assert_eq!(GetFirstConfigUseCase::execute(&db).unwrap().map(|c| c.id), None);
    let mut change = empty_change();
    change.name = Some("Padaria".to_string());
    change.fone = Some("1133334444".to_string());
    change.code_uf = Some(33);
    let c = CreateOrUpdateConfigUseCase::execute(&mut db, change, 1_700_000_000).unwrap();
    assert_eq!(c.id, "default");
    assert_eq!(c.name, "Padaria");
    assert_eq!(c.fone, Some("1133334444".to_string()));
    assert_eq!(c.code_uf, 33);
    assert_eq!(c.cnpj, "28095955000199");
    assert_eq!(c.updated_at, 1_700_000_000);
    let stored = GetFirstConfigUseCase::execute(&db).unwrap().unwrap();
    assert_eq!(stored.name, "Padaria");
}

#[test]
fn later_updates_keep_what_is_not_given() {
    let mut db = SqliteDbService::new_in_memory().unwrap();
    let mut change = empty_change();
    change.name = Some("Padaria".to_string());
    CreateOrUpdateConfigUseCase::execute(&mut db, change, 100).unwrap();
    let mut change = empty_change();
    change.zipcode = Some("01311000".to_string());
    let c = CreateOrUpdateConfigUseCase::execute(&mut db, change, 200).unwrap();
    assert_eq!((c.name.as_str(), c.zipcode.as_str(), c.updated_at), ("Padaria", "01311000", 200));
    assert_eq!(ConfigService::find_all(&db).unwrap().len(), 1);
}

#[test]
fn percent_update_needs_stored_settings() {
    let mut db = SqliteDbService::new_in_memory().unwrap();
    let r = UpdatePercentUseCase::execute(&mut db, UpdatePercentConfigDto { percent_s: 70 }, 5);
    assert_eq!(r.map(|c| c.percent_s), Err(LedgerError::NotFound));
    CreateOrUpdateConfigUseCase::execute(&mut db, empty_change(), 1).unwrap();
    let c = UpdatePercentUseCase::execute(&mut db, UpdatePercentConfigDto { percent_s: 70 }, 5).unwrap();
    assert_eq!((c.percent_s, c.updated_at), (70, 5));
    assert_eq!(GetFirstConfigUseCase::execute(&db).unwrap().unwrap().percent_s, 70);
}

#[test]
fn deleting_settings_removes_only_that_row() {
    let mut db = SqliteDbService::new_in_memory().unwrap();
    let mut a = ConfigEntity::default();
    a.id = "a".to_string();
    let mut b = ConfigEntity::default();
    b.id = "b".to_string();
    ConfigService::save(&mut db, &a).unwrap();
    ConfigService::save(&mut db, &b).unwrap();
    ConfigService::delete_by_id(&mut db, "a").unwrap();
    let all = ConfigService::find_all(&db).unwrap();
    assert_eq!(all.len(), 1);
    assert_eq!(all[0].id, "b");
    assert!(ConfigService::find_by_id(&db, "a").unwrap().is_none());
}
