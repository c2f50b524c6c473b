use vstd::prelude::*;
use crate::entities::copy_text;
use crate::store::{LedgerError, Operation, SqliteDbService, StoreFault, Table, configs_wf};

verus! {

/// The settings of the point of sale: one row per identifier.
#[derive(Debug, Clone)]
pub struct ConfigEntity {
    pub id: String,
    pub flow_base_url: String,
    pub code_uf: i32,
    pub nserie_sat: String,
    pub nserie_sat_nao: Option<String>,
    pub nr_nf_sim: i32,
    pub nr_nf_nao: i32,
    pub sign_ac: Option<String>,
    pub regime_tributario: String,
    pub cnpj: String,
    pub name: String,
    pub short_name: Option<String>,
    pub zipcode: String,
    pub address_name: String,
    pub address_number: String,
    pub address_city: String,
    pub address_city_code: Option<String>,
    pub tipo_ambiente: String,
    pub address_cpl: Option<String>,
    pub address_neiborhood: String,
    pub address_state: String,
    pub fone: Option<String>,
    pub created_at: i64,
    pub updated_at: i64,
    pub percent_s: i32,
    pub only_money: i32,
    pub error_as_success: i32,
    pub ie: Option<String>,
    pub pagamentos: Option<String>,
    pub ignore_cpf: i32,
    pub numero_caixa: i32,
    pub emitir_l: i32,
    pub habilitar_contador: i32,
    pub habilitar_contador_nao: i32,
    pub controle_estoque: i32,
    pub modelo: i32,
}

/// `c` holds the settings that a new point of sale starts with.
pub open spec fn is_default_config(c: ConfigEntity) -> bool {
    &&& c.id@ == "default"@
    &&& c.flow_base_url@ == ""@
    &&& c.code_uf == 35
    &&& c.nserie_sat@ == "123456789"@
    &&& c.nserie_sat_nao is None
    &&& c.nr_nf_sim == 0
    &&& c.nr_nf_nao == 0
    &&& c.sign_ac is None
    &&& c.regime_tributario@ == "1"@
    &&& c.cnpj@ == "28095955000199"@
    &&& c.name@ == "EMPRESA TESTE"@
    &&& c.short_name is None
    &&& c.zipcode@ == "00000000"@
    &&& c.address_name@ == "AV Paulista"@
    &&& c.address_number@ == "2000"@
    &&& c.address_city@ == "São Paulo"@
    &&& c.address_city_code is None
    &&& c.tipo_ambiente@ == "1"@
    &&& c.address_cpl is None
    &&& c.address_neiborhood@ == "Consolação"@
    &&& c.address_state@ == "SP"@
    &&& c.fone is None
    &&& c.created_at == 0
    &&& c.updated_at == 0
    &&& c.percent_s == 50
    &&& c.only_money == 0
    &&& c.error_as_success == 0
    &&& c.ie is None
    &&& c.pagamentos is None
    &&& c.ignore_cpf == 0
    &&& c.numero_caixa == 0
    &&& c.emitir_l == 0
    &&& c.habilitar_contador == 0
    &&& c.habilitar_contador_nao == 0
    &&& c.controle_estoque == 0
    &&& c.modelo == 59
}

impl Default for ConfigEntity {
    /// The settings that a new point of sale starts with.
    fn default() -> (r: ConfigEntity)
        ensures
            is_default_config(r),
    {
        ConfigEntity {
            id: String::from_str("default"),
            flow_base_url: String::from_str(""),
            code_uf: 35,
            nserie_sat: String::from_str("123456789"),
            nserie_sat_nao: None,
            nr_nf_sim: 0,
            nr_nf_nao: 0,
            sign_ac: None,
            regime_tributario: String::from_str("1"),
            cnpj: String::from_str("28095955000199"),
            name: String::from_str("EMPRESA TESTE"),
            short_name: None,
            zipcode: String::from_str("00000000"),
            address_name: String::from_str("AV Paulista"),
            address_number: String::from_str("2000"),
            address_city: String::from_str("São Paulo"),
            address_city_code: None,
            tipo_ambiente: String::from_str("1"),
            address_cpl: None,
            address_neiborhood: String::from_str("Consolação"),
            address_state: String::from_str("SP"),
            fone: None,
            created_at: 0,
            updated_at: 0,
            percent_s: 50,
            only_money: 0,
            error_as_success: 0,
            ie: None,
            pagamentos: None,
            ignore_cpf: 0,
            numero_caixa: 0,
            emitir_l: 0,
            habilitar_contador: 0,
            habilitar_contador_nao: 0,
            controle_estoque: 0,
            modelo: 59,
        }
    }
}

impl ConfigEntity {
    pub fn duplicate(&self) -> (r: ConfigEntity)
        ensures
            r == *self,
    {
        ConfigEntity {
            id: self.id.clone(),
            flow_base_url: self.flow_base_url.clone(),
            code_uf: self.code_uf,
            nserie_sat: self.nserie_sat.clone(),
            nserie_sat_nao: copy_text(&self.nserie_sat_nao),
            nr_nf_sim: self.nr_nf_sim,
            nr_nf_nao: self.nr_nf_nao,
            sign_ac: copy_text(&self.sign_ac),
            regime_tributario: self.regime_tributario.clone(),
            cnpj: self.cnpj.clone(),
            name: self.name.clone(),
            short_name: copy_text(&self.short_name),
            zipcode: self.zipcode.clone(),
            address_name: self.address_name.clone(),
            address_number: self.address_number.clone(),
            address_city: self.address_city.clone(),
            address_city_code: copy_text(&self.address_city_code),
            tipo_ambiente: self.tipo_ambiente.clone(),
            address_cpl: copy_text(&self.address_cpl),
            address_neiborhood: self.address_neiborhood.clone(),
            address_state: self.address_state.clone(),
            fone: copy_text(&self.fone),
            created_at: self.created_at,
            updated_at: self.updated_at,
            percent_s: self.percent_s,
            only_money: self.only_money,
            error_as_success: self.error_as_success,
            ie: copy_text(&self.ie),
            pagamentos: copy_text(&self.pagamentos),
            ignore_cpf: self.ignore_cpf,
            numero_caixa: self.numero_caixa,
            emitir_l: self.emitir_l,
            habilitar_contador: self.habilitar_contador,
            habilitar_contador_nao: self.habilitar_contador_nao,
            controle_estoque: self.controle_estoque,
            modelo: self.modelo,
        }
    }
}

/// A change to the settings: each field that is given replaces the stored
/// one.
#[derive(Debug, Clone)]
pub struct CreateOrUpdateConfigDto {
    pub id: Option<String>,
    pub flow_base_url: Option<String>,
    pub code_uf: Option<i32>,
    pub nserie_sat: Option<String>,
    pub nserie_sat_nao: Option<String>,
    pub nr_nf_sim: Option<i32>,
    pub nr_nf_nao: Option<i32>,
    pub sign_ac: Option<String>,
    pub regime_tributario: Option<String>,
    pub cnpj: Option<String>,
    pub name: Option<String>,
    pub short_name: Option<String>,
    pub zipcode: Option<String>,
    pub address_name: Option<String>,
    pub address_number: Option<String>,
    pub address_city: Option<String>,
    pub address_city_code: Option<String>,
    pub tipo_ambiente: Option<String>,
    pub address_cpl: Option<String>,
    pub address_neiborhood: Option<String>,
    pub address_state: Option<String>,
    pub fone: Option<String>,
    pub percent_s: Option<i32>,
    pub only_money: Option<i32>,
    pub error_as_success: Option<i32>,
    pub ie: Option<String>,
    pub pagamentos: Option<String>,
    pub ignore_cpf: Option<i32>,
    pub numero_caixa: Option<i32>,
    pub emitir_l: Option<i32>,
    pub habilitar_contador: Option<i32>,
    pub habilitar_contador_nao: Option<i32>,
    pub controle_estoque: Option<i32>,
    pub modelo: Option<i32>,
}

/// A change to the share of sales that is settled.
#[derive(Debug, Clone, Copy)]
pub struct UpdatePercentConfigDto {
    pub percent_s: i32,
}

/// `r` is `c` with each field that `dto` gives replaced, all but the
/// identifier and the two times.
pub open spec fn merged(r: ConfigEntity, c: ConfigEntity, dto: CreateOrUpdateConfigDto) -> bool {
    &&& r.flow_base_url == (match dto.flow_base_url { Some(v) => v, None => c.flow_base_url })
    &&& r.code_uf == (match dto.code_uf { Some(v) => v, None => c.code_uf })
    &&& r.nserie_sat == (match dto.nserie_sat { Some(v) => v, None => c.nserie_sat })
    &&& r.nserie_sat_nao == (match dto.nserie_sat_nao { Some(v) => Some(v), None => c.nserie_sat_nao })
    &&& r.nr_nf_sim == (match dto.nr_nf_sim { Some(v) => v, None => c.nr_nf_sim })
    &&& r.nr_nf_nao == (match dto.nr_nf_nao { Some(v) => v, None => c.nr_nf_nao })
    &&& r.sign_ac == (match dto.sign_ac { Some(v) => Some(v), None => c.sign_ac })
    &&& r.regime_tributario == (match dto.regime_tributario { Some(v) => v, None => c.regime_tributario })
    &&& r.cnpj == (match dto.cnpj { Some(v) => v, None => c.cnpj })
    &&& r.name == (match dto.name { Some(v) => v, None => c.name })
    &&& r.short_name == (match dto.short_name { Some(v) => Some(v), None => c.short_name })
    &&& r.zipcode == (match dto.zipcode { Some(v) => v, None => c.zipcode })
    &&& r.address_name == (match dto.address_name { Some(v) => v, None => c.address_name })
    &&& r.address_number == (match dto.address_number { Some(v) => v, None => c.address_number })
    &&& r.address_city == (match dto.address_city { Some(v) => v, None => c.address_city })
    &&& r.address_city_code == (match dto.address_city_code { Some(v) => Some(v), None => c.address_city_code })
    &&& r.tipo_ambiente == (match dto.tipo_ambiente { Some(v) => v, None => c.tipo_ambiente })
    &&& r.address_cpl == (match dto.address_cpl { Some(v) => Some(v), None => c.address_cpl })
    &&& r.address_neiborhood == (match dto.address_neiborhood { Some(v) => v, None => c.address_neiborhood })
    &&& r.address_state == (match dto.address_state { Some(v) => v, None => c.address_state })
    &&& r.fone == (match dto.fone { Some(v) => Some(v), None => c.fone })
    &&& r.percent_s == (match dto.percent_s { Some(v) => v, None => c.percent_s })
    &&& r.only_money == (match dto.only_money { Some(v) => v, None => c.only_money })
    &&& r.error_as_success == (match dto.error_as_success { Some(v) => v, None => c.error_as_success })
    &&& r.ie == (match dto.ie { Some(v) => Some(v), None => c.ie })
    &&& r.pagamentos == (match dto.pagamentos { Some(v) => Some(v), None => c.pagamentos })
    &&& r.ignore_cpf == (match dto.ignore_cpf { Some(v) => v, None => c.ignore_cpf })
    &&& r.numero_caixa == (match dto.numero_caixa { Some(v) => v, None => c.numero_caixa })
    &&& r.emitir_l == (match dto.emitir_l { Some(v) => v, None => c.emitir_l })
    &&& r.habilitar_contador == (match dto.habilitar_contador { Some(v) => v, None => c.habilitar_contador })
    &&& r.habilitar_contador_nao == (match dto.habilitar_contador_nao { Some(v) => v, None => c.habilitar_contador_nao })
    &&& r.controle_estoque == (match dto.controle_estoque { Some(v) => v, None => c.controle_estoque })
    &&& r.modelo == (match dto.modelo { Some(v) => v, None => c.modelo })
}

fn pick<T>(given: Option<T>, current: T) -> (r: T)
    ensures
        r == (match given {
            Some(v) => v,
            None => current,
        }),
{
    match given {
        Some(v) => v,
        None => current,
    }
}

fn pick_opt<T>(given: Option<T>, current: Option<T>) -> (r: Option<T>)
    ensures
        r == (match given {
            Some(v) => Some(v),
            None => current,
        }),
{
    match given {
        Some(v) => Some(v),
        None => current,
    }
}

/// `c` with each field that `dto` gives replaced.
pub fn apply_changes(c: ConfigEntity, dto: CreateOrUpdateConfigDto) -> (r: ConfigEntity)
    ensures
        merged(r, c, dto),
        r.id == c.id,
        r.created_at == c.created_at,
        r.updated_at == c.updated_at,
{
    ConfigEntity {
        id: c.id,
        flow_base_url: pick(dto.flow_base_url, c.flow_base_url),
        code_uf: pick(dto.code_uf, c.code_uf),
        nserie_sat: pick(dto.nserie_sat, c.nserie_sat),
        nserie_sat_nao: pick_opt(dto.nserie_sat_nao, c.nserie_sat_nao),
        nr_nf_sim: pick(dto.nr_nf_sim, c.nr_nf_sim),
        nr_nf_nao: pick(dto.nr_nf_nao, c.nr_nf_nao),
        sign_ac: pick_opt(dto.sign_ac, c.sign_ac),
        regime_tributario: pick(dto.regime_tributario, c.regime_tributario),
        cnpj: pick(dto.cnpj, c.cnpj),
        name: pick(dto.name, c.name),
        short_name: pick_opt(dto.short_name, c.short_name),
        zipcode: pick(dto.zipcode, c.zipcode),
        address_name: pick(dto.address_name, c.address_name),
        address_number: pick(dto.address_number, c.address_number),
        address_city: pick(dto.address_city, c.address_city),
        address_city_code: pick_opt(dto.address_city_code, c.address_city_code),
        tipo_ambiente: pick(dto.tipo_ambiente, c.tipo_ambiente),
        address_cpl: pick_opt(dto.address_cpl, c.address_cpl),
        address_neiborhood: pick(dto.address_neiborhood, c.address_neiborhood),
        address_state: pick(dto.address_state, c.address_state),
        fone: pick_opt(dto.fone, c.fone),
        created_at: c.created_at,
        updated_at: c.updated_at,
        percent_s: pick(dto.percent_s, c.percent_s),
        only_money: pick(dto.only_money, c.only_money),
        error_as_success: pick(dto.error_as_success, c.error_as_success),
        ie: pick_opt(dto.ie, c.ie),
        pagamentos: pick_opt(dto.pagamentos, c.pagamentos),
        ignore_cpf: pick(dto.ignore_cpf, c.ignore_cpf),
        numero_caixa: pick(dto.numero_caixa, c.numero_caixa),
        emitir_l: pick(dto.emitir_l, c.emitir_l),
        habilitar_contador: pick(dto.habilitar_contador, c.habilitar_contador),
        habilitar_contador_nao: pick(dto.habilitar_contador_nao, c.habilitar_contador_nao),
        controle_estoque: pick(dto.controle_estoque, c.controle_estoque),
        modelo: pick(dto.modelo, c.modelo),
    }
}

/// `rows` with `c` stored: in place of the row with its identifier, whose
/// creation time it keeps, or last.
pub open spec fn config_saved(rows: Seq<ConfigEntity>, c: ConfigEntity) -> Seq<ConfigEntity> {
    if exists|k: int| 0 <= k < rows.len() && (#[trigger] rows[k]).id@ == c.id@ {
        let k = choose|k: int| 0 <= k < rows.len() && (#[trigger] rows[k]).id@ == c.id@;
        rows.update(k, ConfigEntity { created_at: rows[k].created_at, ..c })
    } else {
        rows.push(c)
    }
}

/// The stored settings with identifier `id`, if any.
pub open spec fn config_with_id(rows: Seq<ConfigEntity>, id: Seq<char>) -> Option<ConfigEntity> {
    if exists|k: int| 0 <= k < rows.len() && (#[trigger] rows[k]).id@ == id {
        Some(rows[choose|k: int| 0 <= k < rows.len() && (#[trigger] rows[k]).id@ == id])
    } else {
        None
    }
}

/// Everything but the settings is as it was.
pub open spec fn all_but_configs_kept(after: SqliteDbService, before: SqliteDbService) -> bool {
    &&& after.tables@ == before.tables@ && after.indexes@ == before.indexes@
    &&& after.vendas@ == before.vendas@ && after.resumes@ == before.resumes@
    &&& after.db_path == before.db_path
    &&& after.next_venda_id == before.next_venda_id && after.next_item_id == before.next_item_id
    &&& after.next_payment_id == before.next_payment_id
}

/// `rows` without the settings whose identifier is `id`.
pub open spec fn configs_without(rows: Seq<ConfigEntity>, id: Seq<char>) -> Seq<ConfigEntity>
    decreases rows.len(),
{
    if rows.len() == 0 {
        rows
    } else {
        let before = configs_without(rows.drop_last(), id);
        if rows.last().id@ != id {
            before.push(rows.last())
        } else {
            before
        }
    }
}

pub struct ConfigService;

impl ConfigService {
    fn need_configs(db: &SqliteDbService, op: Operation) -> (r: Result<(), LedgerError>)
        ensures
            r is Ok <==> db.tables@.contains(Table::Config),
            r matches Err(e) ==> e == LedgerError::StorageFailure(op, StoreFault::MissingTable(Table::Config)),
    {
        if db.has_table(Table::Config) {
            Ok(())
        } else {
            Err(LedgerError::StorageFailure(op, StoreFault::MissingTable(Table::Config)))
        }
    }

    fn position_of(db: &SqliteDbService, id: &String) -> (r: Option<usize>)
        requires
            db.wf(),
        ensures
            r matches Some(k) ==> k < db.configs@.len() && db.configs@[k as int].id@ == id@
                && config_with_id(db.configs@, id@) == Some(db.configs@[k as int]),
            r is None ==> forall|k: int| 0 <= k < db.configs@.len() ==> (#[trigger] db.configs@[k]).id@ != id@,
            r is None ==> config_with_id(db.configs@, id@) is None,
    {
        let mut k: usize = 0;
        while k < db.configs.len()
            invariant
                db.wf(),
                k <= db.configs@.len(),
                forall|m: int| 0 <= m < k ==> (#[trigger] db.configs@[m]).id@ != id@,
            decreases db.configs@.len() - k,
        {
            if db.configs[k].id == *id {
                proof {
                    let c = choose|c: int| 0 <= c < db.configs@.len() && (#[trigger] db.configs@[c]).id@ == id@;
                    if c != k {
                        assert(db.configs@[c].id@ != db.configs@[k as int].id@);
                    }
                }
                return Some(k);
            }
            k = k + 1;
        }
        None
    }

    /// The settings with identifier `id`, if stored.
    pub fn find_by_id(db: &SqliteDbService, id: &str) -> (r: Result<Option<ConfigEntity>, LedgerError>)
        requires
            db.wf(),
        ensures
            r is Err <==> !db.tables@.contains(Table::Config),
            r matches Err(e) ==> e == LedgerError::StorageFailure(Operation::FindConfig, StoreFault::MissingTable(Table::Config)),
            r matches Ok(c) ==> c == config_with_id(db.configs@, id@),
    {
        Self::need_configs(db, Operation::FindConfig)?;
        let key = String::from_str(id);
        match Self::position_of(db, &key) {
            Some(k) => Ok(Some(db.configs[k].duplicate())),
            None => Ok(None),
        }
    }

    /// Stores `config` in place of the settings with its identifier, whose
    /// creation time is kept, or as new settings; returns `config`.
    pub fn save(db: &mut SqliteDbService, config: &ConfigEntity) -> (r: Result<ConfigEntity, LedgerError>)
        requires
            old(db).wf(),
        ensures
            final(db).wf(),
            all_but_configs_kept(*final(db), *old(db)),
            r is Err <==> !old(db).tables@.contains(Table::Config),
            r matches Err(e) ==> e == LedgerError::StorageFailure(Operation::SaveConfig, StoreFault::MissingTable(Table::Config))
                && final(db).configs@ == old(db).configs@,
            r matches Ok(c) ==> c == *config && final(db).configs@ == config_saved(old(db).configs@, *config),
    {
        Self::need_configs(db, Operation::SaveConfig)?;
        let ghost rows = db.configs@;
        match Self::position_of(db, &config.id) {
            Some(k) => {
                let created_at = db.configs[k].created_at;
                let mut c = config.duplicate();
                c.created_at = created_at;
                db.configs.remove(k);
                db.configs.insert(k, c);
                proof {
                    let ch = choose|m: int| 0 <= m < rows.len() && (#[trigger] rows[m]).id@ == config.id@;
                    if ch != k {
                        assert(rows[ch].id@ != rows[k as int].id@);
                    }
                    assert(db.configs@ =~= config_saved(rows, *config));
                    assert forall|a: int, b: int|
                        0 <= a < db.configs@.len() && 0 <= b < db.configs@.len() && a != b implies (#[trigger] db.configs@[a]).id@
                            != (#[trigger] db.configs@[b]).id@ by {
                        if a != k && b != k {
                            assert(rows[a].id@ != rows[b].id@);
                        } else if a == k {
                            assert(rows[b].id@ != rows[k as int].id@);
                        } else {
                            assert(rows[a].id@ != rows[k as int].id@);
                        }
                    }
                }
            },
            None => {
                db.configs.push(config.duplicate());
                proof {
                    assert forall|a: int, b: int|
                        0 <= a < db.configs@.len() && 0 <= b < db.configs@.len() && a != b implies (#[trigger] db.configs@[a]).id@
                            != (#[trigger] db.configs@[b]).id@ by {
                        if a < rows.len() && b < rows.len() {
                            assert(rows[a].id@ != rows[b].id@);
                        } else if a == rows.len() {
                            assert(rows[b].id@ != config.id@);
                        } else {
                            assert(rows[a].id@ != config.id@);
                        }
                    }
                }
            },
        }
        Ok(config.duplicate())
    }

    /// All stored settings, in the order they were first stored.
    pub fn find_all(db: &SqliteDbService) -> (r: Result<Vec<ConfigEntity>, LedgerError>)
        requires
            db.wf(),
        ensures
            r is Err <==> !db.tables@.contains(Table::Config),
            r matches Err(e) ==> e == LedgerError::StorageFailure(Operation::FindConfig, StoreFault::MissingTable(Table::Config)),
            r matches Ok(v) ==> v@ == db.configs@,
    {
        Self::need_configs(db, Operation::FindConfig)?;
        let mut out: Vec<ConfigEntity> = Vec::new();
        let mut k: usize = 0;
        while k < db.configs.len()
            invariant
                k <= db.configs@.len(),
                out@ == db.configs@.subrange(0, k as int),
            decreases db.configs@.len() - k,
        {
            out.push(db.configs[k].duplicate());
            k = k + 1;
            assert(out@ =~= db.configs@.subrange(0, k as int));
        }
        assert(out@ =~= db.configs@);
        Ok(out)
    }

    /// Removes the settings with identifier `id`, if stored.
    pub fn delete_by_id(db: &mut SqliteDbService, id: &str) -> (r: Result<(), LedgerError>)
        requires
            old(db).wf(),
        ensures
            final(db).wf(),
            all_but_configs_kept(*final(db), *old(db)),
            r is Err <==> !old(db).tables@.contains(Table::Config),
            r matches Err(e) ==> e == LedgerError::StorageFailure(Operation::DeleteConfig, StoreFault::MissingTable(Table::Config)),
            r is Err ==> final(db).configs@ == old(db).configs@,
            r is Ok ==> final(db).configs@ == configs_without(old(db).configs@, id@),
    {
        Self::need_configs(db, Operation::DeleteConfig)?;
        let key = String::from_str(id);
        let ghost rows = db.configs@;
        match Self::position_of(db, &key) {
            Some(k) => {
                db.configs.remove(k);
                proof {
                    lemma_filter_drops_one(rows, id@, k as int);
                    assert forall|a: int, b: int|
                        0 <= a < db.configs@.len() && 0 <= b < db.configs@.len() && a != b implies (#[trigger] db.configs@[a]).id@
                            != (#[trigger] db.configs@[b]).id@ by {
                        let a2 = if a < k { a } else { a + 1 };
                        let b2 = if b < k { b } else { b + 1 };
                        assert(db.configs@[a] == rows[a2] && db.configs@[b] == rows[b2]);
                        assert(rows[a2].id@ != rows[b2].id@);
                    }
                }
            },
            None => {
                proof {
                    lemma_filter_keeps_all(rows, id@);
                }
            },
        }
        Ok(())
    }
}

proof fn lemma_filter_keeps_all(rows: Seq<ConfigEntity>, id: Seq<char>)
    requires
        forall|k: int| 0 <= k < rows.len() ==> (#[trigger] rows[k]).id@ != id,
    ensures
        configs_without(rows, id) == rows,
    decreases rows.len(),
{
    if rows.len() > 0 {
        let w = rows.drop_last();
        assert forall|k: int| 0 <= k < w.len() implies (#[trigger] w[k]).id@ != id by {
            assert(w[k] == rows[k]);
        }
        lemma_filter_keeps_all(w, id);
        assert(w.push(rows.last()) =~= rows);
    }
}

proof fn lemma_filter_drops_one(rows: Seq<ConfigEntity>, id: Seq<char>, k: int)
    requires
        0 <= k < rows.len(),
        rows[k].id@ == id,
        configs_wf(rows),
    ensures
        configs_without(rows, id) == rows.remove(k),
    decreases rows.len(),
{
    let w = rows.drop_last();
    assert(w.push(rows.last()) =~= rows);
    assert(configs_wf(w)) by {
        assert forall|a: int, b: int| 0 <= a < w.len() && 0 <= b < w.len() && a != b implies (#[trigger] w[a]).id@
            != (#[trigger] w[b]).id@ by {
            assert(rows[a].id@ != rows[b].id@);
        }
    }
    if k == rows.len() - 1 {
        assert forall|m: int| 0 <= m < w.len() implies (#[trigger] w[m]).id@ != id by {
            assert(rows[m].id@ != rows[k].id@);
        }
        lemma_filter_keeps_all(w, id);
        assert(rows.remove(k) =~= w);
    } else {
        lemma_filter_drops_one(w, id, k);
        assert(rows.last().id@ != id) by {
            assert(rows[rows.len() - 1].id@ != rows[k].id@);
        }
        assert(w.remove(k).push(rows.last()) =~= rows.remove(k));
    }
}

} // verus!
