use vstd::prelude::*;
use crate::config::{
    all_but_configs_kept, apply_changes, config_saved, config_with_id, is_default_config, merged,
    ConfigEntity, ConfigService, CreateOrUpdateConfigDto, UpdatePercentConfigDto,
};
use crate::store::{LedgerError, Operation, SqliteDbService, StoreFault, Table};

verus! {

/// The identifier of the settings that the point of sale uses.
pub open spec fn default_id() -> Seq<char> {
    seq!['d', 'e', 'f', 'a', 'u', 'l', 't']
}

fn default_id_string() -> (r: String)
    ensures
        r@ == default_id(),
{
    let r = String::from_str("default");
    proof {
        reveal_strlit("default");
    }
    assert(r@ =~= default_id());
    r
}

pub struct GetFirstConfigUseCase;

impl GetFirstConfigUseCase {
    /// The settings that the point of sale uses: those with identifier
    /// `default`, if stored.
    pub fn execute(db: &SqliteDbService) -> (r: Result<Option<ConfigEntity>, LedgerError>)
        requires
            db.wf(),
        ensures
            r is Err <==> !db.tables@.contains(Table::Config),
            r matches Err(e) ==> e == LedgerError::StorageFailure(Operation::FindConfig, StoreFault::MissingTable(Table::Config)),
            r matches Ok(c) ==> c == config_with_id(db.configs@, default_id()),
    {
        let id = default_id_string();
        ConfigService::find_by_id(db, id.as_str())
    }
}

/// What creating or updating settings stores and returns: the stored
/// settings with the identifier asked for (`default` where none is), or else
/// the settings a point of sale starts with, with the given fields replaced
/// and `now` as their update time. Settings whose identifier is empty take
/// the identifier asked for and `now` as their creation time.
pub open spec fn upsert_outcome(
    rows: Seq<ConfigEntity>,
    dto: CreateOrUpdateConfigDto,
    now: i64,
    c: ConfigEntity,
) -> bool {
    let id = match dto.id {
        Some(i) => i@,
        None => default_id(),
    };
    exists|base: ConfigEntity|
        {
            &&& match config_with_id(rows, id) {
                Some(stored) => base == stored,
                None => is_default_config(base),
            }
            &&& merged(c, base, dto)
            &&& c.updated_at == now
            &&& base.id@.len() == 0 ==> c.id@ == id && c.created_at == now
            &&& base.id@.len() != 0 ==> c.id == base.id && c.created_at == base.created_at
        }
}

pub struct CreateOrUpdateConfigUseCase;

impl CreateOrUpdateConfigUseCase {
    /// Creates or updates settings from `dto` at time `now`, in seconds since
    /// the Unix epoch, and returns what was stored.
    pub fn execute(db: &mut SqliteDbService, dto: CreateOrUpdateConfigDto, now: i64) -> (r: Result<
        ConfigEntity,
        LedgerError,
    >)
        requires
            old(db).wf(),
        ensures
            final(db).wf(),
            all_but_configs_kept(*final(db), *old(db)),
            r is Err <==> !old(db).tables@.contains(Table::Config),
            r matches Err(e) ==> e == LedgerError::StorageFailure(Operation::FindConfig, StoreFault::MissingTable(Table::Config))
                && final(db).configs@ == old(db).configs@,
            r matches Ok(c) ==> upsert_outcome(old(db).configs@, dto, now, c) && final(db).configs@
                == config_saved(old(db).configs@, c),
    {
        let id = match &dto.id {
            Some(i) => i.clone(),
            None => default_id_string(),
        };
        let existing = ConfigService::find_by_id(db, id.as_str())?;
        let base = match existing {
            Some(c) => c,
            None => ConfigEntity::default(),
        };
        let ghost b = base;
        let ghost d = dto;
        let mut config = apply_changes(base, dto);
        config.updated_at = now;
        if config.id.as_str().is_empty() {
            config.id = id;
            config.created_at = now;
        }
        assert(merged(config, b, d));
        let r = ConfigService::save(db, &config);
        assert(r is Ok);
        r
    }
}

pub struct UpdatePercentUseCase;

impl UpdatePercentUseCase {
    /// Sets the settled share of the settings that the point of sale uses,
    /// at time `now`, in seconds since the Unix epoch. Fails with `NotFound`
    /// where those settings are not stored.
    pub fn execute(db: &mut SqliteDbService, dto: UpdatePercentConfigDto, now: i64) -> (r: Result<
        ConfigEntity,
        LedgerError,
    >)
        requires
            old(db).wf(),
        ensures
            final(db).wf(),
            all_but_configs_kept(*final(db), *old(db)),
            !old(db).tables@.contains(Table::Config) ==> r == Err::<ConfigEntity, LedgerError>(
                LedgerError::StorageFailure(Operation::FindConfig, StoreFault::MissingTable(Table::Config)),
            ),
            old(db).tables@.contains(Table::Config) && config_with_id(old(db).configs@, default_id())
                is None ==> r == Err::<ConfigEntity, LedgerError>(LedgerError::NotFound),
            r is Ok <==> old(db).tables@.contains(Table::Config) && config_with_id(old(db).configs@, default_id()) is Some,
            r is Err ==> final(db).configs@ == old(db).configs@,
            r matches Ok(c) ==> (config_with_id(old(db).configs@, default_id()) matches Some(stored)
                && c == ConfigEntity { percent_s: dto.percent_s, updated_at: now, ..stored }
                && final(db).configs@ == config_saved(old(db).configs@, c)),
    {
        let id = default_id_string();
        let mut config = match ConfigService::find_by_id(db, id.as_str())? {
            Some(c) => c,
            None => {
                return Err(LedgerError::NotFound);
            },
        };
        config.percent_s = dto.percent_s;
        config.updated_at = now;
        let r = ConfigService::save(db, &config);
        assert(r is Ok);
        r
    }
}

} // verus!
