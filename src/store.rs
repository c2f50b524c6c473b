use vstd::prelude::*;
use crate::config::ConfigEntity;
use crate::entities::{ResumeEntity, VendaWithRelations};

verus! {

/// The tables of the store.
#[derive(Debug, Clone, Copy, PartialEq, Eq, Structural)]
pub enum Table {
    Config,
    Resume,
    History,
    Product,
    Venda,
    VendaItem,
    VendaPagamento,
}

/// The secondary indexes of the store.
#[derive(Debug, Clone, Copy, PartialEq, Eq, Structural)]
pub enum Index {
    ProductBarcode,
    VendaStatus,
    VendaItemVendaId,
    VendaPagamentoVendaId,
}

/// The operation that was under way when the store failed.
#[derive(Debug, Clone, Copy, PartialEq, Eq, Structural)]
pub enum Operation {
    InsertVenda,
    InsertItem,
    InsertPayment,
    FindVenda,
    FindItems,
    FindPayments,
    QueryInterval,
    Summary,
    CancelVenda,
    QueryResumes,
    SaveResume,
    UpdateResume,
    DeleteResumes,
    FindConfig,
    SaveConfig,
    DeleteConfig,
}

/// Why the store refused a statement.
#[derive(Debug, Clone, Copy, PartialEq, Eq, Structural)]
pub enum StoreFault {
    /// The table does not exist: the schema was not applied, or was dropped.
    MissingTable(Table),
    /// The table has used up its identifiers.
    IdsExhausted(Table),
    /// A stored amount would leave the range of a 64-bit integer.
    Overflow,
}

#[derive(Debug, Clone, Copy, PartialEq, Eq, Structural)]
pub enum LedgerError {
    /// No row has the given key.
    NotFound,
    /// A statement failed; nothing was changed.
    StorageFailure(Operation, StoreFault),
    /// A statement of an atomic write failed, and the whole write was rolled
    /// back.
    TransactionFailure(Operation, StoreFault),
    /// The store's location or schema could not be set up.
    InitializationFailure,
}

/// Where the store lives, and the directory to create for it.
#[derive(Debug, Clone, PartialEq, Eq)]
pub enum StoreLocation {
    /// A path that the operator chose; its parent directory is to be created.
    Custom(String),
    /// A file in the `sqlite` folder of the user's data directory.
    AppData { dir: String, path: String },
    /// A file in the working directory.
    WorkingDir(String),
}

/// The tables that the schema creates, in the order it creates them.
pub open spec fn schema_tables() -> Seq<Table> {
    seq![
        Table::Config,
        Table::Resume,
        Table::History,
        Table::Product,
        Table::Venda,
        Table::VendaItem,
        Table::VendaPagamento,
    ]
}

pub open spec fn schema_indexes() -> Seq<Index> {
    seq![
        Index::ProductBarcode,
        Index::VendaStatus,
        Index::VendaItemVendaId,
        Index::VendaPagamentoVendaId,
    ]
}

/// `have` with each of `wanted` that it lacks added at the end, in order:
/// what "create if not exists" does.
pub open spec fn add_missing<A>(have: Seq<A>, wanted: Seq<A>) -> Seq<A>
    decreases wanted.len(),
{
    if wanted.len() == 0 {
        have
    } else {
        let before = add_missing(have, wanted.drop_last());
        if before.contains(wanted.last()) {
            before
        } else {
            before.push(wanted.last())
        }
    }
}

pub open spec fn id_of(v: Option<i64>) -> int {
    match v {
        Some(i) => i as int,
        None => 0,
    }
}

/// Each sale has an identifier below `next`, in increasing order, and a
/// valid emission time.
pub open spec fn vendas_wf(vendas: Seq<VendaWithRelations>, next: i64) -> bool {
    &&& forall|k: int|
        0 <= k < vendas.len() ==> {
            &&& (#[trigger] vendas[k]).venda.id is Some
            &&& 1 <= id_of(vendas[k].venda.id) < next
            &&& vendas[k].venda.dh_emi.wf()
        }
    &&& forall|a: int, b: int|
        0 <= a < b < vendas.len() ==> id_of((#[trigger] vendas[a]).venda.id) < id_of(
            (#[trigger] vendas[b]).venda.id,
        )
}

/// Each line carries its sale's identifier and an identifier of its own below
/// `next`, and no two lines share one.
pub open spec fn items_wf(vendas: Seq<VendaWithRelations>, next: i64) -> bool {
    &&& forall|k: int, j: int|
        0 <= k < vendas.len() && 0 <= j < vendas[k].itens@.len() ==> {
            &&& (#[trigger] vendas[k].itens@[j]).id is Some
            &&& 1 <= id_of(vendas[k].itens@[j].id) < next
            &&& vendas[k].itens@[j].venda_id == id_of(vendas[k].venda.id)
        }
    &&& forall|k1: int, j1: int, k2: int, j2: int|
        0 <= k1 < vendas.len() && 0 <= j1 < vendas[k1].itens@.len() && 0 <= k2 < vendas.len()
            && 0 <= j2 < vendas[k2].itens@.len() && (k1 != k2 || j1 != j2) ==> id_of(
            (#[trigger] vendas[k1].itens@[j1]).id,
        ) != id_of((#[trigger] vendas[k2].itens@[j2]).id)
}

pub open spec fn payments_wf(vendas: Seq<VendaWithRelations>, next: i64) -> bool {
    &&& forall|k: int, j: int|
        0 <= k < vendas.len() && 0 <= j < vendas[k].pagamentos@.len() ==> {
            &&& (#[trigger] vendas[k].pagamentos@[j]).id is Some
            &&& 1 <= id_of(vendas[k].pagamentos@[j].id) < next
            &&& vendas[k].pagamentos@[j].venda_id == id_of(vendas[k].venda.id)
        }
    &&& forall|k1: int, j1: int, k2: int, j2: int|
        0 <= k1 < vendas.len() && 0 <= j1 < vendas[k1].pagamentos@.len() && 0 <= k2
            < vendas.len() && 0 <= j2 < vendas[k2].pagamentos@.len() && (k1 != k2 || j1 != j2)
            ==> id_of((#[trigger] vendas[k1].pagamentos@[j1]).id) != id_of(
            (#[trigger] vendas[k2].pagamentos@[j2]).id,
        )
}

pub open spec fn resumes_wf(resumes: Seq<ResumeEntity>) -> bool {
    forall|a: int, b: int|
        0 <= a < resumes.len() && 0 <= b < resumes.len() && a != b ==> (#[trigger] resumes[a]).id@
            != (#[trigger] resumes[b]).id@
}

pub open spec fn configs_wf(configs: Seq<ConfigEntity>) -> bool {
    forall|a: int, b: int|
        0 <= a < configs.len() && 0 <= b < configs.len() && a != b ==> (#[trigger] configs[a]).id@
            != (#[trigger] configs[b]).id@
}

/// The ledger's relational store: where it lives, the tables and indexes that
/// exist, and the rows of each table. Sales are held with their lines and
/// payments, so that no line or payment exists without its sale.
pub struct SqliteDbService {
    pub db_path: String,
    pub tables: Vec<Table>,
    pub indexes: Vec<Index>,
    pub vendas: Vec<VendaWithRelations>,
    pub resumes: Vec<ResumeEntity>,
    pub configs: Vec<ConfigEntity>,
    pub next_venda_id: i64,
    pub next_item_id: i64,
    pub next_payment_id: i64,
}

impl SqliteDbService {
    pub open spec fn wf(&self) -> bool {
        &&& self.tables@.no_duplicates()
        &&& self.indexes@.no_duplicates()
        &&& 1 <= self.next_venda_id && 1 <= self.next_item_id && 1 <= self.next_payment_id
        &&& vendas_wf(self.vendas@, self.next_venda_id)
        &&& items_wf(self.vendas@, self.next_item_id)
        &&& payments_wf(self.vendas@, self.next_payment_id)
        &&& resumes_wf(self.resumes@)
        &&& configs_wf(self.configs@)
    }

    /// The rows of the store are those of `other`, and so are its location
    /// and the identifiers it will hand out next.
    pub open spec fn same_rows(&self, other: &SqliteDbService) -> bool {
        &&& self.db_path == other.db_path
        &&& self.vendas@ == other.vendas@
        &&& self.resumes@ == other.resumes@
        &&& self.configs@ == other.configs@
        &&& self.next_venda_id == other.next_venda_id
        &&& self.next_item_id == other.next_item_id
        &&& self.next_payment_id == other.next_payment_id
    }

    /// A store at `db_path` with no tables yet.
    pub fn new(db_path: String) -> (r: SqliteDbService)
        ensures
            r.wf(),
            r.db_path == db_path,
            r.tables@.len() == 0 && r.indexes@.len() == 0,
            r.vendas@.len() == 0 && r.resumes@.len() == 0 && r.configs@.len() == 0,
    {
        SqliteDbService {
            db_path,
            tables: Vec::new(),
            indexes: Vec::new(),
            vendas: Vec::new(),
            resumes: Vec::new(),
            configs: Vec::new(),
            next_venda_id: 1,
            next_item_id: 1,
            next_payment_id: 1,
        }
    }

    /// An empty store held in memory, with its schema applied.
    pub fn new_in_memory() -> (r: Result<SqliteDbService, LedgerError>)
        ensures
            r matches Ok(s) && s.wf() && s.db_path@ == ":memory:"@ && s.tables@ == schema_tables()
                && s.indexes@ == schema_indexes() && (forall|t: Table| #[trigger] s.tables@.contains(t))
                && s.vendas@.len() == 0 && s.resumes@.len() == 0 && s.configs@.len() == 0,
    {
        let mut s = SqliteDbService::new(String::from_str(":memory:"));
        assert(s.tables@ =~= Seq::<Table>::empty());
        assert(s.indexes@ =~= Seq::<Index>::empty());
        s.initialize();
        proof {
            lemma_fresh_schema();
            lemma_fresh_indexes();
        }
        Ok(s)
    }

    /// Where the store lives.
    pub fn get_db_path(&self) -> (r: &String)
        ensures
            r == self.db_path,
    {
        &self.db_path
    }

    /// Whether table `t` exists.
    pub fn has_table(&self, t: Table) -> (r: bool)
        ensures
            r == self.tables@.contains(t),
    {
        let mut i: usize = 0;
        while i < self.tables.len()
            invariant
                i <= self.tables@.len(),
                forall|j: int| 0 <= j < i ==> self.tables@[j] != t,
            decreases self.tables@.len() - i,
        {
            if self.tables[i] == t {
                return true;
            }
            i = i + 1;
        }
        false
    }

    pub fn table_count(&self) -> (r: usize)
        ensures
            r == self.tables@.len(),
    {
        self.tables.len()
    }

    /// Applies the schema: creates each table and index that does not exist
    /// yet. Applying it again changes nothing.
    pub fn initialize(&mut self)
        requires
            old(self).wf(),
        ensures
            final(self).wf(),
            final(self).same_rows(old(self)),
            final(self).tables@ == add_missing(old(self).tables@, schema_tables()),
            final(self).indexes@ == add_missing(old(self).indexes@, schema_indexes()),
            forall|t: Table| #[trigger] final(self).tables@.contains(t),
    {
        let wanted = vec![
            Table::Config,
            Table::Resume,
            Table::History,
            Table::Product,
            Table::Venda,
            Table::VendaItem,
            Table::VendaPagamento,
        ];
        assert(wanted@ =~= schema_tables());
        let mut i: usize = 0;
        while i < wanted.len()
            invariant
                wanted@ == schema_tables(),
                i <= wanted@.len(),
                self.wf(),
                self.same_rows(old(self)),
                self.indexes@ == old(self).indexes@,
                self.tables@ == add_missing(old(self).tables@, wanted@.subrange(0, i as int)),
            decreases wanted@.len() - i,
        {
            let t = wanted[i];
            let ghost sub = wanted@.subrange(0, i as int + 1);
            assert(sub.drop_last() =~= wanted@.subrange(0, i as int));
            if !self.has_table(t) {
                self.tables.push(t);
            }
            i = i + 1;
        }
        assert(wanted@.subrange(0, 7) =~= wanted@);
        let wanted_ix = vec![
            Index::ProductBarcode,
            Index::VendaStatus,
            Index::VendaItemVendaId,
            Index::VendaPagamentoVendaId,
        ];
        assert(wanted_ix@ =~= schema_indexes());
        let mut i: usize = 0;
        while i < wanted_ix.len()
            invariant
                wanted_ix@ == schema_indexes(),
                i <= wanted_ix@.len(),
                self.wf(),
                self.same_rows(old(self)),
                self.tables@ == add_missing(old(self).tables@, schema_tables()),
                self.indexes@ == add_missing(old(self).indexes@, wanted_ix@.subrange(0, i as int)),
            decreases wanted_ix@.len() - i,
        {
            let x = wanted_ix[i];
            let ghost sub = wanted_ix@.subrange(0, i as int + 1);
            assert(sub.drop_last() =~= wanted_ix@.subrange(0, i as int));
            if !self.has_index(x) {
                self.indexes.push(x);
            }
            i = i + 1;
        }
        assert(wanted_ix@.subrange(0, 4) =~= wanted_ix@);
        proof {
            lemma_add_missing_contains(old(self).tables@, schema_tables());
            assert forall|t: Table| #[trigger] self.tables@.contains(t) by {
                lemma_schema_has_all(t);
            }
        }
    }

    fn has_index(&self, x: Index) -> (r: bool)
        ensures
            r == self.indexes@.contains(x),
    {
        let mut i: usize = 0;
        while i < self.indexes.len()
            invariant
                i <= self.indexes@.len(),
                forall|j: int| 0 <= j < i ==> self.indexes@[j] != x,
            decreases self.indexes@.len() - i,
        {
            if self.indexes[i] == x {
                return true;
            }
            i = i + 1;
        }
        false
    }

    /// Removes table `t` and every row it holds. Removing the table of sales
    /// removes the sales with their lines and payments; removing the table of
    /// lines or of payments leaves the rows of the sales as they are, which
    /// are then unreadable until the schema is applied again.
    pub fn drop_table(&mut self, t: Table)
        requires
            old(self).wf(),
        ensures
            final(self).wf(),
            final(self).tables@ == old(self).tables@.filter(|x: Table| x != t),
            final(self).indexes@ == old(self).indexes@,
            final(self).db_path == old(self).db_path,
            t == Table::Venda ==> final(self).vendas@.len() == 0,
            t != Table::Venda ==> final(self).vendas@ == old(self).vendas@,
            t == Table::Resume ==> final(self).resumes@.len() == 0,
            t != Table::Resume ==> final(self).resumes@ == old(self).resumes@,
            t == Table::Config ==> final(self).configs@.len() == 0,
            t != Table::Config ==> final(self).configs@ == old(self).configs@,
            final(self).next_venda_id == old(self).next_venda_id,
            final(self).next_item_id == old(self).next_item_id,
            final(self).next_payment_id == old(self).next_payment_id,
    {
        let mut kept: Vec<Table> = Vec::new();
        let mut i: usize = 0;
        while i < self.tables.len()
            invariant
                i <= self.tables@.len(),
                self.tables@.no_duplicates(),
                kept@ == self.tables@.subrange(0, i as int).filter(|x: Table| x != t),
                kept@.no_duplicates(),
                forall|y: Table| kept@.contains(y) ==> self.tables@.subrange(0, i as int).contains(y),
            decreases self.tables@.len() - i,
        {
            let x = self.tables[i];
            let ghost pre = self.tables@.subrange(0, i as int);
            assert(self.tables@.subrange(0, i as int + 1).drop_last() =~= pre);
            proof {
                pre.lemma_filter_push(x, |x: Table| x != t);
            }
            assert(self.tables@.subrange(0, i as int + 1) =~= pre.push(x));
            let ghost old_kept = kept@;
            if x != t {
                proof {
                    assert(!pre.contains(x)) by {
                        if pre.contains(x) {
                            let j = choose|j: int| 0 <= j < pre.len() && pre[j] == x;
                            assert(self.tables@[j] == self.tables@[i as int]);
                        }
                    }
                }
                kept.push(x);
                proof {
                    assert forall|a: int, b: int|
                        0 <= a < kept@.len() && 0 <= b < kept@.len() && a != b implies kept@[a]
                        != kept@[b] by {
                        if a == old_kept.len() {
                            assert(old_kept.contains(kept@[b]));
                        } else if b == old_kept.len() {
                            assert(old_kept.contains(kept@[a]));
                        }
                    }
                }
            }
            proof {
                let nsub = self.tables@.subrange(0, i as int + 1);
                assert forall|y: Table| kept@.contains(y) implies nsub.contains(y) by {
                    if y == x {
                        assert(nsub[i as int] == x);
                    } else {
                        let j = choose|j: int| 0 <= j < kept@.len() && kept@[j] == y;
                        assert(old_kept[j] == y);
                        assert(old_kept.contains(y));
                        let m = choose|m: int| 0 <= m < pre.len() && pre[m] == y;
                        assert(nsub[m] == y);
                    }
                }
            }
            i = i + 1;
        }
        assert(self.tables@.subrange(0, self.tables@.len() as int) =~= self.tables@);
        self.tables = kept;
        if t == Table::Venda {
            self.vendas = Vec::new();
        } else if t == Table::Resume {
            self.resumes = Vec::new();
        } else if t == Table::Config {
            self.configs = Vec::new();
        }
    }

    /// Where the store is to live: at the operator's `custom` path if one is
    /// given; else in the `sqlite` folder of the user's data directory, if
    /// there is one; else in the working directory.
    pub fn resolve_location(custom: Option<String>, data_dir: Option<String>) -> (r: StoreLocation)
        ensures
            custom matches Some(p) ==> r == StoreLocation::Custom(p),
            custom is None && data_dir is Some ==> (r matches StoreLocation::AppData { dir, path }
                && dir@ == data_dir->0@ + "/sqlite"@ && path@ == data_dir->0@
                + "/sqlite/db.sqlite"@),
            custom is None && data_dir is None ==> (r matches StoreLocation::WorkingDir(p)
                && p@ == "db.sqlite"@),
    {
        match custom {
            Some(p) => StoreLocation::Custom(p),
            None => match data_dir {
                Some(d) => {
                    let dir = d.clone().concat("/sqlite");
                    let path = d.concat("/sqlite/db.sqlite");
                    StoreLocation::AppData { dir, path }
                },
                None => StoreLocation::WorkingDir(String::from_str("db.sqlite")),
            },
        }
    }
}

/// What `add_missing` returns holds what it was given and all that was
/// wanted.
pub proof fn lemma_add_missing_contains<A>(have: Seq<A>, wanted: Seq<A>)
    ensures
        forall|x: A| have.contains(x) ==> add_missing(have, wanted).contains(x),
        forall|x: A| wanted.contains(x) ==> add_missing(have, wanted).contains(x),
        forall|x: A|
            add_missing(have, wanted).contains(x) ==> have.contains(x) || wanted.contains(x),
    decreases wanted.len(),
{
    if wanted.len() > 0 {
        let w = wanted.drop_last();
        lemma_add_missing_contains(have, w);
        let before = add_missing(have, w);
        assert forall|x: A| wanted.contains(x) implies add_missing(have, wanted).contains(x) by {
            let j = choose|j: int| 0 <= j < wanted.len() && wanted[j] == x;
            if j < wanted.len() - 1 {
                assert(w[j] == x);
                assert(w.contains(x));
                assert(before.contains(x));
                if !before.contains(wanted.last()) {
                    let i = choose|i: int| 0 <= i < before.len() && before[i] == x;
                    assert(before.push(wanted.last())[i] == x);
                }
            } else {
                if !before.contains(x) {
                    assert(before.push(x)[before.len() as int] == x);
                }
            }
        }
        assert forall|x: A| add_missing(have, wanted).contains(x) implies have.contains(x)
            || wanted.contains(x) by {
            if !before.contains(x) {
                assert(x == wanted.last());
                assert(wanted[wanted.len() - 1] == x);
            } else {
                if w.contains(x) {
                    let j = choose|j: int| 0 <= j < w.len() && w[j] == x;
                    assert(wanted[j] == x);
                }
            }
        }
        assert forall|x: A| have.contains(x) implies add_missing(have, wanted).contains(x) by {
            if !before.contains(wanted.last()) {
                let j = choose|j: int| 0 <= j < before.len() && before[j] == x;
                assert(before.push(wanted.last())[j] == x);
            }
        }
    }
}

/// Adding what is already there changes nothing.
pub proof fn lemma_add_missing_present<A>(have: Seq<A>, wanted: Seq<A>)
    requires
        forall|x: A| wanted.contains(x) ==> have.contains(x),
    ensures
        add_missing(have, wanted) == have,
    decreases wanted.len(),
{
    if wanted.len() > 0 {
        let w = wanted.drop_last();
        assert forall|x: A| w.contains(x) implies have.contains(x) by {
            let j = choose|j: int| 0 <= j < w.len() && w[j] == x;
            assert(wanted[j] == x);
        }
        lemma_add_missing_present(have, w);
        assert(wanted[wanted.len() - 1] == wanted.last());
    }
}

/// Applying the schema twice leaves the tables and indexes as applying it
/// once does, and a store without tables has seven after either.
pub proof fn lemma_initialize_idempotent(tables: Seq<Table>, indexes: Seq<Index>)
    ensures
        add_missing(add_missing(tables, schema_tables()), schema_tables()) == add_missing(
            tables,
            schema_tables(),
        ),
        add_missing(add_missing(indexes, schema_indexes()), schema_indexes()) == add_missing(
            indexes,
            schema_indexes(),
        ),
        add_missing(Seq::<Table>::empty(), schema_tables()).len() == 7,
        add_missing(add_missing(Seq::<Table>::empty(), schema_tables()), schema_tables()).len()
            == 7,
{
    lemma_add_missing_contains(tables, schema_tables());
    lemma_add_missing_present(add_missing(tables, schema_tables()), schema_tables());
    lemma_add_missing_contains(indexes, schema_indexes());
    lemma_add_missing_present(add_missing(indexes, schema_indexes()), schema_indexes());
    lemma_fresh_schema();
    lemma_add_missing_contains(Seq::<Table>::empty(), schema_tables());
    lemma_add_missing_present(
        add_missing(Seq::<Table>::empty(), schema_tables()),
        schema_tables(),
    );
}

/// On a store without tables, the schema creates exactly its seven tables.
pub proof fn lemma_fresh_schema()
    ensures
        add_missing(Seq::<Table>::empty(), schema_tables()) == schema_tables(),
{
    let s = schema_tables();
    let e = Seq::<Table>::empty();
    assert forall|n: int| 0 <= n <= 7 implies add_missing(e, #[trigger] s.subrange(0, n))
        == s.subrange(0, n) by {
        lemma_prefix_fresh(n);
    }
    assert(s.subrange(0, 7) =~= s);
}

/// Every table is among those of the schema.
pub proof fn lemma_schema_has_all(t: Table)
    ensures
        schema_tables().contains(t),
{
    let s = schema_tables();
    match t {
        Table::Config => assert(s[0] == t),
        Table::Resume => assert(s[1] == t),
        Table::History => assert(s[2] == t),
        Table::Product => assert(s[3] == t),
        Table::Venda => assert(s[4] == t),
        Table::VendaItem => assert(s[5] == t),
        Table::VendaPagamento => assert(s[6] == t),
    }
}

proof fn lemma_fresh_indexes()
    ensures
        add_missing(Seq::<Index>::empty(), schema_indexes()) == schema_indexes(),
{
    let s = schema_indexes();
    let e = Seq::<Index>::empty();
    reveal_with_fuel(add_missing, 5);
    assert(s.subrange(0, 4) =~= s);
    assert(s.drop_last() =~= seq![Index::ProductBarcode, Index::VendaStatus, Index::VendaItemVendaId]);
    assert(s.drop_last().drop_last() =~= seq![Index::ProductBarcode, Index::VendaStatus]);
    assert(s.drop_last().drop_last().drop_last() =~= seq![Index::ProductBarcode]);
    assert(s.drop_last().drop_last().drop_last().drop_last() =~= e);
    assert(add_missing(e, seq![Index::ProductBarcode]) =~= seq![Index::ProductBarcode]);
    assert(!seq![Index::ProductBarcode].contains(Index::VendaStatus));
    assert(add_missing(e, seq![Index::ProductBarcode, Index::VendaStatus]) =~= seq![Index::ProductBarcode, Index::VendaStatus]);
    assert(!seq![Index::ProductBarcode, Index::VendaStatus].contains(Index::VendaItemVendaId)) by {
        let q = seq![Index::ProductBarcode, Index::VendaStatus];
        assert(q[0] != Index::VendaItemVendaId && q[1] != Index::VendaItemVendaId);
    }
    assert(add_missing(e, s.drop_last()) =~= s.drop_last());
    assert(!s.drop_last().contains(Index::VendaPagamentoVendaId)) by {
        let q = s.drop_last();
        assert(q[0] != Index::VendaPagamentoVendaId && q[1] != Index::VendaPagamentoVendaId && q[2] != Index::VendaPagamentoVendaId);
    }
}

proof fn lemma_prefix_fresh(n: int)
    requires
        0 <= n <= 7,
    ensures
        add_missing(Seq::<Table>::empty(), schema_tables().subrange(0, n)) == schema_tables().subrange(
            0,
            n,
        ),
    decreases n,
{
    let s = schema_tables();
    if n > 0 {
        lemma_prefix_fresh(n - 1);
        let p = s.subrange(0, n);
        assert(p.drop_last() =~= s.subrange(0, n - 1));
        assert(!s.subrange(0, n - 1).contains(s[n - 1])) by {
            if s.subrange(0, n - 1).contains(s[n - 1]) {
                let j = choose|j: int| 0 <= j < n - 1 && #[trigger] s.subrange(0, n - 1)[j] == s[n - 1];
                assert(s[j] == s[n - 1]);
            }
        }
        assert(s.subrange(0, n - 1).push(s[n - 1]) =~= p);
    } else {
        assert(s.subrange(0, 0) =~= Seq::<Table>::empty());
    }
}

} // verus!
