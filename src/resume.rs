use vstd::prelude::*;
use vstd::arithmetic::div_mod::lemma_mod_multiples_vanish;
use crate::entities::ResumeEntity;
use crate::payment::PaymentTypes;
use crate::store::{LedgerError, Operation, SqliteDbService, StoreFault, Table, resumes_wf};

verus! {

/// Milliseconds in a day.
pub const DAY_MS: i64 = 86_400_000;

/// The instant, in milliseconds since the Unix epoch, at which the local day
/// holding `now` began, where local time is `offset` milliseconds ahead of
/// UTC.
pub open spec fn today_start(now: int, offset: int) -> int {
    now - (now + offset) % (DAY_MS as int)
}

/// A payment method's code as a number: the order of the codes.
pub open spec fn code_rank(p: PaymentTypes) -> int {
    match p {
        PaymentTypes::Dinheiro => 1,
        PaymentTypes::Cheque => 2,
        PaymentTypes::CartaoDeCredito => 3,
        PaymentTypes::CartaoDeDebito => 4,
        PaymentTypes::CreditoLoja => 5,
        PaymentTypes::ValeAlimentacao => 10,
        PaymentTypes::ValeRefeicao => 11,
        PaymentTypes::ValePresente => 12,
        PaymentTypes::ValeCombustivel => 13,
        PaymentTypes::DuplicataMercantil => 14,
        PaymentTypes::BoletoBancario => 15,
        PaymentTypes::SemPagamento => 90,
        PaymentTypes::Outros => 99,
    }
}

fn rank(p: PaymentTypes) -> (r: u8)
    ensures
        r == code_rank(p),
{
    match p {
        PaymentTypes::Dinheiro => 1,
        PaymentTypes::Cheque => 2,
        PaymentTypes::CartaoDeCredito => 3,
        PaymentTypes::CartaoDeDebito => 4,
        PaymentTypes::CreditoLoja => 5,
        PaymentTypes::ValeAlimentacao => 10,
        PaymentTypes::ValeRefeicao => 11,
        PaymentTypes::ValePresente => 12,
        PaymentTypes::ValeCombustivel => 13,
        PaymentTypes::DuplicataMercantil => 14,
        PaymentTypes::BoletoBancario => 15,
        PaymentTypes::SemPagamento => 90,
        PaymentTypes::Outros => 99,
    }
}

/// Whether a row of totals was created on or after `start`.
pub open spec fn created_since(r: ResumeEntity, start: int) -> bool {
    r.created_at >= start
}

pub open spec fn ranked(s: Seq<ResumeEntity>) -> bool {
    forall|a: int, b: int|
        0 <= a < b < s.len() ==> code_rank((#[trigger] s[a]).code) <= code_rank(
            (#[trigger] s[b]).code,
        )
}

/// `v` holds each row of `rows` created on or after `start`, once, ordered
/// by code.
pub open spec fn today_report(v: Seq<ResumeEntity>, rows: Seq<ResumeEntity>, start: int) -> bool {
    &&& v.len() == rows_since(rows, start).len()
    &&& forall|i: int| 0 <= i < v.len() ==> created_since(#[trigger] v[i], start) && rows.contains(v[i])
    &&& forall|k: int| 0 <= k < rows.len() && created_since(#[trigger] rows[k], start) ==> v.contains(rows[k])
    &&& ranked(v)
}

/// The row with identifier `id` with both amounts set, at time `now`; the
/// others as they were.
pub open spec fn with_amounts(
    rows: Seq<ResumeEntity>,
    id: Seq<char>,
    amount_s: int,
    amount_n: int,
    now: i64,
) -> Seq<ResumeEntity> {
    rows.map_values(
        |r: ResumeEntity|
            if r.id@ == id {
                ResumeEntity { amount_s: amount_s as i64, amount_n: amount_n as i64, updated_at: now, ..r }
            } else {
                r
            },
    )
}

/// The row with identifier `id` with both deltas added, at time `now`; the
/// others as they were.
pub open spec fn incremented(
    rows: Seq<ResumeEntity>,
    id: Seq<char>,
    delta_s: int,
    delta_n: int,
    now: i64,
) -> Seq<ResumeEntity> {
    rows.map_values(
        |r: ResumeEntity|
            if r.id@ == id {
                ResumeEntity {
                    amount_s: (r.amount_s + delta_s) as i64,
                    amount_n: (r.amount_n + delta_n) as i64,
                    updated_at: now,
                    ..r
                }
            } else {
                r
            },
    )
}

/// `rows` with `r` stored: in place of the row with its identifier, or last.
pub open spec fn saved(rows: Seq<ResumeEntity>, r: ResumeEntity) -> Seq<ResumeEntity> {
    if exists|k: int| 0 <= k < rows.len() && (#[trigger] rows[k]).id@ == r.id@ {
        rows.update(choose|k: int| 0 <= k < rows.len() && (#[trigger] rows[k]).id@ == r.id@, r)
    } else {
        rows.push(r)
    }
}

/// The first row for `code` created on or after `start`, if any.
pub open spec fn first_for_code(rows: Seq<ResumeEntity>, code: PaymentTypes, start: int) -> Option<int> {
    if exists|k: int| 0 <= k < rows.len() && (#[trigger] rows[k]).code == code && created_since(rows[k], start) {
        Some(
            choose|k: int|
                0 <= k < rows.len() && (#[trigger] rows[k]).code == code && created_since(rows[k], start)
                    && forall|m: int| 0 <= m < k ==> !((#[trigger] rows[m]).code == code && created_since(rows[m], start)),
        )
    } else {
        None
    }
}

/// Adding two pairs of deltas in turn adds their sums.
pub proof fn lemma_increments_accumulate(
    rows: Seq<ResumeEntity>,
    id: Seq<char>,
    s1: int,
    n1: int,
    t1: i64,
    s2: int,
    n2: int,
    t2: i64,
    k: int,
)
    requires
        0 <= k < rows.len(),
        rows[k].id@ == id,
        i64::MIN <= rows[k].amount_s + s1 <= i64::MAX,
        i64::MIN <= rows[k].amount_n + n1 <= i64::MAX,
        i64::MIN <= rows[k].amount_s + s1 + s2 <= i64::MAX,
        i64::MIN <= rows[k].amount_n + n1 + n2 <= i64::MAX,
    ensures
        incremented(incremented(rows, id, s1, n1, t1), id, s2, n2, t2)[k].amount_s == rows[k].amount_s
            + s1 + s2,
        incremented(incremented(rows, id, s1, n1, t1), id, s2, n2, t2)[k].amount_n == rows[k].amount_n
            + n1 + n2,
{
}

/// Relies on uuid's `Uuid::new_v4`, a random identifier, written through its
/// `Display` in the hyphenated form of 36 characters.
#[verifier::external_body]
fn new_resume_id() -> (r: String)
    ensures
        r@.len() == 36,
{
    uuid::Uuid::new_v4().to_string()
}

/// What finding or creating the row of `code` for the day of `now` does: on
/// a store with the table of totals, it returns the first row for `code`
/// created since the day began, leaving the store as it was; where there is
/// none, it stores fresh totals of zero under `new_id`, created at `now`, and
/// returns them.
pub open spec fn find_or_create_outcome(
    before: SqliteDbService,
    after: SqliteDbService,
    r: Result<ResumeEntity, LedgerError>,
    code: PaymentTypes,
    new_id: String,
    now: i64,
    offset: i64,
) -> bool {
    let start = today_start(now as int, offset as int);
    &&& r is Err <==> !before.tables@.contains(Table::Resume)
    &&& r is Err ==> r == Err::<ResumeEntity, LedgerError>(
        LedgerError::StorageFailure(Operation::QueryResumes, StoreFault::MissingTable(Table::Resume)),
    ) && after.resumes@ == before.resumes@
    &&& r is Ok ==> match first_for_code(before.resumes@, code, start) {
        Some(k) => r == Ok::<ResumeEntity, LedgerError>(before.resumes@[k]) && after.resumes@
            == before.resumes@,
        None => {
            let fresh = ResumeEntity {
                id: new_id,
                code,
                amount_s: 0,
                amount_n: 0,
                updated_at: now,
                created_at: now,
            };
            r == Ok::<ResumeEntity, LedgerError>(fresh) && after.resumes@ == saved(before.resumes@, fresh)
        },
    }
    &&& after.tables@ == before.tables@ && after.indexes@ == before.indexes@
    &&& after.vendas@ == before.vendas@ && after.configs@ == before.configs@
    &&& after.db_path == before.db_path
    &&& after.next_venda_id == before.next_venda_id && after.next_item_id == before.next_item_id
    &&& after.next_payment_id == before.next_payment_id
}

/// Why setting the amounts of the row with identifier `id` fails, if it
/// does.
pub open spec fn update_fault(db: SqliteDbService, id: Seq<char>) -> Option<LedgerError> {
    if !db.tables@.contains(Table::Resume) {
        Some(LedgerError::StorageFailure(Operation::UpdateResume, StoreFault::MissingTable(Table::Resume)))
    } else if forall|k: int| 0 <= k < db.resumes@.len() ==> (#[trigger] db.resumes@[k]).id@ != id {
        Some(LedgerError::NotFound)
    } else {
        None
    }
}

/// Why adding to the amounts of the row with identifier `id` fails, if it
/// does: as setting them, or because a sum leaves the range of a 64-bit
/// integer.
pub open spec fn increment_fault(db: SqliteDbService, id: Seq<char>, delta_s: int, delta_n: int) -> Option<
    LedgerError,
> {
    if update_fault(db, id) is Some {
        update_fault(db, id)
    } else {
        let k = choose|k: int| 0 <= k < db.resumes@.len() && (#[trigger] db.resumes@[k]).id@ == id;
        let row = db.resumes@[k];
        if i64::MIN <= row.amount_s + delta_s <= i64::MAX && i64::MIN <= row.amount_n + delta_n <= i64::MAX {
            None
        } else {
            Some(LedgerError::StorageFailure(Operation::UpdateResume, StoreFault::Overflow))
        }
    }
}

/// Everything but the rows of totals is as it was.
pub open spec fn others_kept(after: SqliteDbService, before: SqliteDbService) -> bool {
    &&& after.tables@ == before.tables@ && after.indexes@ == before.indexes@
    &&& after.vendas@ == before.vendas@ && after.configs@ == before.configs@
    &&& after.db_path == before.db_path
    &&& after.next_venda_id == before.next_venda_id && after.next_item_id == before.next_item_id
    &&& after.next_payment_id == before.next_payment_id
}

/// The rows created on or after `since`, in their order.
pub open spec fn rows_since(rows: Seq<ResumeEntity>, since: int) -> Seq<ResumeEntity>
    decreases rows.len(),
{
    if rows.len() == 0 {
        Seq::empty()
    } else {
        let before = rows_since(rows.drop_last(), since);
        if created_since(rows.last(), since) {
            before.push(rows.last())
        } else {
            before
        }
    }
}

/// The rows kept are rows of the store, created since the cut, with
/// identifiers still apart.
proof fn lemma_rows_since(rows: Seq<ResumeEntity>, since: int)
    requires
        resumes_wf(rows),
    ensures
        resumes_wf(rows_since(rows, since)),
        rows_since(rows, since).len() <= rows.len(),
        forall|i: int|
            0 <= i < rows_since(rows, since).len() ==> rows.contains(#[trigger] rows_since(rows, since)[i])
                && created_since(rows_since(rows, since)[i], since),
    decreases rows.len(),
{
    if rows.len() > 0 {
        let w = rows.drop_last();
        assert(resumes_wf(w)) by {
            assert forall|x: int, y: int| 0 <= x < w.len() && 0 <= y < w.len() && x != y implies (#[trigger] w[x]).id@
                != (#[trigger] w[y]).id@ by {
                assert(rows[x].id@ != rows[y].id@);
            }
        }
        lemma_rows_since(w, since);
        let f = rows_since(w, since);
        let g = rows_since(rows, since);
        assert forall|i: int| 0 <= i < g.len() implies rows.contains(#[trigger] g[i]) && created_since(g[i], since) by {
            if i < f.len() {
                assert(g[i] == f[i]);
                let m = choose|m: int| 0 <= m < w.len() && w[m] == f[i];
                assert(rows[m] == f[i]);
            } else {
                assert(g[i] == rows[rows.len() - 1]);
            }
        }
        if created_since(rows.last(), since) {
            assert forall|x: int, y: int| 0 <= x < g.len() && 0 <= y < g.len() && x != y implies (#[trigger] g[x]).id@
                != (#[trigger] g[y]).id@ by {
                if x < f.len() && y < f.len() {
                    assert(f[x].id@ != f[y].id@);
                } else {
                    let other = if x == f.len() { y } else { x };
                    let m = choose|m: int| 0 <= m < w.len() && w[m] == f[other];
                    assert(rows[m].id@ != rows[rows.len() - 1].id@);
                }
            }
        }
    }
}

pub struct ResumeService;

impl ResumeService {
    /// The instant at which the local day holding `now` began, where local
    /// time is `utc_offset` milliseconds ahead of UTC.
    pub fn day_start(now: i64, utc_offset: i64) -> (r: i128)
        ensures
            r == today_start(now as int, utc_offset as int),
    {
        let t: i128 = now as i128 + utc_offset as i128;
        let shift: i128 = 86_400_000i128 * 1_099_511_627_776i128;
        let shifted: u128 = (t + shift) as u128;
        let rem: u128 = shifted % 86_400_000u128;
        proof {
            lemma_mod_multiples_vanish(1_099_511_627_776int, t as int, 86_400_000int);
            assert(86_400_000int * 1_099_511_627_776int + t == t + shift);
        }
        now as i128 - rem as i128
    }

    fn position_of(db: &SqliteDbService, id: &String) -> (r: Option<usize>)
        ensures
            r matches Some(k) ==> k < db.resumes@.len() && db.resumes@[k as int].id@ == id@,
            r is None ==> forall|k: int| 0 <= k < db.resumes@.len() ==> (#[trigger] db.resumes@[k]).id@ != id@,
    {
        let mut k: usize = 0;
        while k < db.resumes.len()
            invariant
                k <= db.resumes@.len(),
                forall|m: int| 0 <= m < k ==> (#[trigger] db.resumes@[m]).id@ != id@,
            decreases db.resumes@.len() - k,
        {
            if db.resumes[k].id == *id {
                return Some(k);
            }
            k = k + 1;
        }
        None
    }

    fn need_resumes(db: &SqliteDbService, op: Operation) -> (r: Result<(), LedgerError>)
        ensures
            r is Ok <==> db.tables@.contains(Table::Resume),
            r matches Err(e) ==> e == LedgerError::StorageFailure(op, StoreFault::MissingTable(Table::Resume)),
    {
        if db.has_table(Table::Resume) {
            Ok(())
        } else {
            Err(LedgerError::StorageFailure(op, StoreFault::MissingTable(Table::Resume)))
        }
    }

    /// The row of totals with identifier `id`, if one is stored.
    pub fn find_by_id(db: &SqliteDbService, id: &str) -> (r: Result<Option<ResumeEntity>, LedgerError>)
        requires
            db.wf(),
        ensures
            r is Err <==> !db.tables@.contains(Table::Resume),
            r matches Err(e) ==> e == LedgerError::StorageFailure(Operation::QueryResumes, StoreFault::MissingTable(Table::Resume)),
            r matches Ok(Some(x)) ==> exists|k: int| 0 <= k < db.resumes@.len() && (#[trigger] db.resumes@[k]) == x && x.id@ == id@,
            r matches Ok(None) ==> forall|k: int| 0 <= k < db.resumes@.len() ==> (#[trigger] db.resumes@[k]).id@ != id@,
    {
        Self::need_resumes(db, Operation::QueryResumes)?;
        let key = String::from_str(id);
        match Self::position_of(db, &key) {
            Some(k) => Ok(Some(db.resumes[k].duplicate())),
            None => Ok(None),
        }
    }

    /// Stores `resume`: in place of the row with its identifier, or as a new
    /// row.
    pub fn save(db: &mut SqliteDbService, resume: &ResumeEntity) -> (r: Result<(), LedgerError>)
        requires
            old(db).wf(),
        ensures
            final(db).wf(),
            others_kept(*final(db), *old(db)),
            r is Err <==> !old(db).tables@.contains(Table::Resume),
            r matches Err(e) ==> e == LedgerError::StorageFailure(Operation::SaveResume, StoreFault::MissingTable(Table::Resume))
                && final(db).resumes@ == old(db).resumes@,
            r is Ok ==> final(db).resumes@ == saved(old(db).resumes@, *resume),
    {
        Self::need_resumes(db, Operation::SaveResume)?;
        let ghost rows = db.resumes@;
        match Self::position_of(db, &resume.id) {
            Some(k) => {
                db.resumes.remove(k);
                db.resumes.insert(k, resume.duplicate());
                proof {
                    assert(db.resumes@ =~= rows.update(k as int, *resume));
                    let c = choose|c: int| 0 <= c < rows.len() && (#[trigger] rows[c]).id@ == resume.id@;
                    if c != k {
                        assert(rows[c].id@ != rows[k as int].id@);
                    }
                    assert forall|a: int, b: int|
                        0 <= a < db.resumes@.len() && 0 <= b < db.resumes@.len() && a != b implies (#[trigger] db.resumes@[a]).id@
                            != (#[trigger] db.resumes@[b]).id@ by {
                        if a != k && b != k {
                            assert(rows[a].id@ != rows[b].id@);
                        } else if a == k {
                            assert(rows[b].id@ != rows[k as int].id@);
                        } else {
                            assert(rows[a].id@ != rows[k as int].id@);
                        }
                    }
                }
            },
            None => {
                db.resumes.push(resume.duplicate());
                proof {
                    assert forall|a: int, b: int|
                        0 <= a < db.resumes@.len() && 0 <= b < db.resumes@.len() && a != b implies (#[trigger] db.resumes@[a]).id@
                            != (#[trigger] db.resumes@[b]).id@ by {
                        if a < rows.len() && b < rows.len() {
                            assert(rows[a].id@ != rows[b].id@);
                        } else if a == rows.len() {
                            assert(rows[b].id@ != resume.id@);
                        } else {
                            assert(rows[a].id@ != resume.id@);
                        }
                    }
                }
            },
        }
        Ok(())
    }

    /// Sets both amounts of the row with identifier `id`, at time `now`.
    pub fn update_amounts(db: &mut SqliteDbService, id: &str, amount_s: i64, amount_n: i64, now: i64) -> (r: Result<(), LedgerError>)
        requires
            old(db).wf(),
        ensures
            final(db).wf(),
            others_kept(*final(db), *old(db)),
            r is Ok <==> update_fault(*old(db), id@) is None,
            r matches Err(e) ==> update_fault(*old(db), id@) == Some(e),
            r is Err ==> final(db).resumes@ == old(db).resumes@,
            r is Ok ==> final(db).resumes@ == with_amounts(old(db).resumes@, id@, amount_s as int, amount_n as int, now),
    {
        Self::need_resumes(db, Operation::UpdateResume)?;
        let key = String::from_str(id);
        let k = match Self::position_of(db, &key) {
            Some(k) => k,
            None => {
                return Err(LedgerError::NotFound);
            },
        };
        let ghost rows = db.resumes@;
        let mut row = db.resumes.remove(k);
        row.amount_s = amount_s;
        row.amount_n = amount_n;
        row.updated_at = now;
        db.resumes.insert(k, row);
        proof {
            assert forall|m: int| 0 <= m < rows.len() && m != k implies (#[trigger] rows[m]).id@ != id@ by {
                assert(rows[m].id@ != rows[k as int].id@);
            }
            assert(db.resumes@ =~= with_amounts(rows, id@, amount_s as int, amount_n as int, now));
        }
        Ok(())
    }

    /// Adds `delta_s` and `delta_n` to the amounts of the row with
    /// identifier `id`, at time `now`. Negative deltas are taken as they
    /// come; an amount that would leave the range of a 64-bit integer is
    /// refused.
    pub fn increment_amounts(db: &mut SqliteDbService, id: &str, delta_s: i64, delta_n: i64, now: i64) -> (r: Result<(), LedgerError>)
        requires
            old(db).wf(),
        ensures
            final(db).wf(),
            others_kept(*final(db), *old(db)),
            r is Ok <==> increment_fault(*old(db), id@, delta_s as int, delta_n as int) is None,
            r matches Err(e) ==> increment_fault(*old(db), id@, delta_s as int, delta_n as int) == Some(e),
            r is Err ==> final(db).resumes@ == old(db).resumes@,
            r is Ok ==> final(db).resumes@ == incremented(old(db).resumes@, id@, delta_s as int, delta_n as int, now),
    {
        Self::need_resumes(db, Operation::UpdateResume)?;
        let key = String::from_str(id);
        let k = match Self::position_of(db, &key) {
            Some(k) => k,
            None => {
                return Err(LedgerError::NotFound);
            },
        };
        let ghost rows = db.resumes@;
        proof {
            assert forall|m: int| 0 <= m < rows.len() && m != k implies (#[trigger] rows[m]).id@ != id@ by {
                assert(rows[m].id@ != rows[k as int].id@);
            }
        }
        proof {
            let c = choose|c: int| 0 <= c < rows.len() && (#[trigger] rows[c]).id@ == id@;
            if c != k {
                assert(rows[c].id@ != rows[k as int].id@);
            }
        }
        let s = db.resumes[k].amount_s as i128 + delta_s as i128;
        let n = db.resumes[k].amount_n as i128 + delta_n as i128;
        if s < i64::MIN as i128 || s > i64::MAX as i128 || n < i64::MIN as i128 || n > i64::MAX as i128 {
            return Err(LedgerError::StorageFailure(Operation::UpdateResume, StoreFault::Overflow));
        }
        let mut row = db.resumes.remove(k);
        row.amount_s = s as i64;
        row.amount_n = n as i64;
        row.updated_at = now;
        db.resumes.insert(k, row);
        proof {
            assert(db.resumes@ =~= incremented(rows, id@, delta_s as int, delta_n as int, now));
        }
        Ok(())
    }

    /// Removes the rows of totals created more than `days_old` days before
    /// `now`, and says how many it removed.
    pub fn delete_old_resumes(db: &mut SqliteDbService, days_old: i64, now: i64) -> (r: Result<usize, LedgerError>)
        requires
            old(db).wf(),
        ensures
            final(db).wf(),
            others_kept(*final(db), *old(db)),
            r is Err <==> !old(db).tables@.contains(Table::Resume),
            r matches Err(e) ==> e == LedgerError::StorageFailure(Operation::DeleteResumes, StoreFault::MissingTable(Table::Resume))
                && final(db).resumes@ == old(db).resumes@,
            r matches Ok(n) ==> final(db).resumes@ == rows_since(old(db).resumes@, now - days_old * DAY_MS)
                && n == old(db).resumes@.len() - final(db).resumes@.len(),
    {
        Self::need_resumes(db, Operation::DeleteResumes)?;
        let cutoff: i128 = now as i128 - days_old as i128 * 86_400_000i128;
        let ghost rows = db.resumes@;
        let mut kept: Vec<ResumeEntity> = Vec::new();
        let mut i: usize = 0;
        while i < db.resumes.len()
            invariant
                db.wf(),
                db.resumes@ == rows,
                cutoff == now - days_old * DAY_MS,
                i <= rows.len(),
                kept@ == rows_since(rows.subrange(0, i as int), cutoff as int),
                kept@.len() <= i,
            decreases rows.len() - i,
        {
            let ghost pre = rows.subrange(0, i as int);
            assert(rows.subrange(0, i as int + 1).drop_last() =~= pre);
            proof {
                lemma_rows_since(pre, cutoff as int);
            }
            if db.resumes[i].created_at as i128 >= cutoff {
                kept.push(db.resumes[i].duplicate());
            }
            i = i + 1;
        }
        assert(rows.subrange(0, rows.len() as int) =~= rows);
        let removed = db.resumes.len() - kept.len();
        proof {
            lemma_rows_since(rows, cutoff as int);
        }
        db.resumes = kept;
        Ok(removed)
    }

    /// Puts a copy of `row` after every row of `out` whose code is not
    /// greater.
    fn insert_ranked(out: &mut Vec<ResumeEntity>, row: &ResumeEntity) -> (p: usize)
        requires
            ranked(old(out)@),
        ensures
            p <= old(out)@.len(),
            final(out)@ == old(out)@.insert(p as int, *row),
            ranked(final(out)@),
    {
        let r = rank(row.code);
        let mut p: usize = 0;
        let mut found = false;
        while p < out.len() && !found
            invariant
                found ==> p < out@.len() && code_rank(out@[p as int].code) > code_rank(row.code),
                out@ == old(out)@,
                ranked(out@),
                r == code_rank(row.code),
                p <= out@.len(),
                forall|q: int| 0 <= q < p ==> code_rank((#[trigger] out@[q]).code) <= code_rank(row.code),
            decreases out@.len() - p + (if found {
                0int
            } else {
                1int
            }),
        {
            if rank(out[p].code) <= r {
                p = p + 1;
            } else {
                found = true;
            }
        }
        let ghost prev = out@;
        out.insert(p, row.duplicate());
        proof {
            assert forall|a: int, b: int| 0 <= a < b < out@.len() implies code_rank((#[trigger] out@[a]).code)
                <= code_rank((#[trigger] out@[b]).code) by {
                if b < p {
                    assert(out@[a] == prev[a] && out@[b] == prev[b]);
                } else if b == p {
                    assert(out@[a] == prev[a]);
                } else if a < p {
                    assert(out@[a] == prev[a] && out@[b] == prev[b - 1]);
                } else if a == p {
                    assert(out@[b] == prev[b - 1]);
                    assert(code_rank(prev[p as int].code) <= code_rank(prev[b - 1].code));
                } else {
                    assert(out@[a] == prev[a - 1] && out@[b] == prev[b - 1]);
                }
            }
        }
        p
    }

    /// The rows of totals created since the local day holding `now` began,
    /// where local time is `utc_offset` milliseconds ahead of UTC, ordered by
    /// the code of their payment method.
    pub fn get_all_today(db: &SqliteDbService, now: i64, utc_offset: i64) -> (r: Result<Vec<ResumeEntity>, LedgerError>)
        requires
            db.wf(),
        ensures
            r is Err <==> !db.tables@.contains(Table::Resume),
            r matches Err(e) ==> e == LedgerError::StorageFailure(Operation::QueryResumes, StoreFault::MissingTable(Table::Resume)),
            r matches Ok(v) ==> today_report(v@, db.resumes@, today_start(now as int, utc_offset as int)),
    {
        Self::need_resumes(db, Operation::QueryResumes)?;
        let start = Self::day_start(now, utc_offset);
        let ghost rows = db.resumes@;
        let mut out: Vec<ResumeEntity> = Vec::new();
        let mut k: usize = 0;
        while k < db.resumes.len()
            invariant
                db.resumes@ == rows,
                k <= rows.len(),
                out@.len() == rows_since(rows.subrange(0, k as int), start as int).len(),
                forall|i: int| 0 <= i < out@.len() ==> created_since(#[trigger] out@[i], start as int) && rows.contains(out@[i]),
                forall|m: int| 0 <= m < k && created_since(#[trigger] rows[m], start as int) ==> out@.contains(rows[m]),
                ranked(out@),
            decreases rows.len() - k,
        {
            let ghost pre = rows.subrange(0, k as int);
            assert(rows.subrange(0, k as int + 1).drop_last() =~= pre);
            if db.resumes[k].created_at as i128 >= start {
                let ghost prev = out@;
                let p = Self::insert_ranked(&mut out, &db.resumes[k]);
                proof {
                    assert forall|i: int| 0 <= i < out@.len() implies created_since(#[trigger] out@[i], start as int)
                        && rows.contains(out@[i]) by {
                        if i < p {
                            assert(out@[i] == prev[i]);
                        } else if i > p {
                            assert(out@[i] == prev[i - 1]);
                        } else {
                            assert(out@[i] == rows[k as int]);
                        }
                    }
                    assert forall|m: int| 0 <= m < k + 1 && created_since(#[trigger] rows[m], start as int) implies out@.contains(rows[m]) by {
                        if m == k {
                            assert(out@[p as int] == rows[m]);
                        } else {
                            let i = choose|i: int| 0 <= i < prev.len() && prev[i] == rows[m];
                            if i < p {
                                assert(out@[i] == rows[m]);
                            } else {
                                assert(out@[i + 1] == rows[m]);
                            }
                        }
                    }
                }
            }
            k = k + 1;
        }
        assert(rows.subrange(0, rows.len() as int) =~= rows);
        Ok(out)
    }

    fn first_for(db: &SqliteDbService, code: PaymentTypes, start: i128) -> (r: Option<usize>)
        ensures
            r matches Some(k) ==> first_for_code(db.resumes@, code, start as int) == Some(k as int)
                && k < db.resumes@.len(),
            r is None ==> first_for_code(db.resumes@, code, start as int) is None,
    {
        let ghost rows = db.resumes@;
        let mut k: usize = 0;
        while k < db.resumes.len()
            invariant
                db.resumes@ == rows,
                k <= rows.len(),
                forall|m: int| 0 <= m < k ==> !((#[trigger] rows[m]).code == code && created_since(rows[m], start as int)),
            decreases rows.len() - k,
        {
            if db.resumes[k].code == code && db.resumes[k].created_at as i128 >= start {
                proof {
                    let c = choose|c: int|
                        0 <= c < rows.len() && (#[trigger] rows[c]).code == code && created_since(rows[c], start as int)
                            && forall|m: int| 0 <= m < c ==> !((#[trigger] rows[m]).code == code && created_since(rows[m], start as int));
                    assert(c == k);
                }
                return Some(k);
            }
            k = k + 1;
        }
        None
    }

    /// Finds the row of totals for `code` created since the local day
    /// holding `now` began, or stores fresh totals of zero under `new_id`.
    pub fn find_or_create_with_id(
        db: &mut SqliteDbService,
        code: PaymentTypes,
        new_id: String,
        now: i64,
        utc_offset: i64,
    ) -> (r: Result<ResumeEntity, LedgerError>)
        requires
            old(db).wf(),
        ensures
            final(db).wf(),
            find_or_create_outcome(*old(db), *final(db), r, code, new_id, now, utc_offset),
    {
        Self::need_resumes(db, Operation::QueryResumes)?;
        let start = Self::day_start(now, utc_offset);
        if let Some(k) = Self::first_for(db, code, start) {
            return Ok(db.resumes[k].duplicate());
        }
        let fresh = ResumeEntity::new(new_id, code, now);
        let saved_r = Self::save(db, &fresh);
        assert(saved_r is Ok);
        Ok(fresh)
    }

    /// Finds the row of totals for `code` created since the local day
    /// holding `now` began, or stores fresh totals of zero under a new random
    /// identifier.
    pub fn find_or_create_by_code(db: &mut SqliteDbService, code: PaymentTypes, now: i64, utc_offset: i64) -> (r: Result<ResumeEntity, LedgerError>)
        requires
            old(db).wf(),
        ensures
            final(db).wf(),
            exists|id: String| id@.len() == 36 && find_or_create_outcome(*old(db), *final(db), r, code, id, now, utc_offset),
    {
        let id = new_resume_id();
        let ghost g = id;
        let r = Self::find_or_create_with_id(db, code, id, now, utc_offset);
        assert(g@.len() == 36 && find_or_create_outcome(*old(db), *db, r, code, g, now, utc_offset));
        r
    }
}

} // verus!
