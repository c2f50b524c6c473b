use vstd::prelude::*;
use crate::calendar::CalendarDate;
use crate::entities::{
    copy_items, copy_payments, VendaEntity, VendaItemEntity, VendaPagamentoEntity,
    VendaWithRelations,
};
use crate::children::{children_in_interval, children_report, children_wf, sales_ordered};
use crate::store::{id_of, LedgerError, Operation, SqliteDbService, StoreFault, Table};

verus! {

/// The lines of a new sale as stored: each carries the sale's identifier and
/// its own, handed out in order from `first`.
pub open spec fn stored_items(items: Seq<VendaItemEntity>, venda_id: i64, first: i64) -> Seq<
    VendaItemEntity,
> {
    items.map(|j: int, it: VendaItemEntity| VendaItemEntity { id: Some((first + j) as i64), venda_id, ..it })
}

/// The payments of a new sale as stored, numbered as its lines are.
pub open spec fn stored_payments(
    payments: Seq<VendaPagamentoEntity>,
    venda_id: i64,
    first: i64,
) -> Seq<VendaPagamentoEntity> {
    payments.map(
        |j: int, p: VendaPagamentoEntity| VendaPagamentoEntity { id: Some((first + j) as i64), venda_id, ..p },
    )
}

/// Why creating a sale with `n_items` lines and `n_payments` payments fails,
/// if it does: the first statement that the store refuses.
pub open spec fn create_fault(db: SqliteDbService, n_items: int, n_payments: int) -> Option<
    LedgerError,
> {
    if !db.tables@.contains(Table::Venda) {
        Some(LedgerError::TransactionFailure(Operation::InsertVenda, StoreFault::MissingTable(Table::Venda)))
    } else if db.next_venda_id == i64::MAX {
        Some(LedgerError::TransactionFailure(Operation::InsertVenda, StoreFault::IdsExhausted(Table::Venda)))
    } else if n_items > 0 && !db.tables@.contains(Table::VendaItem) {
        Some(LedgerError::TransactionFailure(Operation::InsertItem, StoreFault::MissingTable(Table::VendaItem)))
    } else if db.next_item_id + n_items > i64::MAX {
        Some(LedgerError::TransactionFailure(Operation::InsertItem, StoreFault::IdsExhausted(Table::VendaItem)))
    } else if n_payments > 0 && !db.tables@.contains(Table::VendaPagamento) {
        Some(
            LedgerError::TransactionFailure(
                Operation::InsertPayment,
                StoreFault::MissingTable(Table::VendaPagamento),
            ),
        )
    } else if db.next_payment_id + n_payments > i64::MAX {
        Some(
            LedgerError::TransactionFailure(
                Operation::InsertPayment,
                StoreFault::IdsExhausted(Table::VendaPagamento),
            ),
        )
    } else {
        None
    }
}

/// The store is unchanged: rows, tables and indexes alike.
pub open spec fn unchanged(a: SqliteDbService, b: SqliteDbService) -> bool {
    a.same_rows(&b) && a.tables@ == b.tables@ && a.indexes@ == b.indexes@
}

/// Whether a sale was emitted on a day from `start` to `end`, both included.
pub open spec fn emitted_within(v: VendaEntity, start: CalendarDate, end: CalendarDate) -> bool {
    start.ord() <= v.dh_emi.date.ord() <= end.ord()
}

/// The order of sales in reports: latest emission first, and among sales
/// emitted at the same second, the one stored first.
pub open spec fn sale_precedes(a: VendaEntity, b: VendaEntity) -> bool {
    a.dh_emi.key() > b.dh_emi.key() || (a.dh_emi.key() == b.dh_emi.key() && id_of(a.id) < id_of(
        b.id,
    ))
}

/// The emission time of the stored sale with identifier `venda_id`.
pub open spec fn emission_of(vendas: Seq<VendaWithRelations>, venda_id: i64) -> int {
    let k = choose|k: int| 0 <= k < vendas.len() && (#[trigger] vendas[k]).venda.id == Some(venda_id);
    vendas[k].venda.dh_emi.key()
}

/// The order of lines and payments in reports: that of their sales, then
/// their own identifiers.
pub open spec fn child_precedes(key_a: int, id_a: Option<i64>, key_b: int, id_b: Option<i64>) -> bool {
    key_a > key_b || (key_a == key_b && id_of(id_a) < id_of(id_b))
}

/// A store that lacks `t` refuses a query on it.
pub open spec fn missing(db: SqliteDbService, t: Table, op: Operation) -> Option<LedgerError> {
    if db.tables@.contains(t) {
        None
    } else {
        Some(LedgerError::StorageFailure(op, StoreFault::MissingTable(t)))
    }
}

fn need_table(db: &SqliteDbService, t: Table, op: Operation) -> (r: Result<(), LedgerError>)
    ensures
        r is Ok <==> db.tables@.contains(t),
        r matches Err(e) ==> Some(e) == missing(*db, t, op),
{
    if db.has_table(t) {
        Ok(())
    } else {
        Err(LedgerError::StorageFailure(op, StoreFault::MissingTable(t)))
    }
}

/// Why an interval query fails, if it does: the table of sales is missing,
/// or a sale falls in the interval and the table of its lines, or else of its
/// payments, is missing.
pub open spec fn interval_fault(db: SqliteDbService, start: CalendarDate, end: CalendarDate) -> Option<
    LedgerError,
> {
    if !db.tables@.contains(Table::Venda) {
        missing(db, Table::Venda, Operation::QueryInterval)
    } else if exists|k: int| 0 <= k < db.vendas@.len() && emitted_within((#[trigger] db.vendas@[k]).venda, start, end) {
        if !db.tables@.contains(Table::VendaItem) {
            missing(db, Table::VendaItem, Operation::FindItems)
        } else {
            missing(db, Table::VendaPagamento, Operation::FindPayments)
        }
    } else {
        None
    }
}

pub open spec fn sales_sorted(s: Seq<VendaWithRelations>) -> bool {
    forall|a: int, b: int|
        0 <= a < b < s.len() ==> sale_precedes((#[trigger] s[a]).venda, (#[trigger] s[b]).venda)
}

/// `x` is a stored sale, with its lines and payments, emitted within the
/// interval.
pub open spec fn stored_within(
    x: (VendaEntity, Seq<VendaItemEntity>, Seq<VendaPagamentoEntity>),
    vendas: Seq<VendaWithRelations>,
    start: CalendarDate,
    end: CalendarDate,
) -> bool {
    exists|k: int|
        0 <= k < vendas.len() && emitted_within((#[trigger] vendas[k]).venda, start, end) && x
            == vendas[k]@
}

/// `s` holds a copy of `x`.
pub open spec fn listed(
    s: Seq<VendaWithRelations>,
    x: (VendaEntity, Seq<VendaItemEntity>, Seq<VendaPagamentoEntity>),
) -> bool {
    exists|i: int| 0 <= i < s.len() && (#[trigger] s[i])@ == x
}

/// `out` holds copies of the sales among the first `k` stored that were
/// emitted within the interval, each once: `src` says where each comes from.
pub open spec fn drawn_from(
    out: Seq<VendaWithRelations>,
    src: Seq<int>,
    vendas: Seq<VendaWithRelations>,
    k: int,
    start: CalendarDate,
    end: CalendarDate,
) -> bool {
    &&& src.len() == out.len()
    &&& forall|i: int|
        0 <= i < out.len() ==> 0 <= #[trigger] src[i] < k && emitted_within(
            vendas[src[i]].venda,
            start,
            end,
        ) && out[i]@ == vendas[src[i]]@
    &&& forall|m: int|
        0 <= m < k && emitted_within((#[trigger] vendas[m]).venda, start, end) ==> src.contains(m)
}

proof fn lemma_drawn_insert(
    prev: Seq<VendaWithRelations>,
    out: Seq<VendaWithRelations>,
    src: Seq<int>,
    vendas: Seq<VendaWithRelations>,
    k: int,
    p: int,
    start: CalendarDate,
    end: CalendarDate,
)
    requires
        drawn_from(prev, src, vendas, k, start, end),
        0 <= k < vendas.len(),
        emitted_within(vendas[k].venda, start, end),
        0 <= p <= prev.len(),
        out.len() == prev.len() + 1,
        out[p]@ == vendas[k]@,
        forall|q: int| 0 <= q < p ==> out[q] == prev[q],
        forall|q: int| p < q < out.len() ==> out[q] == prev[q - 1],
    ensures
        drawn_from(out, src.insert(p, k), vendas, k + 1, start, end),
{
    let s2 = src.insert(p, k);
    assert forall|i: int| 0 <= i < out.len() implies 0 <= #[trigger] s2[i] < k + 1 && emitted_within(
        vendas[s2[i]].venda,
        start,
        end,
    ) && out[i]@ == vendas[s2[i]]@ by {
        if i < p {
            assert(s2[i] == src[i]);
        } else if i > p {
            assert(s2[i] == src[i - 1]);
        }
    }
    assert forall|m: int|
        0 <= m < k + 1 && emitted_within((#[trigger] vendas[m]).venda, start, end) implies s2.contains(m) by {
        if m < k {
            let i = choose|i: int| 0 <= i < src.len() && src[i] == m;
            if i < p {
                assert(s2[i] == m);
            } else {
                assert(s2[i + 1] == m);
            }
        } else {
            assert(s2[p] == m);
        }
    }
}

proof fn lemma_drawn_skip(
    out: Seq<VendaWithRelations>,
    src: Seq<int>,
    vendas: Seq<VendaWithRelations>,
    k: int,
    start: CalendarDate,
    end: CalendarDate,
)
    requires
        drawn_from(out, src, vendas, k, start, end),
        0 <= k < vendas.len(),
        !emitted_within(vendas[k].venda, start, end),
    ensures
        drawn_from(out, src, vendas, k + 1, start, end),
{
}

proof fn lemma_drawn_all(
    out: Seq<VendaWithRelations>,
    src: Seq<int>,
    vendas: Seq<VendaWithRelations>,
    start: CalendarDate,
    end: CalendarDate,
)
    requires
        drawn_from(out, src, vendas, vendas.len() as int, start, end),
    ensures
        forall|i: int| 0 <= i < out.len() ==> stored_within(#[trigger] out[i]@, vendas, start, end),
        forall|k: int|
            0 <= k < vendas.len() && emitted_within((#[trigger] vendas[k]).venda, start, end)
                ==> listed(out, vendas[k]@),
{
    assert forall|i: int| 0 <= i < out.len() implies stored_within(#[trigger] out[i]@, vendas, start, end) by {
        let k = src[i];
        assert(0 <= k < vendas.len() && emitted_within(vendas[k].venda, start, end) && out[i]@
            == vendas[k]@);
    }
    assert forall|k: int|
        0 <= k < vendas.len() && emitted_within((#[trigger] vendas[k]).venda, start, end) implies listed(
            out,
            vendas[k]@,
        ) by {
        assert(src.contains(k));
        let i = choose|i: int| 0 <= i < src.len() && src[i] == k;
        assert(out[i]@ == vendas[src[i]]@);
    }
}

proof fn lemma_store_children(db: SqliteDbService)
    requires
        db.wf(),
    ensures
        sales_ordered(db.vendas@),
        children_wf::<VendaItemEntity>(db.vendas@),
        children_wf::<VendaPagamentoEntity>(db.vendas@),
{
}

/// `v` is the report of the sales emitted within the interval: each of them
/// once, with its lines and payments, in the order of reports.
pub open spec fn sales_report(
    v: Seq<VendaWithRelations>,
    vendas: Seq<VendaWithRelations>,
    start: CalendarDate,
    end: CalendarDate,
) -> bool {
    &&& forall|i: int| 0 <= i < v.len() ==> stored_within(#[trigger] v[i]@, vendas, start, end)
    &&& forall|k: int|
        0 <= k < vendas.len() && emitted_within((#[trigger] vendas[k]).venda, start, end) ==> listed(
            v,
            vendas[k]@,
        )
    &&& sales_sorted(v)
}

/// The interval of a report holds both of its bounds: a sale emitted on the
/// first or the last day is reported, and one emitted on a day before the
/// first or after the last is not.
pub proof fn lemma_interval_bounds(
    v: Seq<VendaWithRelations>,
    vendas: Seq<VendaWithRelations>,
    start: CalendarDate,
    end: CalendarDate,
    k: int,
)
    requires
        sales_report(v, vendas, start, end),
        0 <= k < vendas.len(),
        start.ord() <= end.ord(),
    ensures
        vendas[k].venda.dh_emi.date == start ==> listed(v, vendas[k]@),
        vendas[k].venda.dh_emi.date == end ==> listed(v, vendas[k]@),
        vendas[k].venda.dh_emi.date.ord() < start.ord() ==> !listed(v, vendas[k]@),
        vendas[k].venda.dh_emi.date.ord() > end.ord() ==> !listed(v, vendas[k]@),
{
    if listed(v, vendas[k]@) {
        let i = choose|i: int| 0 <= i < v.len() && (#[trigger] v[i])@ == vendas[k]@;
        assert(stored_within(v[i]@, vendas, start, end));
        let m = choose|m: int|
            0 <= m < vendas.len() && emitted_within((#[trigger] vendas[m]).venda, start, end)
                && v[i]@ == vendas[m]@;
        assert(vendas[m].venda == vendas[k].venda);
    }
}

/// Count, total, discount, addition and cancelled count of the sales emitted
/// within the interval.
pub open spec fn summary_of(vendas: Seq<VendaWithRelations>, start: CalendarDate, end: CalendarDate) -> (
    int,
    int,
    int,
    int,
    int,
)
    decreases vendas.len(),
{
    if vendas.len() == 0 {
        (0, 0, 0, 0, 0)
    } else {
        let before = summary_of(vendas.drop_last(), start, end);
        let v = vendas.last().venda;
        if emitted_within(v, start, end) {
            (
                before.0 + 1,
                before.1 + v.total,
                before.2 + v.discount,
                before.3 + v.addition,
                before.4 + if v.cancelled {
                    1int
                } else {
                    0int
                },
            )
        } else {
            before
        }
    }
}

/// Over an interval in which no sale was emitted, every figure of the
/// summary is zero.
pub proof fn lemma_empty_summary(vendas: Seq<VendaWithRelations>, start: CalendarDate, end: CalendarDate)
    requires
        forall|k: int| 0 <= k < vendas.len() ==> !emitted_within((#[trigger] vendas[k]).venda, start, end),
    ensures
        summary_of(vendas, start, end) == (0int, 0int, 0int, 0int, 0int),
    decreases vendas.len(),
{
    if vendas.len() > 0 {
        let w = vendas.drop_last();
        assert forall|k: int| 0 <= k < w.len() implies !emitted_within((#[trigger] w[k]).venda, start, end) by {
            assert(w[k] == vendas[k]);
        }
        lemma_empty_summary(w, start, end);
        assert(!emitted_within(vendas[vendas.len() - 1].venda, start, end));
    }
}

proof fn lemma_summary_bounds(vendas: Seq<VendaWithRelations>, start: CalendarDate, end: CalendarDate)
    ensures
        0 <= summary_of(vendas, start, end).0 <= vendas.len(),
        0 <= summary_of(vendas, start, end).4 <= summary_of(vendas, start, end).0,
        -(vendas.len() * 0x8000_0000_0000_0000) <= summary_of(vendas, start, end).1 <= vendas.len()
            * 0x8000_0000_0000_0000,
        -(vendas.len() * 0x8000_0000_0000_0000) <= summary_of(vendas, start, end).2 <= vendas.len()
            * 0x8000_0000_0000_0000,
        -(vendas.len() * 0x8000_0000_0000_0000) <= summary_of(vendas, start, end).3 <= vendas.len()
            * 0x8000_0000_0000_0000,
    decreases vendas.len(),
{
    if vendas.len() > 0 {
        lemma_summary_bounds(vendas.drop_last(), start, end);
    }
}

/// The summary a report gives: how many sales, the sums of their totals,
/// discounts and additions in cents, and how many were cancelled.
#[derive(Debug, Clone, Copy, PartialEq, Eq, Structural)]
pub struct VendaResumo {
    pub total_vendas: u64,
    pub total_valor: i128,
    pub total_desconto: i128,
    pub total_acrescimo: i128,
    pub total_canceladas: u64,
}

/// Why cancelling the sale with identifier `venda_id` fails, if it does.
pub open spec fn cancel_fault(db: SqliteDbService, venda_id: i64) -> Option<LedgerError> {
    if !db.tables@.contains(Table::Venda) {
        missing(db, Table::Venda, Operation::CancelVenda)
    } else if forall|k: int| 0 <= k < db.vendas@.len() ==> (#[trigger] db.vendas@[k]).venda.id != Some(venda_id) {
        Some(LedgerError::NotFound)
    } else {
        None
    }
}

/// How many lines, and how many payments, the stored sales hold.
pub open spec fn child_counts(vendas: Seq<VendaWithRelations>) -> (int, int)
    decreases vendas.len(),
{
    if vendas.len() == 0 {
        (0, 0)
    } else {
        let before = child_counts(vendas.drop_last());
        (before.0 + vendas.last().itens@.len(), before.1 + vendas.last().pagamentos@.len())
    }
}

/// What cancelling leaves of the stored sale `rec`: marked as cancelled,
/// with the cancellation's key, time and file, updated at `now`, and with its
/// lines and payments as they were.
pub open spec fn cancelled_record(
    rec: VendaWithRelations,
    chave_canc: String,
    dh_emi_canc: String,
    cancel_file_path: Option<String>,
    now: i64,
) -> VendaWithRelations {
    VendaWithRelations {
        venda: VendaEntity {
            cancelled: true,
            chave_canc: Some(chave_canc),
            dh_emi_canc: Some(dh_emi_canc),
            cancel_file_path: cancel_file_path,
            updated_at: now,
            ..rec.venda
        },
        ..rec
    }
}

/// Cancelling a sale keeps the number of stored lines and payments, and
/// leaves the sale marked as cancelled.
pub proof fn lemma_cancel_keeps_children(
    vendas: Seq<VendaWithRelations>,
    k: int,
    chave_canc: String,
    dh_emi_canc: String,
    cancel_file_path: Option<String>,
    now: i64,
)
    requires
        0 <= k < vendas.len(),
    ensures
        child_counts(
            vendas.update(k, cancelled_record(vendas[k], chave_canc, dh_emi_canc, cancel_file_path, now)),
        ) == child_counts(vendas),
        vendas.update(
            k,
            cancelled_record(vendas[k], chave_canc, dh_emi_canc, cancel_file_path, now),
        )[k].venda.cancelled,
    decreases vendas.len(),
{
    let rec = cancelled_record(vendas[k], chave_canc, dh_emi_canc, cancel_file_path, now);
    let u = vendas.update(k, rec);
    if k < vendas.len() - 1 {
        lemma_cancel_keeps_children(vendas.drop_last(), k, chave_canc, dh_emi_canc, cancel_file_path, now);
        assert(u.drop_last() =~= vendas.drop_last().update(k, rec));
    } else {
        assert(u.drop_last() =~= vendas.drop_last());
    }
}

pub struct VendaService;

impl VendaService {
    /// Stores a sale with its lines and payments, all or nothing. The sale
    /// gets the next sale identifier, which is returned; each line and each
    /// payment gets the next identifier of its table, in the order given, and
    /// carries the sale's. Where a statement fails, the store is left as it
    /// was.
    pub fn create_venda(
        db: &mut SqliteDbService,
        venda: &VendaEntity,
        items: Vec<VendaItemEntity>,
        payments: Vec<VendaPagamentoEntity>,
    ) -> (r: Result<i64, LedgerError>)
        requires
            old(db).wf(),
            venda.dh_emi.wf(),
        ensures
            final(db).wf(),
            r matches Err(e) ==> create_fault(*old(db), items@.len() as int, payments@.len() as int)
                == Some(e) && unchanged(*final(db), *old(db)),
            r is Ok <==> create_fault(*old(db), items@.len() as int, payments@.len() as int) is None,
            r matches Ok(id) ==> {
                &&& id == old(db).next_venda_id
                &&& final(db).vendas@.len() == old(db).vendas@.len() + 1
                &&& final(db).vendas@.drop_last() == old(db).vendas@
                &&& final(db).vendas@.last()@ == (
                    VendaEntity { id: Some(id), ..*venda },
                    stored_items(items@, id, old(db).next_item_id),
                    stored_payments(payments@, id, old(db).next_payment_id),
                )
                &&& final(db).next_venda_id == id + 1
                &&& final(db).next_item_id == old(db).next_item_id + items@.len()
                &&& final(db).next_payment_id == old(db).next_payment_id + payments@.len()
                &&& final(db).tables@ == old(db).tables@
                &&& final(db).indexes@ == old(db).indexes@
                &&& final(db).resumes@ == old(db).resumes@
                &&& final(db).configs@ == old(db).configs@
                &&& final(db).db_path == old(db).db_path
            },
    {
        let n_items = items.len();
        let n_payments = payments.len();
        if !db.has_table(Table::Venda) {
            return Err(LedgerError::TransactionFailure(Operation::InsertVenda, StoreFault::MissingTable(Table::Venda)));
        }
        if db.next_venda_id == i64::MAX {
            return Err(LedgerError::TransactionFailure(Operation::InsertVenda, StoreFault::IdsExhausted(Table::Venda)));
        }
        if n_items > 0 && !db.has_table(Table::VendaItem) {
            return Err(LedgerError::TransactionFailure(Operation::InsertItem, StoreFault::MissingTable(Table::VendaItem)));
        }
        if n_items as u64 > (i64::MAX - db.next_item_id) as u64 {
            return Err(LedgerError::TransactionFailure(Operation::InsertItem, StoreFault::IdsExhausted(Table::VendaItem)));
        }
        if n_payments > 0 && !db.has_table(Table::VendaPagamento) {
            return Err(
                LedgerError::TransactionFailure(
                    Operation::InsertPayment,
                    StoreFault::MissingTable(Table::VendaPagamento),
                ),
            );
        }
        if n_payments as u64 > (i64::MAX - db.next_payment_id) as u64 {
            return Err(
                LedgerError::TransactionFailure(
                    Operation::InsertPayment,
                    StoreFault::IdsExhausted(Table::VendaPagamento),
                ),
            );
        }
        let venda_id = db.next_venda_id;
        let mut header = venda.duplicate();
        header.id = Some(venda_id);
        let first_item = db.next_item_id;
        let mut stored: Vec<VendaItemEntity> = Vec::new();
        let mut i: usize = 0;
        while i < n_items
            invariant
                n_items == items@.len(),
                i <= n_items,
                1 <= first_item,
                first_item + n_items <= i64::MAX,
                stored@ == stored_items(items@, venda_id, first_item).subrange(0, i as int),
            decreases n_items - i,
        {
            let mut it = items[i].duplicate();
            it.id = Some(first_item + i as i64);
            it.venda_id = venda_id;
            assert(it == stored_items(items@, venda_id, first_item)[i as int]);
            stored.push(it);
            i = i + 1;
            assert(stored@ =~= stored_items(items@, venda_id, first_item).subrange(0, i as int));
        }
        assert(stored@ =~= stored_items(items@, venda_id, first_item));
        let first_payment = db.next_payment_id;
        let mut stored_p: Vec<VendaPagamentoEntity> = Vec::new();
        let mut i: usize = 0;
        while i < n_payments
            invariant
                n_payments == payments@.len(),
                i <= n_payments,
                1 <= first_payment,
                first_payment + n_payments <= i64::MAX,
                stored_p@ == stored_payments(payments@, venda_id, first_payment).subrange(0, i as int),
            decreases n_payments - i,
        {
            let mut p = payments[i].duplicate();
            p.id = Some(first_payment + i as i64);
            p.venda_id = venda_id;
            assert(p == stored_payments(payments@, venda_id, first_payment)[i as int]);
            stored_p.push(p);
            i = i + 1;
            assert(stored_p@ =~= stored_payments(payments@, venda_id, first_payment).subrange(0, i as int));
        }
        assert(stored_p@ =~= stored_payments(payments@, venda_id, first_payment));
        let record = VendaWithRelations { venda: header, itens: stored, pagamentos: stored_p };
        let ghost old_vendas = db.vendas@;
        db.vendas.push(record);
        db.next_venda_id = venda_id + 1;
        db.next_item_id = first_item + n_items as i64;
        db.next_payment_id = first_payment + n_payments as i64;
        proof {
            let vs = db.vendas@;
            assert(vs.drop_last() =~= old_vendas);
            assert forall|k1: int, j1: int, k2: int, j2: int|
                0 <= k1 < vs.len() && 0 <= j1 < vs[k1].itens@.len() && 0 <= k2 < vs.len() && 0
                    <= j2 < vs[k2].itens@.len() && (k1 != k2 || j1 != j2) implies id_of(
                (#[trigger] vs[k1].itens@[j1]).id,
            ) != id_of((#[trigger] vs[k2].itens@[j2]).id) by {
                if k1 < old_vendas.len() {
                    assert(vs[k1] == old_vendas[k1]);
                }
                if k2 < old_vendas.len() {
                    assert(vs[k2] == old_vendas[k2]);
                }
            }
            assert forall|k1: int, j1: int, k2: int, j2: int|
                0 <= k1 < vs.len() && 0 <= j1 < vs[k1].pagamentos@.len() && 0 <= k2 < vs.len()
                    && 0 <= j2 < vs[k2].pagamentos@.len() && (k1 != k2 || j1 != j2) implies id_of(
                (#[trigger] vs[k1].pagamentos@[j1]).id,
            ) != id_of((#[trigger] vs[k2].pagamentos@[j2]).id) by {
                if k1 < old_vendas.len() {
                    assert(vs[k1] == old_vendas[k1]);
                }
                if k2 < old_vendas.len() {
                    assert(vs[k2] == old_vendas[k2]);
                }
            }
        }
        Ok(venda_id)
    }

    /// Where the sale with identifier `id` stands among the stored ones.
    fn position_of(db: &SqliteDbService, id: i64) -> (r: Option<usize>)
        ensures
            r matches Some(k) ==> k < db.vendas@.len() && db.vendas@[k as int].venda.id == Some(id),
            r is None ==> forall|k: int|
                0 <= k < db.vendas@.len() ==> (#[trigger] db.vendas@[k]).venda.id != Some(id),
    {
        let mut k: usize = 0;
        while k < db.vendas.len()
            invariant
                k <= db.vendas@.len(),
                forall|m: int| 0 <= m < k ==> (#[trigger] db.vendas@[m]).venda.id != Some(id),
            decreases db.vendas@.len() - k,
        {
            if db.vendas[k].venda.id == Some(id) {
                return Some(k);
            }
            k = k + 1;
        }
        None
    }

    /// The sale with identifier `id`, if one is stored.
    pub fn find_by_id(db: &SqliteDbService, id: i64) -> (r: Result<Option<VendaEntity>, LedgerError>)
        requires
            db.wf(),
        ensures
            r is Err <==> !db.tables@.contains(Table::Venda),
            r matches Err(e) ==> Some(e) == missing(*db, Table::Venda, Operation::FindVenda),
            r matches Ok(Some(v)) ==> exists|k: int|
                0 <= k < db.vendas@.len() && (#[trigger] db.vendas@[k]).venda.id == Some(id)
                    && v == db.vendas@[k].venda,
            r matches Ok(None) ==> forall|k: int|
                0 <= k < db.vendas@.len() ==> (#[trigger] db.vendas@[k]).venda.id != Some(id),
    {
        need_table(db, Table::Venda, Operation::FindVenda)?;
        match Self::position_of(db, id) {
            Some(k) => Ok(Some(db.vendas[k].venda.duplicate())),
            None => Ok(None),
        }
    }

    /// The lines of the sale with identifier `id`, in the order they were
    /// given; none where no such sale is stored.
    pub fn find_items_by_venda_id(db: &SqliteDbService, id: i64) -> (r: Result<
        Vec<VendaItemEntity>,
        LedgerError,
    >)
        requires
            db.wf(),
        ensures
            r is Err <==> !db.tables@.contains(Table::VendaItem),
            r matches Err(e) ==> Some(e) == missing(*db, Table::VendaItem, Operation::FindItems),
            r matches Ok(v) ==> (exists|k: int|
                0 <= k < db.vendas@.len() && (#[trigger] db.vendas@[k]).venda.id == Some(id)
                    && v@ == db.vendas@[k].itens@) || ((forall|k: int|
                0 <= k < db.vendas@.len() ==> (#[trigger] db.vendas@[k]).venda.id != Some(id))
                && v@.len() == 0),
    {
        need_table(db, Table::VendaItem, Operation::FindItems)?;
        match Self::position_of(db, id) {
            Some(k) => Ok(copy_items(&db.vendas[k].itens)),
            None => Ok(Vec::new()),
        }
    }

    /// The payments of the sale with identifier `id`, in the order they were
    /// given; none where no such sale is stored.
    pub fn find_payments_by_venda_id(db: &SqliteDbService, id: i64) -> (r: Result<
        Vec<VendaPagamentoEntity>,
        LedgerError,
    >)
        requires
            db.wf(),
        ensures
            r is Err <==> !db.tables@.contains(Table::VendaPagamento),
            r matches Err(e) ==> Some(e) == missing(*db, Table::VendaPagamento, Operation::FindPayments),
            r matches Ok(v) ==> (exists|k: int|
                0 <= k < db.vendas@.len() && (#[trigger] db.vendas@[k]).venda.id == Some(id)
                    && v@ == db.vendas@[k].pagamentos@) || ((forall|k: int|
                0 <= k < db.vendas@.len() ==> (#[trigger] db.vendas@[k]).venda.id != Some(id))
                && v@.len() == 0),
    {
        need_table(db, Table::VendaPagamento, Operation::FindPayments)?;
        match Self::position_of(db, id) {
            Some(k) => Ok(copy_payments(&db.vendas[k].pagamentos)),
            None => Ok(Vec::new()),
        }
    }

    /// Marks the sale with identifier `venda_id` as cancelled, with the key,
    /// time and file of its cancellation, at time `now`. Its lines and
    /// payments, its amounts and every other sale stay as they were. A sale
    /// that is already cancelled takes the new cancellation's fields.
    pub fn cancel_venda(
        db: &mut SqliteDbService,
        venda_id: i64,
        chave_canc: String,
        dh_emi_canc: String,
        cancel_file_path: Option<String>,
        now: i64,
    ) -> (r: Result<(), LedgerError>)
        requires
            old(db).wf(),
        ensures
            final(db).wf(),
            r is Ok <==> cancel_fault(*old(db), venda_id) is None,
            r matches Err(e) ==> cancel_fault(*old(db), venda_id) == Some(e),
            r is Err ==> unchanged(*final(db), *old(db)),
            r is Ok ==> exists|k: int|
                0 <= k < old(db).vendas@.len() && (#[trigger] old(db).vendas@[k]).venda.id == Some(
                    venda_id,
                ) && final(db).vendas@ == old(db).vendas@.update(
                    k,
                    cancelled_record(old(db).vendas@[k], chave_canc, dh_emi_canc, cancel_file_path, now),
                ),
            r is Ok ==> final(db).tables@ == old(db).tables@ && final(db).indexes@ == old(db).indexes@
                && final(db).resumes@ == old(db).resumes@ && final(db).configs@ == old(db).configs@
                && final(db).db_path == old(db).db_path && final(db).next_venda_id == old(db).next_venda_id
                && final(db).next_item_id == old(db).next_item_id && final(db).next_payment_id == old(db).next_payment_id,
    {
        if !db.has_table(Table::Venda) {
            return Err(LedgerError::StorageFailure(Operation::CancelVenda, StoreFault::MissingTable(Table::Venda)));
        }
        let k = match Self::position_of(db, venda_id) {
            Some(k) => k,
            None => {
                return Err(LedgerError::NotFound);
            },
        };
        let ghost before = db.vendas@;
        let mut rec = db.vendas.remove(k);
        rec.venda.cancelled = true;
        rec.venda.chave_canc = Some(chave_canc);
        rec.venda.dh_emi_canc = Some(dh_emi_canc);
        rec.venda.cancel_file_path = cancel_file_path;
        rec.venda.updated_at = now;
        db.vendas.insert(k, rec);
        proof {
            let after = db.vendas@;
            assert(after =~= before.update(k as int, after[k as int]));
            assert(after[k as int].itens@ == before[k as int].itens@);
            assert(forall|m: int| 0 <= m < after.len() ==> #[trigger] after[m].itens@ == before[m].itens@
                && after[m].pagamentos@ == before[m].pagamentos@ && after[m].venda.id == before[m].venda.id
                && after[m].venda.dh_emi == before[m].venda.dh_emi);
        }
        Ok(())
    }

    /// Puts a copy of `rec` into `out` where the order of reports wants it.
    fn insert_sale(out: &mut Vec<VendaWithRelations>, rec: &VendaWithRelations) -> (p: usize)
        requires
            sales_sorted(old(out)@),
            rec.venda.dh_emi.wf(),
            forall|q: int|
                0 <= q < old(out)@.len() ==> (#[trigger] old(out)@[q]).venda.dh_emi.wf() && id_of(
                    old(out)@[q].venda.id,
                ) != id_of(rec.venda.id),
        ensures
            p <= old(out)@.len(),
            final(out)@.len() == old(out)@.len() + 1,
            final(out)@[p as int]@ == rec@,
            forall|q: int| 0 <= q < p ==> final(out)@[q] == old(out)@[q],
            forall|q: int| p < q < final(out)@.len() ==> final(out)@[q] == old(out)@[q - 1],
            sales_sorted(final(out)@),
    {
        let key = rec.venda.dh_emi.sort_key();
        let id = match rec.venda.id {
            Some(id) => id,
            None => 0,
        };
        let mut p: usize = 0;
        let mut found = false;
        while p < out.len() && !found
            invariant
                found ==> p < out@.len() && !sale_precedes(out@[p as int].venda, rec.venda),
                out@ == old(out)@,
                sales_sorted(out@),
                forall|q: int|
                    0 <= q < out@.len() ==> (#[trigger] out@[q]).venda.dh_emi.wf() && id_of(
                        out@[q].venda.id,
                    ) != id_of(rec.venda.id),
                key == rec.venda.dh_emi.key(),
                id == id_of(rec.venda.id),
                p <= out@.len(),
                forall|q: int| 0 <= q < p ==> sale_precedes((#[trigger] out@[q]).venda, rec.venda),
            decreases out@.len() - p + (if found {
                0int
            } else {
                1int
            }),
        {
            let other = &out[p].venda;
            let okey = other.dh_emi.sort_key();
            let oid = match other.id {
                Some(i) => i,
                None => 0,
            };
            if okey > key || (okey == key && oid < id) {
                p = p + 1;
            } else {
                found = true;
            }
        }
        proof {
            assert forall|q: int| p <= q < out@.len() implies sale_precedes(
                rec.venda,
                (#[trigger] out@[q]).venda,
            ) by {
                if q > p {
                    assert(sale_precedes(out@[p as int].venda, out@[q].venda));
                }
            }
        }
        let ghost prev = out@;
        out.insert(p, rec.duplicate());
        proof {
            assert forall|a: int, b: int| 0 <= a < b < out@.len() implies sale_precedes(
                (#[trigger] out@[a]).venda,
                (#[trigger] out@[b]).venda,
            ) by {
                if b < p {
                    assert(out@[a] == prev[a] && out@[b] == prev[b]);
                } else if b == p {
                    assert(out@[a] == prev[a]);
                } else if a < p {
                    assert(out@[a] == prev[a] && out@[b] == prev[b - 1]);
                } else if a == p {
                    assert(out@[b] == prev[b - 1]);
                } else {
                    assert(out@[a] == prev[a - 1] && out@[b] == prev[b - 1]);
                }
            }
        }
        p
    }

    /// The sales emitted from `start` to `end`, both days included, each with
    /// its lines and payments: latest emission first, and among sales emitted
    /// at the same second, the one stored first.
    pub fn get_vendas_by_interval(db: &SqliteDbService, start: CalendarDate, end: CalendarDate) -> (r:
        Result<Vec<VendaWithRelations>, LedgerError>)
        requires
            db.wf(),
            start.wf(),
            end.wf(),
        ensures
            r matches Err(e) ==> Some(e) == interval_fault(*db, start, end),
            r is Ok <==> interval_fault(*db, start, end) is None,
            r matches Ok(v) ==> sales_report(v@, db.vendas@, start, end),
    {
        need_table(db, Table::Venda, Operation::QueryInterval)?;
        let lo = start.ordinal();
        let hi = end.ordinal();
        let mut out: Vec<VendaWithRelations> = Vec::new();
        let ghost mut src: Seq<int> = Seq::empty();
        let mut k: usize = 0;
        while k < db.vendas.len()
            invariant
                db.wf(),
                lo == start.ord() && hi == end.ord(),
                k <= db.vendas@.len(),
                db.tables@.contains(Table::Venda),
                interval_fault(*db, start, end) is None || forall|m: int|
                    0 <= m < k ==> !emitted_within((#[trigger] db.vendas@[m]).venda, start, end),
                drawn_from(out@, src, db.vendas@, k as int, start, end),
                sales_sorted(out@),
            decreases db.vendas@.len() - k,
        {
            let rec = &db.vendas[k];
            let d = rec.venda.dh_emi.date.ordinal();
            if lo <= d && d <= hi {
                if !db.has_table(Table::VendaItem) {
                    return Err(LedgerError::StorageFailure(Operation::FindItems, StoreFault::MissingTable(Table::VendaItem)));
                }
                if !db.has_table(Table::VendaPagamento) {
                    return Err(LedgerError::StorageFailure(Operation::FindPayments, StoreFault::MissingTable(Table::VendaPagamento)));
                }
                proof {
                    assert forall|q: int| 0 <= q < out@.len() implies (#[trigger] out@[q]).venda.dh_emi.wf()
                        && id_of(out@[q].venda.id) != id_of(rec.venda.id) by {
                        assert(out@[q]@ == db.vendas@[src[q]]@);
                        assert(id_of(db.vendas@[src[q]].venda.id) < id_of(db.vendas@[k as int].venda.id));
                    }
                }
                let ghost prev = out@;
                let p = Self::insert_sale(&mut out, rec);
                proof {
                    lemma_drawn_insert(prev, out@, src, db.vendas@, k as int, p as int, start, end);
                    src = src.insert(p as int, k as int);
                }
            } else {
                proof {
                    lemma_drawn_skip(out@, src, db.vendas@, k as int, start, end);
                }
            }
            k = k + 1;
        }
        proof {
            lemma_drawn_all(out@, src, db.vendas@, start, end);
        }
        Ok(out)
    }

    /// The lines of the sales emitted from `start` to `end`, both days
    /// included: by their sale's emission, latest first, then by their own
    /// identifiers.
    pub fn get_items_by_interval(db: &SqliteDbService, start: CalendarDate, end: CalendarDate) -> (r:
        Result<Vec<VendaItemEntity>, LedgerError>)
        requires
            db.wf(),
            start.wf(),
            end.wf(),
        ensures
            !db.tables@.contains(Table::Venda) ==> r == Err::<Vec<VendaItemEntity>, LedgerError>(
                LedgerError::StorageFailure(Operation::QueryInterval, StoreFault::MissingTable(Table::Venda)),
            ),
            db.tables@.contains(Table::Venda) && !db.tables@.contains(Table::VendaItem) ==> r == Err::<
                Vec<VendaItemEntity>,
                LedgerError,
            >(LedgerError::StorageFailure(Operation::QueryInterval, StoreFault::MissingTable(Table::VendaItem))),
            r is Ok <==> db.tables@.contains(Table::Venda) && db.tables@.contains(Table::VendaItem),
            r matches Ok(v) ==> children_report(v@, db.vendas@, start, end),
    {
        need_table(db, Table::Venda, Operation::QueryInterval)?;
        need_table(db, Table::VendaItem, Operation::QueryInterval)?;
        proof {
            lemma_store_children(*db);
        }
        Ok(children_in_interval(&db.vendas, start, end))
    }

    /// The payments of the sales emitted from `start` to `end`, both days
    /// included: by their sale's emission, latest first, then by their own
    /// identifiers.
    pub fn get_payments_by_interval(db: &SqliteDbService, start: CalendarDate, end: CalendarDate) -> (r:
        Result<Vec<VendaPagamentoEntity>, LedgerError>)
        requires
            db.wf(),
            start.wf(),
            end.wf(),
        ensures
            !db.tables@.contains(Table::Venda) ==> r == Err::<Vec<VendaPagamentoEntity>, LedgerError>(
                LedgerError::StorageFailure(Operation::QueryInterval, StoreFault::MissingTable(Table::Venda)),
            ),
            db.tables@.contains(Table::Venda) && !db.tables@.contains(Table::VendaPagamento) ==> r == Err::<
                Vec<VendaPagamentoEntity>,
                LedgerError,
            >(LedgerError::StorageFailure(Operation::QueryInterval, StoreFault::MissingTable(Table::VendaPagamento))),
            r is Ok <==> db.tables@.contains(Table::Venda) && db.tables@.contains(Table::VendaPagamento),
            r matches Ok(v) ==> children_report(v@, db.vendas@, start, end),
    {
        need_table(db, Table::Venda, Operation::QueryInterval)?;
        need_table(db, Table::VendaPagamento, Operation::QueryInterval)?;
        proof {
            lemma_store_children(*db);
        }
        Ok(children_in_interval(&db.vendas, start, end))
    }

    /// How many sales were emitted from `start` to `end`, both days included,
    /// the sums of their totals, discounts and additions, and how many of
    /// them were cancelled. Every figure is zero where no sale falls in the
    /// interval.
    pub fn get_resumo_by_interval(db: &SqliteDbService, start: CalendarDate, end: CalendarDate) -> (r:
        Result<VendaResumo, LedgerError>)
        requires
            db.wf(),
            start.wf(),
            end.wf(),
        ensures
            r is Err <==> !db.tables@.contains(Table::Venda),
            r matches Err(e) ==> Some(e) == missing(*db, Table::Venda, Operation::Summary),
            r matches Ok(s) ==> (s.total_vendas as int, s.total_valor as int, s.total_desconto as int,
                s.total_acrescimo as int, s.total_canceladas as int) == summary_of(db.vendas@, start, end),
    {
        need_table(db, Table::Venda, Operation::Summary)?;
        let lo = start.ordinal();
        let hi = end.ordinal();
        let mut count: u64 = 0;
        let mut total: i128 = 0;
        let mut discount: i128 = 0;
        let mut addition: i128 = 0;
        let mut cancelled: u64 = 0;
        let mut k: usize = 0;
        while k < db.vendas.len()
            invariant
                db.wf(),
                lo == start.ord() && hi == end.ord(),
                k <= db.vendas@.len(),
                (count as int, total as int, discount as int, addition as int, cancelled as int)
                    == summary_of(db.vendas@.subrange(0, k as int), start, end),
            decreases db.vendas@.len() - k,
        {
            let ghost pre = db.vendas@.subrange(0, k as int);
            let ghost next = db.vendas@.subrange(0, k as int + 1);
            assert(next.drop_last() =~= pre);
            proof {
                lemma_summary_bounds(pre, start, end);
                lemma_summary_bounds(next, start, end);
            }
            let v = &db.vendas[k].venda;
            let d = v.dh_emi.date.ordinal();
            if lo <= d && d <= hi {
                count = count + 1;
                total = total + v.total as i128;
                discount = discount + v.discount as i128;
                addition = addition + v.addition as i128;
                if v.cancelled {
                    cancelled = cancelled + 1;
                }
            }
            k = k + 1;
        }
        assert(db.vendas@.subrange(0, k as int) =~= db.vendas@);
        Ok(
            VendaResumo {
                total_vendas: count,
                total_valor: total,
                total_desconto: discount,
                total_acrescimo: addition,
                total_canceladas: cancelled,
            },
        )
    }
}

} // verus!
