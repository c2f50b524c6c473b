use vstd::prelude::*;
use crate::calendar::CalendarDate;
use crate::entities::{VendaItemEntity, VendaPagamentoEntity, VendaWithRelations};
use crate::store::{id_of, vendas_wf};
use crate::venda::{child_precedes, emission_of, emitted_within};

verus! {

/// A row that belongs to a sale: a line or a payment.
pub trait SaleChild: Sized {
    spec fn row_id(&self) -> Option<i64>;

    spec fn parent(&self) -> i64;

    /// The rows of this kind that `rec` holds.
    spec fn of_record(rec: VendaWithRelations) -> Seq<Self>;

    fn id_value(&self) -> (r: Option<i64>)
        ensures
            r == self.row_id(),
    ;

    fn children(rec: &VendaWithRelations) -> (r: &Vec<Self>)
        ensures
            r@ == Self::of_record(*rec),
    ;

    fn duplicate_row(&self) -> (r: Self)
        ensures
            r == *self,
    ;
}

impl SaleChild for VendaItemEntity {
    open spec fn row_id(&self) -> Option<i64> {
        self.id
    }

    open spec fn parent(&self) -> i64 {
        self.venda_id
    }

    open spec fn of_record(rec: VendaWithRelations) -> Seq<Self> {
        rec.itens@
    }

    fn id_value(&self) -> (r: Option<i64>) {
        self.id
    }

    fn children(rec: &VendaWithRelations) -> (r: &Vec<Self>) {
        &rec.itens
    }

    fn duplicate_row(&self) -> (r: Self) {
        self.duplicate()
    }
}

impl SaleChild for VendaPagamentoEntity {
    open spec fn row_id(&self) -> Option<i64> {
        self.id
    }

    open spec fn parent(&self) -> i64 {
        self.venda_id
    }

    open spec fn of_record(rec: VendaWithRelations) -> Seq<Self> {
        rec.pagamentos@
    }

    fn id_value(&self) -> (r: Option<i64>) {
        self.id
    }

    fn children(rec: &VendaWithRelations) -> (r: &Vec<Self>) {
        &rec.pagamentos
    }

    fn duplicate_row(&self) -> (r: Self) {
        self.duplicate()
    }
}

/// The rows of a kind in a store: each carries its sale's identifier and an
/// identifier of its own, which no other row of the kind has.
pub open spec fn children_wf<T: SaleChild>(vendas: Seq<VendaWithRelations>) -> bool {
    &&& forall|k: int, j: int|
        0 <= k < vendas.len() && 0 <= j < T::of_record(vendas[k]).len() ==> {
            &&& (#[trigger] T::of_record(vendas[k])[j]).row_id() is Some
            &&& T::of_record(vendas[k])[j].parent() == id_of(vendas[k].venda.id)
        }
    &&& forall|k1: int, j1: int, k2: int, j2: int|
        0 <= k1 < vendas.len() && 0 <= j1 < T::of_record(vendas[k1]).len() && 0 <= k2
            < vendas.len() && 0 <= j2 < T::of_record(vendas[k2]).len() && (k1 != k2 || j1 != j2)
            ==> id_of((#[trigger] T::of_record(vendas[k1])[j1]).row_id()) != id_of(
            (#[trigger] T::of_record(vendas[k2])[j2]).row_id(),
        )
}

/// `x` is a row of a sale emitted within the interval.
pub open spec fn child_within<T: SaleChild>(
    x: T,
    vendas: Seq<VendaWithRelations>,
    start: CalendarDate,
    end: CalendarDate,
) -> bool {
    exists|k: int, j: int|
        0 <= k < vendas.len() && emitted_within(vendas[k].venda, start, end) && 0 <= j
            < T::of_record(vendas[k]).len() && x == #[trigger] T::of_record(vendas[k])[j]
}

pub open spec fn child_listed<T>(s: Seq<T>, x: T) -> bool {
    exists|i: int| 0 <= i < s.len() && #[trigger] s[i] == x
}

/// Rows in the order of reports: by their sale's emission, latest first,
/// then by their own identifiers.
pub open spec fn children_sorted<T: SaleChild>(s: Seq<T>, vendas: Seq<VendaWithRelations>) -> bool {
    forall|a: int, b: int|
        0 <= a < b < s.len() ==> child_precedes(
            emission_of(vendas, (#[trigger] s[a]).parent()),
            s[a].row_id(),
            emission_of(vendas, (#[trigger] s[b]).parent()),
            s[b].row_id(),
        )
}

/// The rows of each kind that sales emitted within the interval hold, in the
/// order of reports.
pub open spec fn children_report<T: SaleChild>(
    r: Seq<T>,
    vendas: Seq<VendaWithRelations>,
    start: CalendarDate,
    end: CalendarDate,
) -> bool {
    &&& forall|i: int| 0 <= i < r.len() ==> child_within(#[trigger] r[i], vendas, start, end)
    &&& forall|k: int, j: int|
        0 <= k < vendas.len() && emitted_within(vendas[k].venda, start, end) && 0 <= j
            < T::of_record(vendas[k]).len() ==> child_listed(r, #[trigger] T::of_record(vendas[k])[j])
    &&& children_sorted(r, vendas)
}

/// Where `src` says each row of `out` comes from: the first `k` sales, and
/// of sale `k` its first `j` rows.
pub open spec fn drawn<T: SaleChild>(
    out: Seq<T>,
    keys: Seq<u64>,
    src: Seq<(int, int)>,
    vendas: Seq<VendaWithRelations>,
    k: int,
    j: int,
    start: CalendarDate,
    end: CalendarDate,
) -> bool {
    &&& src.len() == out.len() && keys.len() == out.len()
    &&& forall|i: int|
        0 <= i < out.len() ==> {
            let (m, n) = #[trigger] src[i];
            &&& 0 <= m < vendas.len()
            &&& (m < k || (m == k && n < j))
            &&& emitted_within(vendas[m].venda, start, end)
            &&& 0 <= n < T::of_record(vendas[m]).len()
            &&& out[i] == T::of_record(vendas[m])[n]
            &&& keys[i] as int == vendas[m].venda.dh_emi.key()
        }
    &&& forall|m: int, n: int|
        0 <= m < vendas.len() && emitted_within(vendas[m].venda, start, end) && 0 <= n
            < T::of_record(vendas[m]).len() && (m < k || (m == k && n < j)) ==> src.contains(
            (m, n),
        )
}

pub open spec fn keyed_sorted<T: SaleChild>(out: Seq<T>, keys: Seq<u64>) -> bool {
    forall|a: int, b: int|
        0 <= a < b < out.len() ==> child_precedes(
            keys[a] as int,
            (#[trigger] out[a]).row_id(),
            keys[b] as int,
            (#[trigger] out[b]).row_id(),
        )
}

/// Puts a copy of `row`, whose sale was emitted at `key`, where the order of
/// reports wants it.
fn insert_child<T: SaleChild>(out: &mut Vec<T>, keys: &mut Vec<u64>, row: &T, key: u64) -> (p: usize)
    requires
        old(keys)@.len() == old(out)@.len(),
        keyed_sorted(old(out)@, old(keys)@),
        row.row_id() is Some,
        forall|q: int|
            0 <= q < old(out)@.len() ==> (#[trigger] old(out)@[q]).row_id() is Some && id_of(
                old(out)@[q].row_id(),
            ) != id_of(row.row_id()),
    ensures
        p <= old(out)@.len(),
        final(out)@ == old(out)@.insert(p as int, *row),
        final(keys)@ == old(keys)@.insert(p as int, key),
        keyed_sorted(final(out)@, final(keys)@),
{
    let id = match row.id_value() {
        Some(i) => i,
        None => 0,
    };
    let mut p: usize = 0;
    let mut found = false;
    while p < out.len() && !found
        invariant
            found ==> p < out@.len() && !child_precedes(
                keys@[p as int] as int,
                out@[p as int].row_id(),
                key as int,
                row.row_id(),
            ),
            out@ == old(out)@,
            keys@ == old(keys)@,
            keys@.len() == out@.len(),
            id == id_of(row.row_id()),
            p <= out@.len(),
            forall|q: int|
                0 <= q < p ==> child_precedes(
                    keys@[q] as int,
                    (#[trigger] out@[q]).row_id(),
                    key as int,
                    row.row_id(),
                ),
        decreases out@.len() - p + (if found {
            0int
        } else {
            1int
        }),
    {
        let okey = keys[p];
        let oid = match out[p].id_value() {
            Some(i) => i,
            None => 0,
        };
        if okey > key || (okey == key && oid < id) {
            p = p + 1;
        } else {
            found = true;
        }
    }
    proof {
        assert forall|q: int| p <= q < out@.len() implies child_precedes(
            key as int,
            row.row_id(),
            keys@[q] as int,
            (#[trigger] out@[q]).row_id(),
        ) by {
            assert(id_of(out@[p as int].row_id()) != id_of(row.row_id()));
            if q > p {
                assert(child_precedes(
                    keys@[p as int] as int,
                    out@[p as int].row_id(),
                    keys@[q] as int,
                    out@[q].row_id(),
                ));
            }
        }
    }
    let ghost prev = out@;
    let ghost prev_keys = keys@;
    out.insert(p, row.duplicate_row());
    keys.insert(p, key);
    proof {
        assert forall|a: int, b: int| 0 <= a < b < out@.len() implies child_precedes(
            keys@[a] as int,
            (#[trigger] out@[a]).row_id(),
            keys@[b] as int,
            (#[trigger] out@[b]).row_id(),
        ) by {
            if b < p {
                assert(out@[a] == prev[a] && out@[b] == prev[b]);
            } else if b == p {
                assert(out@[a] == prev[a]);
            } else if a < p {
                assert(out@[a] == prev[a] && out@[b] == prev[b - 1]);
            } else if a == p {
                assert(out@[b] == prev[b - 1]);
            } else {
                assert(out@[a] == prev[a - 1] && out@[b] == prev[b - 1]);
            }
        }
    }
    p
}

/// Each stored sale has an identifier, larger than those of the sales stored
/// before it, and a valid emission time.
pub open spec fn sales_ordered(vendas: Seq<VendaWithRelations>) -> bool {
    &&& forall|k: int|
        0 <= k < vendas.len() ==> (#[trigger] vendas[k]).venda.id is Some
            && vendas[k].venda.dh_emi.wf()
    &&& forall|a: int, b: int|
        0 <= a < b < vendas.len() ==> id_of((#[trigger] vendas[a]).venda.id) < id_of(
            (#[trigger] vendas[b]).venda.id,
        )
}

proof fn lemma_drawn_insert<T: SaleChild>(
    prev: Seq<T>,
    prev_keys: Seq<u64>,
    src: Seq<(int, int)>,
    vendas: Seq<VendaWithRelations>,
    k: int,
    j: int,
    p: int,
    key: u64,
    start: CalendarDate,
    end: CalendarDate,
)
    requires
        drawn(prev, prev_keys, src, vendas, k, j, start, end),
        key as int == vendas[k].venda.dh_emi.key(),
        0 <= k < vendas.len(),
        emitted_within(vendas[k].venda, start, end),
        0 <= j < T::of_record(vendas[k]).len(),
        0 <= p <= prev.len(),
    ensures
        drawn(
            prev.insert(p, T::of_record(vendas[k])[j]),
            prev_keys.insert(p, key),
            src.insert(p, (k, j)),
            vendas,
            k,
            j + 1,
            start,
            end,
        ),
{
    let out = prev.insert(p, T::of_record(vendas[k])[j]);
    let keys = prev_keys.insert(p, key);
    let s2 = src.insert(p, (k, j));
    assert forall|i: int| 0 <= i < out.len() implies {
        let (m, n) = #[trigger] s2[i];
        &&& 0 <= m < vendas.len()
        &&& (m < k || (m == k && n < j + 1))
        &&& emitted_within(vendas[m].venda, start, end)
        &&& 0 <= n < T::of_record(vendas[m]).len()
        &&& out[i] == T::of_record(vendas[m])[n]
        &&& keys[i] as int == vendas[m].venda.dh_emi.key()
    } by {
        if i < p {
            assert(s2[i] == src[i] && out[i] == prev[i] && keys[i] == prev_keys[i]);
        } else if i > p {
            assert(s2[i] == src[i - 1] && out[i] == prev[i - 1] && keys[i] == prev_keys[i - 1]);
        } else {
            assert(s2[i] == (k, j));
        }
    }
    assert forall|m: int, n: int|
        0 <= m < vendas.len() && emitted_within(vendas[m].venda, start, end) && 0 <= n
            < T::of_record(vendas[m]).len() && (m < k || (m == k && n < j + 1)) implies s2.contains(
        (m, n),
    ) by {
        if m == k && n == j {
            assert(s2[p] == (m, n));
        } else {
            assert(src.contains((m, n)));
            let i = choose|i: int| 0 <= i < src.len() && src[i] == (m, n);
            if i < p {
                assert(s2[i] == (m, n));
            } else {
                assert(s2[i + 1] == (m, n));
            }
        }
    }
}

proof fn lemma_drawn_report<T: SaleChild>(
    out: Seq<T>,
    keys: Seq<u64>,
    src: Seq<(int, int)>,
    vendas: Seq<VendaWithRelations>,
    start: CalendarDate,
    end: CalendarDate,
)
    requires
        drawn(out, keys, src, vendas, vendas.len() as int, 0, start, end),
        keyed_sorted(out, keys),
        sales_ordered(vendas),
        children_wf::<T>(vendas),
    ensures
        children_report(out, vendas, start, end),
{
    assert forall|i: int| 0 <= i < out.len() implies child_within(#[trigger] out[i], vendas, start, end)
        by {
        let (m, n) = src[i];
        assert(T::of_record(vendas[m])[n] == out[i]);
    }
    assert forall|m: int, n: int|
        0 <= m < vendas.len() && emitted_within(vendas[m].venda, start, end) && 0 <= n
            < T::of_record(vendas[m]).len() implies child_listed(
        out,
        #[trigger] T::of_record(vendas[m])[n],
    ) by {
        assert(src.contains((m, n)));
        let i = choose|i: int| 0 <= i < src.len() && src[i] == (m, n);
        assert(out[i] == T::of_record(vendas[m])[n]);
    }
    assert forall|i: int| 0 <= i < out.len() implies keys[i] as int == emission_of(
        vendas,
        (#[trigger] out[i]).parent(),
    ) by {
        let (m, n) = src[i];
        assert(T::of_record(vendas[m])[n] == out[i]);
        assert(vendas[m].venda.id == Some(out[i].parent()));
        let c = choose|c: int|
            0 <= c < vendas.len() && (#[trigger] vendas[c]).venda.id == Some(out[i].parent());
        if c < m {
            assert(id_of(vendas[c].venda.id) < id_of(vendas[m].venda.id));
        } else if c > m {
            assert(id_of(vendas[m].venda.id) < id_of(vendas[c].venda.id));
        }
    }
    assert forall|a: int, b: int| 0 <= a < b < out.len() implies child_precedes(
        emission_of(vendas, (#[trigger] out[a]).parent()),
        out[a].row_id(),
        emission_of(vendas, (#[trigger] out[b]).parent()),
        out[b].row_id(),
    ) by {
        assert(keys[a] as int == emission_of(vendas, out[a].parent()));
        assert(keys[b] as int == emission_of(vendas, out[b].parent()));
    }
}

/// The rows of each kind that the sales emitted from `start` to `end` hold,
/// by their sale's emission, latest first, then by their own identifiers.
pub fn children_in_interval<T: SaleChild>(
    vendas: &Vec<VendaWithRelations>,
    start: CalendarDate,
    end: CalendarDate,
) -> (r: Vec<T>)
    requires
        sales_ordered(vendas@),
        children_wf::<T>(vendas@),
        start.wf(),
        end.wf(),
    ensures
        children_report(r@, vendas@, start, end),
{
    let lo = start.ordinal();
    let hi = end.ordinal();
    let mut out: Vec<T> = Vec::new();
    let mut keys: Vec<u64> = Vec::new();
    let ghost mut src: Seq<(int, int)> = Seq::empty();
    let mut k: usize = 0;
    while k < vendas.len()
        invariant
            sales_ordered(vendas@),
            children_wf::<T>(vendas@),
            lo == start.ord() && hi == end.ord(),
            k <= vendas@.len(),
            drawn(out@, keys@, src, vendas@, k as int, 0, start, end),
            keyed_sorted(out@, keys@),
        decreases vendas@.len() - k,
    {
        let rec = &vendas[k];
        let d = rec.venda.dh_emi.date.ordinal();
        if lo <= d && d <= hi {
            let key = rec.venda.dh_emi.sort_key();
            let rows = T::children(rec);
            let mut j: usize = 0;
            while j < rows.len()
                invariant
                    sales_ordered(vendas@),
                    children_wf::<T>(vendas@),
                    k < vendas@.len(),
                    *rec == vendas@[k as int],
                    rows@ == T::of_record(vendas@[k as int]),
                    emitted_within(rec.venda, start, end),
                    key as int == rec.venda.dh_emi.key(),
                    j <= rows@.len(),
                    drawn(out@, keys@, src, vendas@, k as int, j as int, start, end),
                    keyed_sorted(out@, keys@),
                decreases rows@.len() - j,
            {
                proof {
                    assert forall|q: int| 0 <= q < out@.len() implies (#[trigger] out@[q]).row_id() is Some
                        && id_of(out@[q].row_id()) != id_of(rows@[j as int].row_id()) by {
                        let (m, n) = src[q];
                        assert(out@[q] == T::of_record(vendas@[m])[n]);
                        assert(rows@[j as int] == T::of_record(vendas@[k as int])[j as int]);
                    }
                    assert(rows@[j as int] == T::of_record(vendas@[k as int])[j as int]);
                }
                let ghost prev = out@;
                let ghost prev_keys = keys@;
                let p = insert_child(&mut out, &mut keys, &rows[j], key);
                proof {
                    lemma_drawn_insert(prev, prev_keys, src, vendas@, k as int, j as int, p as int, key, start, end);
                    src = src.insert(p as int, (k as int, j as int));
                }
                j = j + 1;
            }
        }
        k = k + 1;
    }
    proof {
        lemma_drawn_report(out@, keys@, src, vendas@, start, end);
    }
    out
}

} // verus!
