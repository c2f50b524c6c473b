use vstd::prelude::*;
use crate::calendar::DateTime;
use crate::payment::PaymentTypes;

verus! {

/// A copy of an optional text.
pub(crate) fn copy_text(t: &Option<String>) -> (r: Option<String>)
    ensures
        r == *t,
{
    match t {
        Some(s) => Some(s.clone()),
        None => None,
    }
}

/// The header of a sale: one fiscal document. Money is in cents, times are
/// milliseconds since the Unix epoch.
#[derive(Debug, Clone)]
pub struct VendaEntity {
    pub id: Option<i64>,
    pub tip: i32,
    pub mod_: i32,
    pub serie_origin: String,
    pub serie: String,
    pub nr_nf_origin: i32,
    pub nr_nf: i32,
    pub cnpj: String,
    pub doc_destinatario: Option<String>,
    pub dh_emi: DateTime,
    pub dh_emi_canc: Option<String>,
    pub total: i64,
    pub addition: i64,
    pub discount: i64,
    pub chave: String,
    pub chave_canc: Option<String>,
    pub file_path: Option<String>,
    pub cancel_file_path: Option<String>,
    pub protocolo: Option<String>,
    pub cancelled: bool,
    pub created_at: i64,
    pub updated_at: i64,
}

impl VendaEntity {
    /// A sale not yet stored, with no addition, discount or cancellation,
    /// created at `now`.
    pub fn new(
        tip: i32,
        mod_: i32,
        serie: String,
        nr_nf: i32,
        cnpj: String,
        dh_emi: DateTime,
        total: i64,
        chave: String,
        now: i64,
    ) -> (r: VendaEntity)
        ensures
            r.id is None,
            r.tip == tip && r.mod_ == mod_ && r.serie == serie && r.nr_nf == nr_nf,
            r.cnpj == cnpj && r.dh_emi == dh_emi && r.total == total && r.chave == chave,
            r.serie_origin@ == seq!['0'],
            r.nr_nf_origin == 0,
            r.doc_destinatario is None && r.dh_emi_canc is None && r.chave_canc is None,
            r.file_path is None && r.cancel_file_path is None && r.protocolo is None,
            r.addition == 0 && r.discount == 0 && !r.cancelled,
            r.created_at == now && r.updated_at == now,
    {
        let serie_origin = String::from_str("0");
        proof {
            reveal_strlit("0");
        }
        VendaEntity {
            id: None,
            tip,
            mod_,
            serie_origin,
            serie,
            nr_nf_origin: 0,
            nr_nf,
            cnpj,
            doc_destinatario: None,
            dh_emi,
            dh_emi_canc: None,
            total,
            addition: 0,
            discount: 0,
            chave,
            chave_canc: None,
            file_path: None,
            cancel_file_path: None,
            protocolo: None,
            cancelled: false,
            created_at: now,
            updated_at: now,
        }
    }

    pub fn duplicate(&self) -> (r: VendaEntity)
        ensures
            r == *self,
    {
        VendaEntity {
            id: self.id,
            tip: self.tip,
            mod_: self.mod_,
            serie_origin: self.serie_origin.clone(),
            serie: self.serie.clone(),
            nr_nf_origin: self.nr_nf_origin,
            nr_nf: self.nr_nf,
            cnpj: self.cnpj.clone(),
            doc_destinatario: copy_text(&self.doc_destinatario),
            dh_emi: self.dh_emi,
            dh_emi_canc: copy_text(&self.dh_emi_canc),
            total: self.total,
            addition: self.addition,
            discount: self.discount,
            chave: self.chave.clone(),
            chave_canc: copy_text(&self.chave_canc),
            file_path: copy_text(&self.file_path),
            cancel_file_path: copy_text(&self.cancel_file_path),
            protocolo: copy_text(&self.protocolo),
            cancelled: self.cancelled,
            created_at: self.created_at,
            updated_at: self.updated_at,
        }
    }
}

/// One line of a sale. Money is in cents, the quantity in whole units.
#[derive(Debug, Clone)]
pub struct VendaItemEntity {
    pub id: Option<i64>,
    pub venda_id: i64,
    pub produto_code: String,
    pub produto_description: String,
    pub produto_medida: String,
    pub quantidade: i64,
    pub preco_unitario: i64,
    pub desconto: i64,
    pub desconto_rat: i64,
    pub acrescimo: i64,
    pub acrescimo_rat: i64,
    pub preco_total: i64,
    pub created_at: i64,
    pub updated_at: i64,
}

impl VendaItemEntity {
    /// A line not yet stored, whose total is its quantity times its unit
    /// price, with no discount or addition, created at `now`.
    pub fn new(
        venda_id: i64,
        produto_code: String,
        produto_description: String,
        produto_medida: String,
        quantidade: i64,
        preco_unitario: i64,
        now: i64,
    ) -> (r: VendaItemEntity)
        requires
            i64::MIN <= quantidade * preco_unitario <= i64::MAX,
        ensures
            r.id is None,
            r.venda_id == venda_id && r.produto_code == produto_code,
            r.produto_description == produto_description && r.produto_medida == produto_medida,
            r.quantidade == quantidade && r.preco_unitario == preco_unitario,
            r.preco_total == quantidade * preco_unitario,
            r.desconto == 0 && r.desconto_rat == 0 && r.acrescimo == 0 && r.acrescimo_rat == 0,
            r.created_at == now && r.updated_at == now,
    {
        VendaItemEntity {
            id: None,
            venda_id,
            produto_code,
            produto_description,
            produto_medida,
            quantidade,
            preco_unitario,
            desconto: 0,
            desconto_rat: 0,
            acrescimo: 0,
            acrescimo_rat: 0,
            preco_total: quantidade * preco_unitario,
            created_at: now,
            updated_at: now,
        }
    }

    pub fn duplicate(&self) -> (r: VendaItemEntity)
        ensures
            r == *self,
    {
        VendaItemEntity {
            id: self.id,
            venda_id: self.venda_id,
            produto_code: self.produto_code.clone(),
            produto_description: self.produto_description.clone(),
            produto_medida: self.produto_medida.clone(),
            quantidade: self.quantidade,
            preco_unitario: self.preco_unitario,
            desconto: self.desconto,
            desconto_rat: self.desconto_rat,
            acrescimo: self.acrescimo,
            acrescimo_rat: self.acrescimo_rat,
            preco_total: self.preco_total,
            created_at: self.created_at,
            updated_at: self.updated_at,
        }
    }
}

/// One tender applied to a sale. The amount is in cents.
#[derive(Debug, Clone)]
pub struct VendaPagamentoEntity {
    pub id: Option<i64>,
    pub venda_id: i64,
    pub code: String,
    pub name: String,
    pub total_pagamento: i64,
    pub created_at: i64,
    pub updated_at: i64,
}

impl VendaPagamentoEntity {
    /// A payment not yet stored, created at `now`.
    pub fn new(venda_id: i64, code: String, name: String, total_pagamento: i64, now: i64) -> (r:
        VendaPagamentoEntity)
        ensures
            r.id is None,
            r.venda_id == venda_id && r.code == code && r.name == name,
            r.total_pagamento == total_pagamento,
            r.created_at == now && r.updated_at == now,
    {
        VendaPagamentoEntity {
            id: None,
            venda_id,
            code,
            name,
            total_pagamento,
            created_at: now,
            updated_at: now,
        }
    }

    pub fn duplicate(&self) -> (r: VendaPagamentoEntity)
        ensures
            r == *self,
    {
        VendaPagamentoEntity {
            id: self.id,
            venda_id: self.venda_id,
            code: self.code.clone(),
            name: self.name.clone(),
            total_pagamento: self.total_pagamento,
            created_at: self.created_at,
            updated_at: self.updated_at,
        }
    }
}

/// The running totals of one payment method over one day: `amount_s` is
/// what was settled, `amount_n` what was not. Amounts are in cents, times in
/// milliseconds since the Unix epoch.
#[derive(Debug, Clone)]
pub struct ResumeEntity {
    pub id: String,
    pub code: PaymentTypes,
    pub amount_s: i64,
    pub amount_n: i64,
    pub updated_at: i64,
    pub created_at: i64,
}

impl ResumeEntity {
    /// Fresh totals of zero for `code`, created at `now`.
    pub fn new(id: String, code: PaymentTypes, now: i64) -> (r: ResumeEntity)
        ensures
            r.id == id && r.code == code,
            r.amount_s == 0 && r.amount_n == 0,
            r.created_at == now && r.updated_at == now,
    {
        ResumeEntity { id, code, amount_s: 0, amount_n: 0, updated_at: now, created_at: now }
    }

    pub fn duplicate(&self) -> (r: ResumeEntity)
        ensures
            r == *self,
    {
        ResumeEntity {
            id: self.id.clone(),
            code: self.code,
            amount_s: self.amount_s,
            amount_n: self.amount_n,
            updated_at: self.updated_at,
            created_at: self.created_at,
        }
    }
}

/// A sale together with its lines and its payments, in the order they were
/// given.
#[derive(Debug, Clone)]
pub struct VendaWithRelations {
    pub venda: VendaEntity,
    pub itens: Vec<VendaItemEntity>,
    pub pagamentos: Vec<VendaPagamentoEntity>,
}

impl View for VendaWithRelations {
    type V = (VendaEntity, Seq<VendaItemEntity>, Seq<VendaPagamentoEntity>);

    open spec fn view(&self) -> Self::V {
        (self.venda, self.itens@, self.pagamentos@)
    }
}

pub(crate) fn copy_items(v: &Vec<VendaItemEntity>) -> (r: Vec<VendaItemEntity>)
    ensures
        r@ == v@,
{
    let mut r: Vec<VendaItemEntity> = Vec::new();
    let mut i: usize = 0;
    while i < v.len()
        invariant
            i <= v@.len(),
            r@ == v@.subrange(0, i as int),
        decreases v@.len() - i,
    {
        r.push(v[i].duplicate());
        i = i + 1;
        assert(r@ =~= v@.subrange(0, i as int));
    }
    assert(r@ =~= v@);
    r
}

pub(crate) fn copy_payments(v: &Vec<VendaPagamentoEntity>) -> (r: Vec<VendaPagamentoEntity>)
    ensures
        r@ == v@,
{
    let mut r: Vec<VendaPagamentoEntity> = Vec::new();
    let mut i: usize = 0;
    while i < v.len()
        invariant
            i <= v@.len(),
            r@ == v@.subrange(0, i as int),
        decreases v@.len() - i,
    {
        r.push(v[i].duplicate());
        i = i + 1;
        assert(r@ =~= v@.subrange(0, i as int));
    }
    assert(r@ =~= v@);
    r
}

impl VendaWithRelations {
    pub fn duplicate(&self) -> (r: VendaWithRelations)
        ensures
            r@ == self@,
    {
        VendaWithRelations {
            venda: self.venda.duplicate(),
            itens: copy_items(&self.itens),
            pagamentos: copy_payments(&self.pagamentos),
        }
    }
}

} // verus!
