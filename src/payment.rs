use vstd::prelude::*;

verus! {

/// The payment methods of a fiscal document, each with its two-digit code.
#[derive(Debug, Clone, Copy, PartialEq, Eq, Structural)]
pub enum PaymentTypes {
    Dinheiro,
    Cheque,
    CartaoDeCredito,
    CartaoDeDebito,
    CreditoLoja,
    ValeAlimentacao,
    ValeRefeicao,
    ValePresente,
    ValeCombustivel,
    DuplicataMercantil,
    BoletoBancario,
    SemPagamento,
    Outros,
}

/// The two-digit code of a payment method.
pub open spec fn code_of(p: PaymentTypes) -> Seq<char> {
    match p {
        PaymentTypes::Dinheiro => seq!['0', '1'],
        PaymentTypes::Cheque => seq!['0', '2'],
        PaymentTypes::CartaoDeCredito => seq!['0', '3'],
        PaymentTypes::CartaoDeDebito => seq!['0', '4'],
        PaymentTypes::CreditoLoja => seq!['0', '5'],
        PaymentTypes::ValeAlimentacao => seq!['1', '0'],
        PaymentTypes::ValeRefeicao => seq!['1', '1'],
        PaymentTypes::ValePresente => seq!['1', '2'],
        PaymentTypes::ValeCombustivel => seq!['1', '3'],
        PaymentTypes::DuplicataMercantil => seq!['1', '4'],
        PaymentTypes::BoletoBancario => seq!['1', '5'],
        PaymentTypes::SemPagamento => seq!['9', '0'],
        PaymentTypes::Outros => seq!['9', '9'],
    }
}

/// The payment method whose code is `s`, if any.
pub open spec fn method_of(s: Seq<char>) -> Option<PaymentTypes> {
    if exists|p: PaymentTypes| code_of(p) == s {
        Some(choose|p: PaymentTypes| code_of(p) == s)
    } else {
        None
    }
}

/// Two methods never share a code.
pub proof fn lemma_code_injective(p: PaymentTypes, q: PaymentTypes)
    ensures
        code_of(p) == code_of(q) ==> p == q,
{
    if code_of(p) == code_of(q) {
        assert(code_of(p)[0] == code_of(q)[0] && code_of(p)[1] == code_of(q)[1]);
    }
}

/// Decoding a method's code gives the method back.
pub proof fn lemma_code_round_trip(p: PaymentTypes)
    ensures
        method_of(code_of(p)) == Some(p),
{
    assert forall|q: PaymentTypes| code_of(q) == code_of(p) implies q == p by {
        lemma_code_injective(q, p);
    }
}

impl PaymentTypes {
    pub fn as_str(&self) -> (r: &'static str)
        ensures
            r@ == code_of(*self),
    {
        let r = match self {
            PaymentTypes::Dinheiro => "01",
            PaymentTypes::Cheque => "02",
            PaymentTypes::CartaoDeCredito => "03",
            PaymentTypes::CartaoDeDebito => "04",
            PaymentTypes::CreditoLoja => "05",
            PaymentTypes::ValeAlimentacao => "10",
            PaymentTypes::ValeRefeicao => "11",
            PaymentTypes::ValePresente => "12",
            PaymentTypes::ValeCombustivel => "13",
            PaymentTypes::DuplicataMercantil => "14",
            PaymentTypes::BoletoBancario => "15",
            PaymentTypes::SemPagamento => "90",
            PaymentTypes::Outros => "99",
        };
        proof {
            reveal_strlit("01");
            reveal_strlit("02");
            reveal_strlit("03");
            reveal_strlit("04");
            reveal_strlit("05");
            reveal_strlit("10");
            reveal_strlit("11");
            reveal_strlit("12");
            reveal_strlit("13");
            reveal_strlit("14");
            reveal_strlit("15");
            reveal_strlit("90");
            reveal_strlit("99");
        }
        assert(r@ =~= code_of(*self));
        r
    }

    pub fn from_str(s: &str) -> (r: Option<PaymentTypes>)
        ensures
            r == method_of(s@),
    {
        let n = s.unicode_len();
        if n != 2 {
            proof {
                assert forall|p: PaymentTypes| code_of(p) != s@ by {
                    assert(code_of(p).len() == 2);
                }
            }
            return None;
        }
        let a = s.get_char(0);
        let b = s.get_char(1);
        let r = if a == '0' && b == '1' {
            Some(PaymentTypes::Dinheiro)
        } else if a == '0' && b == '2' {
            Some(PaymentTypes::Cheque)
        } else if a == '0' && b == '3' {
            Some(PaymentTypes::CartaoDeCredito)
        } else if a == '0' && b == '4' {
            Some(PaymentTypes::CartaoDeDebito)
        } else if a == '0' && b == '5' {
            Some(PaymentTypes::CreditoLoja)
        } else if a == '1' && b == '0' {
            Some(PaymentTypes::ValeAlimentacao)
        } else if a == '1' && b == '1' {
            Some(PaymentTypes::ValeRefeicao)
        } else if a == '1' && b == '2' {
            Some(PaymentTypes::ValePresente)
        } else if a == '1' && b == '3' {
            Some(PaymentTypes::ValeCombustivel)
        } else if a == '1' && b == '4' {
            Some(PaymentTypes::DuplicataMercantil)
        } else if a == '1' && b == '5' {
            Some(PaymentTypes::BoletoBancario)
        } else if a == '9' && b == '0' {
            Some(PaymentTypes::SemPagamento)
        } else if a == '9' && b == '9' {
            Some(PaymentTypes::Outros)
        } else {
            None
        };
        proof {
            assert(s@ =~= seq![a, b]);
            match r {
                Some(p) => {
                    assert(code_of(p) =~= s@);
                    lemma_code_round_trip(p);
                },
                None => {
                    assert forall|p: PaymentTypes| code_of(p) != s@ by {
                        if code_of(p) == s@ {
                            assert(code_of(p)[0] == a && code_of(p)[1] == b);
                        }
                    }
                },
            }
        }
        r
    }
}

/// A payment method as offered in the settings: its code, its name, and
/// whether it is active.
#[derive(Debug, Clone)]
pub struct EPagamento {
    pub id: String,
    pub nome: String,
    pub ativo: bool,
}

} // verus!
