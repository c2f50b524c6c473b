use rabbit_ledger::{CalendarDate, DateTime, PaymentTypes};

#[test]
fn payment_codes_round_trip() {
    let all = [
        (PaymentTypes::Dinheiro, "01"),
        (PaymentTypes::Cheque, "02"),
        (PaymentTypes::CartaoDeCredito, "03"),
        (PaymentTypes::CartaoDeDebito, "04"),
        (PaymentTypes::CreditoLoja, "05"),
        (PaymentTypes::ValeAlimentacao, "10"),
        (PaymentTypes::ValeRefeicao, "11"),
        (PaymentTypes::ValePresente, "12"),
        (PaymentTypes::ValeCombustivel, "13"),
        (PaymentTypes::DuplicataMercantil, "14"),
        (PaymentTypes::BoletoBancario, "15"),
        (PaymentTypes::SemPagamento, "90"),
        (PaymentTypes::Outros, "99"),
    ];
    for (p, code) in all.iter() {
        assert_eq!(p.as_str(), *code);
        assert_eq!(PaymentTypes::from_str(code), Some(*p));
    }
}

#[test]
fn unknown_payment_codes_are_refused() {
    assert_eq!(PaymentTypes::from_str("06"), None);
    assert_eq!(PaymentTypes::from_str("1"), None);
    assert_eq!(PaymentTypes::from_str("011"), None);
    assert_eq!(PaymentTypes::from_str(""), None);
}

#[test]
fn dates_parse_when_valid() {
    assert_eq!(
        CalendarDate::parse("2024-06-01"),
        Some(CalendarDate { year: 2024, month: 6, day: 1 })
    );
    assert_eq!(
        CalendarDate::parse("2024-02-29"),
        Some(CalendarDate { year: 2024, month: 2, day: 29 })
    );
    assert_eq!(CalendarDate::parse("2023-02-29"), None);
    assert_eq!(CalendarDate::parse("2024-13-01"), None);
    assert_eq!(CalendarDate::parse("2024-04-31"), None);
    assert_eq!(CalendarDate::parse("2024/06/01"), None);
    assert_eq!(CalendarDate::parse("2024-06-01T00:00:00"), None);
}

#[test]
fn date_ordinals_follow_the_calendar() {
    let a = CalendarDate::parse("2023-12-31").unwrap();
    let b = CalendarDate::parse("2024-01-01").unwrap();
    assert_eq!(a.ordinal(), 20231231);
    assert!(a.ordinal() < b.ordinal());
}

#[test]
fn instants_parse_with_either_separator() {
    let t = DateTime::parse("2024-06-01T10:20:30-03:00").unwrap();
    assert_eq!(t.date, CalendarDate { year: 2024, month: 6, day: 1 });
    assert_eq!((t.hour, t.minute, t.second), (10, 20, 30));
    assert_eq!(t.sort_key(), 20240601102030);
    assert_eq!(DateTime::parse("2024-06-01 10:20:30"), Some(t));
    assert_eq!(DateTime::parse("2024-06-01T24:00:00"), None);
    assert_eq!(DateTime::parse("2024-06-01"), None);
}
