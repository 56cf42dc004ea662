use sheets_adapter::Amount;
use sheets_adapter::InputRow;
use sheets_adapter::Transaction;
use sheets_adapter::TransformError;
use sheets_adapter::adapt_rows;
use sheets_adapter::capitalize;
use sheets_adapter::header_line;

fn tx(date: &str, category: Option<&str>, title: &str, amount: &str) -> Transaction {
    Transaction::new(
        String::from(date),
        category.map(String::from),
        String::from(title),
        amount,
    )
    .expect("row should decode")
}

#[test]
fn format_date_reverses_components() {
    assert_eq!(Transaction::format_date("2024-03-05"), "05/03/2024");
    assert_eq!(Transaction::format_date("1999-12-31"), "31/12/1999");
}

#[test]
fn format_date_is_purely_lexical() {
    assert_eq!(Transaction::format_date("abc"), "abc");
    assert_eq!(Transaction::format_date(""), "");
    assert_eq!(Transaction::format_date("a--b"), "b//a");
}

#[test]
fn amount_formats_with_decimal_comma() {
    assert_eq!(tx("2024-01-01", None, "t", "12.5").format_amount(), "12,50");
    assert_eq!(tx("2024-01-01", None, "t", "100").format_amount(), "100,00");
    assert_eq!(tx("2024-01-01", None, "t", "-3.4").format_amount(), "-3,40");
}

#[test]
fn amount_rounds_half_away_from_zero() {
    assert_eq!(tx("2024-01-01", None, "t", "9.005").format_amount(), "9,01");
    assert_eq!(tx("2024-01-01", None, "t", "9.0049").format_amount(), "9,00");
    assert_eq!(tx("2024-01-01", None, "t", "-9.005").format_amount(), "-9,01");
    assert_eq!(tx("2024-01-01", None, "t", "1.995").format_amount(), "2,00");
}

#[test]
fn amount_accepts_lenient_decimal_forms() {
    assert_eq!(tx("2024-01-01", None, "t", "+4.2").format_amount(), "4,20");
    assert_eq!(tx("2024-01-01", None, "t", ".5").format_amount(), "0,50");
    assert_eq!(tx("2024-01-01", None, "t", "5.").format_amount(), "5,00");
    assert_eq!(tx("2024-01-01", None, "t", "007.5").format_amount(), "7,50");
}

#[test]
fn tiny_negative_amount_keeps_its_sign() {
    assert_eq!(tx("2024-01-01", None, "t", "-0.004").format_amount(), "-0,00");
}

#[test]
fn malformed_amounts_are_rejected() {
    for bad in ["abc", "", ".", "-", "1.2.3", "1e5", "4,2", " 1"] {
        let r = Transaction::new(String::from("2024-01-01"), None, String::from("t"), bad);
        assert!(matches!(r, Err(TransformError::InvalidAmount)), "{bad:?}");
    }
}

#[test]
fn oversized_amounts_are_rejected() {
    let r = Transaction::new(
        String::from("2024-01-01"),
        None,
        String::from("t"),
        "99999999999999999",
    );
    assert!(matches!(r, Err(TransformError::AmountTooLarge)));
    // The largest accepted units value still converts to cents.
    assert_eq!(
        tx("2024-01-01", None, "t", "10000000000000000").format_amount(),
        "10000000000000000,00"
    );
}

#[test]
fn amount_parse_reports_sign_and_cents() {
    assert_eq!(Amount::parse("-3.4"), Ok(Amount { neg: true, cents: 340 }));
    assert_eq!(Amount::parse("0"), Ok(Amount { neg: false, cents: 0 }));
}

#[test]
fn capitalize_forces_only_the_first_character() {
    assert_eq!(capitalize("groceries"), "Groceries");
    assert_eq!(capitalize("UTILITIES"), "UTILITIES");
    assert_eq!(capitalize("x"), "X");
}

#[test]
fn absent_category_falls_back_to_fixed_label() {
    let line = tx("2024-03-05", None, "Market", "1").to_sheets_format();
    assert_eq!(line, "05/03/2024;Despesa;1,00;Market;Outros;");
}

#[test]
fn empty_category_is_a_validation_error() {
    let r = Transaction::new(
        String::from("2024-03-05"),
        Some(String::new()),
        String::from("t"),
        "1",
    );
    assert!(matches!(r, Err(TransformError::EmptyCategory)));
}

#[test]
fn installment_marker_must_be_a_trailing_fraction() {
    assert_eq!(
        tx("2024-01-01", None, "Amazon 3/10", "1").extract_installment(),
        Some(String::from("3/10"))
    );
    assert_eq!(tx("2024-01-01", None, "Amazon", "1").extract_installment(), None);
    assert_eq!(tx("2024-01-01", None, "3/10 Amazon", "1").extract_installment(), None);
    assert_eq!(
        tx("2024-01-01", None, "10/12", "1").extract_installment(),
        Some(String::from("10/12"))
    );
    assert_eq!(tx("2024-01-01", None, "pay 3/", "1").extract_installment(), None);
    assert_eq!(tx("2024-01-01", None, "pay /10", "1").extract_installment(), None);
}

#[test]
fn installment_marker_is_the_longest_trailing_fraction() {
    assert_eq!(
        tx("2024-01-01", None, "1/2/3", "1").extract_installment(),
        Some(String::from("2/3"))
    );
    assert_eq!(
        tx("2024-01-01", None, "Amazon3/10", "1").extract_installment(),
        Some(String::from("3/10"))
    );
}

#[test]
fn end_to_end_line() {
    let line = tx("2024-03-05", Some("food"), "Market 2/6", "45.0").to_sheets_format();
    assert_eq!(line, "05/03/2024;Despesa;45,00;Market 2/6;Food;2/6");
}

#[test]
fn header_line_is_fixed() {
    assert_eq!(header_line(), "Data;Tipo;Valor;Descrição;Categoria;Parcela");
}

fn row(date: &str, category: Option<&str>, title: &str, amount: &str) -> InputRow {
    InputRow {
        date: String::from(date),
        category: category.map(String::from),
        title: String::from(title),
        amount: String::from(amount),
    }
}

#[test]
fn adapt_rows_emits_header_and_one_line_per_row_in_order() {
    let rows = vec![
        row("2024-03-05", Some("food"), "Market 2/6", "45.0"),
        row("2023-01-02", None, "Bus", "-3.4"),
    ];
    let lines = adapt_rows(&rows).expect("all rows decode");
    assert_eq!(
        lines,
        vec![
            String::from("Data;Tipo;Valor;Descrição;Categoria;Parcela"),
            String::from("05/03/2024;Despesa;45,00;Market 2/6;Food;2/6"),
            String::from("02/01/2023;Despesa;-3,40;Bus;Outros;"),
        ]
    );
}

#[test]
fn adapt_rows_stops_at_the_first_bad_row() {
    let rows = vec![
        row("2024-03-05", Some("food"), "Market", "45.0"),
        row("2024-03-06", None, "Bad", "not-a-number"),
        row("2024-03-07", None, "Never reached", "1"),
    ];
    assert_eq!(adapt_rows(&rows), Err(TransformError::InvalidAmount));
    let rows = vec![row("2024-03-06", Some(""), "Bad", "1")];
    assert_eq!(adapt_rows(&rows), Err(TransformError::EmptyCategory));
}
