use invoice_scanner::fields::InvoiceFieldValue;
use invoice_scanner::models::Real;
use invoice_scanner::reply::{
    best_customer_name, confidence, document_fields, extract_azure_field_value,
    extract_field_value_and_confidence, extract_line_items_description, item_field_number,
    item_field_string, lines_content, member, put_field, read_address_candidate, read_lines,
    read_model_fields, read_name_candidate, read_progress, read_text_fields, Progress,
    ReplyNumber, ReplyText, ReplyValue,
};

fn text(s: &str) -> ReplyValue {
    ReplyValue::Text(ReplyText {
        text: s.to_string(),
        number: s.parse::<f64>().ok().map(|n| n.to_string()),
    })
}

fn num(f: f64) -> ReplyValue {
    let integer = if f.fract() == 0.0 && f.abs() < 1e15 { Some(f as i64) } else { None };
    ReplyValue::Number(ReplyNumber { real: Real { bits: f.to_bits() }, text: f.to_string(), integer })
}

fn rec(members: Vec<(&str, ReplyValue)>) -> ReplyValue {
    ReplyValue::Record(members.into_iter().map(|(k, v)| (k.to_string(), v)).collect())
}

fn list(items: Vec<ReplyValue>) -> ReplyValue {
    ReplyValue::List(items)
}

fn conf(f: f64) -> Option<Real> {
    Some(Real { bits: f.to_bits() })
}

fn string_field(value: &str, confidence: f64) -> ReplyValue {
    rec(vec![("type", text("string")), ("valueString", text(value)), ("confidence", num(confidence))])
}

fn entry(key: &str, value: &str, confidence: Option<Real>) -> (String, InvoiceFieldValue) {
    (key.to_string(), InvoiceFieldValue { value: value.to_string(), confidence })
}

#[test]
fn members_are_found_by_key() {
    let r = rec(vec![("a", num(1.0)), ("b", text("x")), ("a", num(2.0))]);
    assert_eq!(member(&r, "a"), Some(&num(1.0)));
    assert_eq!(member(&r, "b"), Some(&text("x")));
    assert_eq!(member(&r, "c"), None);
    assert_eq!(member(&text("a"), "a"), None);
    assert_eq!(member(&list(vec![rec(vec![("a", num(1.0))])]), "a"), None);
}

#[test]
fn field_value_follows_the_kind_of_the_field() {
    assert_eq!(extract_azure_field_value(&string_field("  INV-1 ", 0.9)), "INV-1");
    let address = rec(vec![
        ("type", text("address")),
        ("valueAddress", rec(vec![("streetAddress", text(" Main 5 "))])),
        ("content", text("Main 5, Skopje")),
    ]);
    assert_eq!(extract_azure_field_value(&address), "Main 5");
    let date = rec(vec![("type", text("date")), ("content", text("05.01.2024")), ("valueString", text("x"))]);
    assert_eq!(extract_azure_field_value(&date), "05.01.2024");
    let date = rec(vec![("type", text("date")), ("valueDate", text("2024-01-05")), ("content", text("05.01.2024"))]);
    assert_eq!(extract_azure_field_value(&date), "2024-01-05");
    let time = rec(vec![("type", text("time")), ("valueTime", text("12:30:00"))]);
    assert_eq!(extract_azure_field_value(&time), "12:30:00");
    for kind in ["number", "integer", "float"] {
        let number = rec(vec![("type", text(kind)), ("valueNumber", num(27826.17)), ("content", text("27.826,17"))]);
        assert_eq!(extract_azure_field_value(&number), "27826.17");
    }
}

#[test]
fn currency_fields_give_the_amount() {
    let currency = rec(vec![
        ("type", text("currency")),
        ("valueCurrency", rec(vec![("amount", num(1200.0)), ("currencyCode", text("MKD"))])),
        ("content", text("1.200,00")),
    ]);
    assert_eq!(extract_azure_field_value(&currency), "1200");
    let as_text = rec(vec![
        ("type", text("currency")),
        ("valueCurrency", rec(vec![("amount", text("12.50"))])),
    ]);
    assert_eq!(extract_azure_field_value(&as_text), "12.5");
    let unreadable = rec(vec![
        ("type", text("currency")),
        ("valueCurrency", rec(vec![("amount", text("twelve"))])),
        ("content", text(" 12 den ")),
    ]);
    assert_eq!(extract_azure_field_value(&unreadable), "12 den");
}

#[test]
fn field_value_falls_back_in_a_fixed_order() {
    assert_eq!(extract_azure_field_value(&ReplyValue::Null), "");
    assert_eq!(extract_azure_field_value(&rec(vec![])), "");
    assert_eq!(extract_azure_field_value(&text("bare")), "");
    let untyped = rec(vec![
        ("valueTime", text("t")),
        ("valueNumber", num(3.0)),
        ("content", text("c")),
        ("valueDate", text("d")),
        ("valueString", text("s")),
    ]);
    assert_eq!(extract_azure_field_value(&untyped), "s");
    let untyped = rec(vec![("valueTime", text("t")), ("valueNumber", num(3.0)), ("content", text("c")), ("valueDate", text("d"))]);
    assert_eq!(extract_azure_field_value(&untyped), "d");
    let untyped = rec(vec![("valueTime", text("t")), ("valueNumber", num(3.0)), ("content", text("c"))]);
    assert_eq!(extract_azure_field_value(&untyped), "c");
    let untyped = rec(vec![("valueTime", text("t")), ("valueNumber", num(3.0)), ("content", text("  "))]);
    assert_eq!(extract_azure_field_value(&untyped), "3");
    let untyped = rec(vec![("valueTime", text("t")), ("valueNumber", text("3"))]);
    assert_eq!(extract_azure_field_value(&untyped), "t");
    let typed_but_empty = rec(vec![("type", text("string")), ("valueString", text(" ")), ("content", text("raw"))]);
    assert_eq!(extract_azure_field_value(&typed_but_empty), "raw");
    let unknown_kind = rec(vec![("type", text("selectionMark")), ("content", text("raw"))]);
    assert_eq!(extract_azure_field_value(&unknown_kind), "raw");
}

#[test]
fn value_comes_with_confidence() {
    assert_eq!(extract_field_value_and_confidence(&string_field("x", 0.75)), ("x".to_string(), conf(0.75)));
    assert_eq!(confidence(&rec(vec![("confidence", text("0.9"))])), None);
    assert_eq!(confidence(&rec(vec![])), None);
    assert_eq!(confidence(&ReplyValue::Null), None);
}

#[test]
fn item_parts_are_read_as_texts() {
    let item = rec(vec![
        ("Description", rec(vec![("valueString", text(" Paper A4 ")), ("content", text("other"))])),
        ("Code", rec(vec![("content", text("P-1"))])),
        ("Odd", rec(vec![("valueString", num(1.0)), ("content", text("ignored"))])),
        ("Quantity", rec(vec![("valueNumber", num(2.5)), ("valueInteger", num(9.0))])),
        ("Count", rec(vec![("valueInteger", num(-17.0))])),
        ("Price", rec(vec![("valueCurrency", rec(vec![("amount", num(100.0))])), ("content", text("100,00"))])),
        ("Unit", rec(vec![("content", text(" kg ")), ("valueString", text("kilo"))])),
        ("Empty", rec(vec![])),
    ]);
    assert_eq!(item_field_string(&item, "Description"), "Paper A4");
    assert_eq!(item_field_string(&item, "Code"), "P-1");
    assert_eq!(item_field_string(&item, "Odd"), "");
    assert_eq!(item_field_string(&item, "Missing"), "");
    assert_eq!(item_field_number(&item, "Quantity"), "2.5");
    assert_eq!(item_field_number(&item, "Count"), "-17");
    assert_eq!(item_field_number(&item, "Price"), "100");
    assert_eq!(item_field_number(&item, "Unit"), "kg");
    assert_eq!(item_field_number(&item, "Empty"), "");
    assert_eq!(item_field_number(&item, "Missing"), "");
}

#[test]
fn whole_numbers_print_with_their_sign() {
    let item = |n: i64| {
        let number = ReplyNumber { real: Real { bits: 0 }, text: "unused".to_string(), integer: Some(n) };
        rec(vec![("Q", rec(vec![("valueInteger", ReplyValue::Number(number))]))])
    };
    let cases = [
        (0, "0"),
        (7, "7"),
        (-7, "-7"),
        (1000, "1000"),
        (i64::MAX, "9223372036854775807"),
        (i64::MIN, "-9223372036854775808"),
    ];
    for (n, expected) in cases {
        assert_eq!(item_field_number(&item(n), "Q"), expected);
    }
}

#[test]
fn line_items_make_one_line_each() {
    let item = |d: &str, q: Option<f64>, p: Option<f64>| {
        let mut members = vec![("Description", rec(vec![("valueString", text(d))]))];
        if let Some(q) = q {
            members.push(("Quantity", rec(vec![("valueNumber", num(q))])));
        }
        if let Some(p) = p {
            members.push(("Price", rec(vec![("valueCurrency", rec(vec![("amount", num(p))]))])));
        }
        rec(vec![("valueObject", rec(members))])
    };
    let fields = rec(vec![(
        "Items",
        rec(vec![
            ("confidence", num(0.8)),
            (
                "valueArray",
                list(vec![
                    item("Paper", Some(2.0), Some(150.0)),
                    item("", None, None),
                    rec(vec![("valueObject", text("no record"))]),
                    item("Ink", None, Some(900.5)),
                    item(" ", Some(1.0), None),
                ]),
            ),
        ]),
    )]);
    assert_eq!(
        extract_line_items_description(&fields),
        ("Paper | 2 | 150\nInk | 900.5\n1".to_string(), conf(0.8))
    );
}

#[test]
fn line_items_as_text_are_taken_as_they_are() {
    let fields = rec(vec![("Items", rec(vec![("content", text(" Transport services ")), ("confidence", num(0.5))]))]);
    assert_eq!(extract_line_items_description(&fields), ("Transport services".to_string(), conf(0.5)));
    let fields = rec(vec![("Items", rec(vec![("valueString", text(" ")), ("valueArray", list(vec![]))]))]);
    assert_eq!(extract_line_items_description(&fields), (String::new(), None));
    let fields = rec(vec![("Items", rec(vec![("confidence", num(0.5))]))]);
    assert_eq!(extract_line_items_description(&fields), (String::new(), conf(0.5)));
    assert_eq!(extract_line_items_description(&rec(vec![])), (String::new(), None));
}

#[test]
fn name_candidates_carry_what_ranking_needs() {
    let fields = rec(vec![
        ("VendorName", string_field("  Alkaloid\nAD Skopje\nBul. Aleksandar 12 ", 0.7)),
        ("Short", string_field("ACME", 0.9)),
        ("Blank", string_field(" ", 0.9)),
        ("VendorAddress", string_field("Makpetrol Trgovija Skopje\n1000 Skopje", 0.6)),
        ("Street", string_field("12 Main\nACME", 0.6)),
    ]);
    let c = read_name_candidate(&fields, "VendorName").unwrap();
    assert_eq!(c.name, "Alkaloid AD Skopje");
    assert_eq!(c.confidence, conf(0.7));
    assert!(c.legal_form);
    assert!(c.long);
    let c = read_name_candidate(&fields, "Short").unwrap();
    assert_eq!(c.name, "ACME");
    assert!(!c.legal_form);
    assert!(!c.long);
    assert_eq!(read_name_candidate(&fields, "Blank"), None);
    assert_eq!(read_name_candidate(&fields, "Missing"), None);
    let c = read_address_candidate(&fields, "VendorAddress").unwrap();
    assert_eq!(c.name, "Makpetrol Trgovija Skopje");
    assert_eq!(c.confidence, conf(0.6));
    assert_eq!(read_address_candidate(&fields, "Street"), None);
    assert_eq!(read_address_candidate(&fields, "Blank"), None);
}

#[test]
fn customer_name_is_taken_by_priority() {
    let both = rec(vec![
        ("CustomerAddressRecipient", string_field("Recipient DOO", 0.5)),
        ("CustomerName", string_field("Buyer DOO, 1000 Skopje", 0.9)),
        ("CustomerAddress", string_field("Address Line", 0.4)),
    ]);
    assert_eq!(best_customer_name(&both), ("Buyer DOO".to_string(), conf(0.9)));
    let recipient = rec(vec![
        ("CustomerName", string_field(" ", 0.9)),
        ("CustomerAddressRecipient", string_field("Recipient DOO", 0.5)),
    ]);
    assert_eq!(best_customer_name(&recipient), ("Recipient DOO".to_string(), conf(0.5)));
    let address = rec(vec![("CustomerAddress", string_field(" Kupuvac AD \nul. Prva 1", 0.4))]);
    assert_eq!(best_customer_name(&address), ("Kupuvac AD".to_string(), conf(0.4)));
    let only_street = rec(vec![("CustomerAddress", string_field("1000 Skopje", 0.4))]);
    assert_eq!(best_customer_name(&only_street), (String::new(), None));
    assert_eq!(best_customer_name(&rec(vec![])), (String::new(), None));
}

#[test]
fn putting_a_field_replaces_the_field_with_its_key() {
    let mut fields = vec![entry("a", "1", None), entry("b", "2", None)];
    put_field(&mut fields, "a".to_string(), "3".to_string(), conf(0.5));
    assert_eq!(fields, vec![entry("a", "3", conf(0.5)), entry("b", "2", None)]);
    put_field(&mut fields, "c".to_string(), "4".to_string(), None);
    assert_eq!(fields, vec![entry("a", "3", conf(0.5)), entry("b", "2", None), entry("c", "4", None)]);
}

fn invoice_reply() -> ReplyValue {
    let amount = |a: f64, c: f64| {
        rec(vec![
            ("type", text("currency")),
            ("valueCurrency", rec(vec![("amount", num(a)), ("currencyCode", text("MKD"))])),
            ("confidence", num(c)),
        ])
    };
    rec(vec![
        ("content", text("whole page")),
        (
            "documents",
            list(vec![rec(vec![(
                "fields",
                rec(vec![
                    ("CustomerName", string_field("KUPUVACDOOELSKOPJE", 0.9)),
                    ("Extra", string_field("extra value", 0.3)),
                    ("InvoiceId", string_field("INV-7", 0.95)),
                    ("InvoiceTotal", amount(1180.0, 0.8)),
                    ("Items", rec(vec![("content", text("Services"))])),
                    ("Nothing", string_field(" ", 0.3)),
                    ("SubTotal", amount(1000.0, 0.7)),
                    ("TotalTax", amount(180.0, 0.6)),
                    ("DDV", string_field("18%", 0.5)),
                    ("VendorName", string_field("ignored here", 0.9)),
                ]),
            )])]),
        ),
    ])
}

#[test]
fn model_fields_are_assembled_in_order() {
    let result = invoice_reply();
    let fields = document_fields(&result).unwrap();
    let got = read_model_fields(&result, fields, Some("faktura"), "PRODAVAC DOO".to_string(), conf(0.6));
    let one = conf(1.0);
    assert_eq!(
        got,
        vec![
            entry("document_number", "INV-7", conf(0.95)),
            entry("total_amount", "1180", conf(0.8)),
            entry("net_amount", "1000", conf(0.7)),
            entry("tax_amount", "180", conf(0.6)),
            entry("invoice_number", "INV-7", conf(0.95)),
            entry("seller_name", "PRODAVAC DOO", conf(0.6)),
            entry("buyer_name", "KUPUVAC  DOOEL SKOPJE", conf(0.9)),
            entry("description", "Services", None),
            entry("currency", "MKD", conf(0.8)),
            entry("document_type", "Фактура", one),
            entry("Extra", "extra value", conf(0.3)),
        ]
    );
}

#[test]
fn model_fields_without_items_describe_by_content() {
    let result = rec(vec![
        ("content", text("  whole page  ")),
        ("documents", list(vec![rec(vec![("fields", rec(vec![("TypeOfDocument", string_field("Сметка", 0.9))]))])])),
    ]);
    let fields = document_fields(&result).unwrap();
    let got = read_model_fields(&result, fields, Some("plata"), String::new(), None);
    assert_eq!(
        got,
        vec![entry("document_type", "Сметка", conf(0.9)), entry("description", "whole page", None)]
    );
    let bare = rec(vec![("documents", list(vec![rec(vec![("fields", rec(vec![]))])]))]);
    let fields = document_fields(&bare).unwrap();
    for (kind, name) in [(Some("plata"), "Плата"), (Some("smetka"), "Даночен биланс"), (Some("generic"), "ДДВ"), (Some("x"), "Фактура"), (None, "Фактура")] {
        let got = read_model_fields(&bare, fields, kind, String::new(), None);
        assert_eq!(got, vec![entry("description", "", None), entry("document_type", name, conf(1.0))]);
    }
}

#[test]
fn documents_without_fields_have_none() {
    assert_eq!(document_fields(&rec(vec![])), None);
    assert_eq!(document_fields(&rec(vec![("documents", list(vec![]))])), None);
    assert_eq!(document_fields(&rec(vec![("documents", list(vec![rec(vec![])]))])), None);
    assert_eq!(document_fields(&rec(vec![("documents", list(vec![rec(vec![("fields", text("x"))])]))])), None);
    assert_eq!(document_fields(&rec(vec![("documents", rec(vec![]))])), None);
}

#[test]
fn balance_sheets_are_described_by_their_layout() {
    let cell = |s: &str| rec(vec![("content", text(s))]);
    let result = rec(vec![
        ("content", text("everything")),
        ("paragraphs", list(vec![cell("First"), rec(vec![("content", num(1.0))]), cell("Second")])),
        (
            "tables",
            list(vec![
                rec(vec![(
                    "rows",
                    list(vec![
                        rec(vec![("cells", list(vec![cell("a"), cell("b")]))]),
                        rec(vec![("cells", list(vec![]))]),
                        rec(vec![("cells", list(vec![cell("c")]))]),
                    ]),
                )]),
                rec(vec![("rows", text("none"))]),
                rec(vec![("rows", list(vec![rec(vec![("cells", list(vec![cell("d"), cell("e"), cell("f")]))])]))]),
            ]),
        ),
    ]);
    assert_eq!(
        read_text_fields(&result, Some("smetka")),
        vec![
            entry("description", "First\nSecond\na | b\nc\nd | e | f", None),
            entry("document_type", "Даночен биланс", conf(1.0)),
        ]
    );
    let plain = rec(vec![("content", text("everything"))]);
    assert_eq!(
        read_text_fields(&plain, Some("smetka")),
        vec![entry("description", "everything", None), entry("document_type", "Даночен биланс", conf(1.0))]
    );
    assert_eq!(
        read_text_fields(&rec(vec![("content", text("  "))]), Some("smetka")),
        vec![entry("description", "  ", None), entry("document_type", "Даночен биланс", conf(1.0))]
    );
}

#[test]
fn other_documents_are_described_by_their_content() {
    let result = rec(vec![("content", text(" pay slip ")), ("paragraphs", list(vec![rec(vec![("content", text("p"))])]))]);
    for (kind, name) in [(Some("plata"), "Плата"), (Some("generic"), "ДДВ"), (Some("faktura"), "Документ"), (None, "Документ")] {
        assert_eq!(
            read_text_fields(&result, kind),
            vec![entry("description", " pay slip ", None), entry("document_type", name, conf(1.0))]
        );
    }
    assert_eq!(read_text_fields(&rec(vec![("content", text(" \n "))]), Some("plata")), Vec::new());
    assert_eq!(read_text_fields(&rec(vec![]), None), Vec::new());
    assert_eq!(read_text_fields(&rec(vec![]), Some("smetka")), Vec::new());
}

#[test]
fn progress_is_read_from_the_status() {
    assert_eq!(read_progress(&rec(vec![("status", text("succeeded"))])), Progress::Succeeded);
    assert_eq!(read_progress(&rec(vec![("status", text("running"))])), Progress::Pending);
    assert_eq!(read_progress(&rec(vec![("status", text("notStarted"))])), Progress::Pending);
    assert_eq!(read_progress(&rec(vec![])), Progress::Pending);
    assert_eq!(read_progress(&rec(vec![("status", num(1.0))])), Progress::Pending);
    assert_eq!(
        read_progress(&rec(vec![("status", text("failed")), ("error", rec(vec![("message", text("bad file"))]))])),
        Progress::Failed("OCR analysis failed: bad file".to_string())
    );
    assert_eq!(
        read_progress(&rec(vec![("status", text("failed"))])),
        Progress::Failed("OCR analysis failed: Unknown error".to_string())
    );
}

#[test]
fn lines_are_read_page_after_page() {
    let line = |s: &str, c: Option<f64>| {
        let mut members = vec![("content", text(s))];
        if let Some(c) = c {
            members.push(("confidence", num(c)));
        }
        rec(members)
    };
    let result = rec(vec![(
        "pages",
        list(vec![
            rec(vec![("lines", list(vec![line("one", Some(0.9)), line("two", None)]))]),
            rec(vec![]),
            rec(vec![("lines", list(vec![rec(vec![("confidence", num(0.1))]), line("four", Some(0.4))]))]),
        ]),
    )]);
    let lines = read_lines(&result);
    assert_eq!(
        lines,
        vec![
            ("one".to_string(), conf(0.9)),
            ("two".to_string(), None),
            (String::new(), conf(0.1)),
            ("four".to_string(), conf(0.4)),
        ]
    );
    assert_eq!(lines_content(&lines), "one\ntwo\n\nfour");
    assert_eq!(read_lines(&rec(vec![])), Vec::new());
    assert_eq!(lines_content(&Vec::new()), "");
}
