use invoice_scanner::names::{
    clean_company_name, company_name_only, fix_all_caps_run_together, is_legal_form_token,
    join_multiline_name, looks_like_address_line, looks_like_address_suffix,
    smart_multiline_company_name,
};

#[test]
fn address_suffixes() {
    for s in ["", "   ", "PL", "abc", "mkd", "PL - 93230 LODZ", "mk 1000", " De Berlin", "1000 Skopje", "9"] {
        assert!(looks_like_address_suffix(s), "{:?}", s);
    }
    for s in ["Skopje", "abcd", "ab1", "де", "Plovdiv", "ACME DOO", "#12"] {
        assert!(!looks_like_address_suffix(s), "{:?}", s);
    }
}

#[test]
fn address_lines() {
    for s in ["12 Main", " 7", "Bul. Partizanski", "улица Македонија", "DSV Road DOOEL", "Strumica Tabak", "Кеј на ul kraj"] {
        assert!(looks_like_address_line(s), "{:?}", s);
    }
    for s in ["", "  ", "Alkaloid AD", "ул. Македонија", "Main road", "Abroad Ltd", "Nova ulica 5"] {
        assert!(!looks_like_address_line(s), "{:?}", s);
    }
}

#[test]
fn names_run_together_get_spaces() {
    assert_eq!(fix_all_caps_run_together("DSVROADDOOELSKOPJE"), "DSV ROAD  DOOEL SKOPJE");
    assert_eq!(fix_all_caps_run_together(" MAKPETROLDOOELSKOPJE "), "MAKPETROL  DOOEL SKOPJE");
    assert_eq!(fix_all_caps_run_together("ALKALOIDDOO"), "ALKALOID DOO");
    assert_eq!(fix_all_caps_run_together("DOOELX"), "DOOELX");
    assert_eq!(fix_all_caps_run_together("АЛКАЛОИДДООЕЛСКОПЈЕ"), "АЛКАЛОИД ДООЕЛ СКОПЈЕ");
}

#[test]
fn other_names_stay_as_they_are() {
    assert_eq!(fix_all_caps_run_together("DSV ROAD"), "DSV ROAD");
    assert_eq!(fix_all_caps_run_together("  ABC  "), "  ABC  ");
    assert_eq!(fix_all_caps_run_together("DOOEL"), "DOOEL");
    assert_eq!(fix_all_caps_run_together(""), "");
    assert_eq!(fix_all_caps_run_together("  "), "  ");
    assert_eq!(fix_all_caps_run_together("ДОО"), "ДОО");
    assert_eq!(fix_all_caps_run_together(" KOMPANIJA "), "KOMPANIJA");
}

#[test]
fn multiline_names_are_single_spaced() {
    assert_eq!(join_multiline_name("  A  B \n C\t\tD \r\n\n E "), "A B C D E");
    assert_eq!(join_multiline_name(""), "");
    assert_eq!(join_multiline_name(" \n \r\n "), "");
    assert_eq!(join_multiline_name("one"), "one");
    for s in ["a  b", " x\ny ", "a\u{a0}b\u{2003}c", "l1\r\nl2\rl3", "\n\nz"] {
        let expected = s.split_whitespace().collect::<Vec<_>>().join(" ");
        assert_eq!(join_multiline_name(s), expected, "{:?}", s);
    }
}

#[test]
fn names_are_cut_before_addresses() {
    assert_eq!(company_name_only("ACME DOO; PL - 93230 LODZ"), "ACME DOO");
    assert_eq!(company_name_only("ACME DOO, 1000 Skopje"), "ACME DOO");
    assert_eq!(company_name_only(" ACME DOO ,  MK "), "ACME DOO");
    assert_eq!(company_name_only("ACME DOO , MK"), "ACME DOO");
    assert_eq!(company_name_only("A; B, 12"), "A; B");
    assert_eq!(company_name_only("ACME; x"), "ACME");
}

#[test]
fn names_without_address_stay_whole() {
    assert_eq!(company_name_only("Smith, Jones and Co"), "Smith, Jones and Co");
    assert_eq!(company_name_only("  Alkaloid AD  "), "Alkaloid AD");
    assert_eq!(company_name_only("ACME; "), "ACME;");
    assert_eq!(company_name_only("   "), "");
    assert_eq!(company_name_only(""), "");
}

#[test]
fn legal_forms() {
    for s in ["DOO", "dooel.", "Doel", "A.D.", "ad", "GmbH", " OOD ", "ДООЕЛ", "доо...", "shpk"] {
        assert!(is_legal_form_token(s), "{:?}", s);
    }
    for s in ["", "...", "D.O.O.", "Ltd", "dooo", "a.d.x", "do o"] {
        assert!(!is_legal_form_token(s), "{:?}", s);
    }
}

#[test]
fn names_of_several_lines() {
    assert_eq!(smart_multiline_company_name("ALKALOID\nAD Skopje\nBul. Aleksandar 12"), "ALKALOID AD Skopje");
    assert_eq!(smart_multiline_company_name("ACME\nTrading House\n1000 Skopje"), "ACME Trading House");
    assert_eq!(
        smart_multiline_company_name("Big Company\nsome lowercase continuation text here\nDOO"),
        "Big Company"
    );
    assert_eq!(smart_multiline_company_name("ACME, 1000 Skopje\nDOO"), "ACME");
    assert_eq!(smart_multiline_company_name("\n  \r\n"), "");
    assert_eq!(smart_multiline_company_name("  Solo  "), "Solo");
    assert_eq!(smart_multiline_company_name("Први\nВтор ред\nтрет"), "Први Втор ред");
    assert_eq!(smart_multiline_company_name("A\nb doo c d e\nF"), "A b doo c d e F");
}

#[test]
fn clean_names() {
    assert_eq!(clean_company_name("  ACME   DOO ; x"), "ACME DOO");
    assert_eq!(clean_company_name("ACME\nDOO\n12 Main St"), "ACME DOO");
    assert_eq!(clean_company_name("ACME\tDOO"), "ACME DOO");
    assert_eq!(clean_company_name(""), "");
    assert_eq!(clean_company_name("\n"), "");
}
