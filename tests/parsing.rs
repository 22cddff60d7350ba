use cmudict::{parse_rule, parse_symbol, split_fields, Error, Rule, Stress, Symbol};

fn text(sym: &Symbol) -> String {
    sym.to_string()
}

#[test]
fn every_consonant_reads_as_its_own_name() {
    let cases: Vec<(&str, Symbol)> = vec![
        ("B", Symbol::B("B".to_string())),
        ("CH", Symbol::CH("CH".to_string())),
        ("D", Symbol::D("D".to_string())),
        ("DH", Symbol::DH("DH".to_string())),
        ("F", Symbol::F("F".to_string())),
        ("G", Symbol::G("G".to_string())),
        ("HH", Symbol::HH("HH".to_string())),
        ("JH", Symbol::JH("JH".to_string())),
        ("K", Symbol::K("K".to_string())),
        ("L", Symbol::L("L".to_string())),
        ("M", Symbol::M("M".to_string())),
        ("N", Symbol::N("N".to_string())),
        ("NG", Symbol::NG("NG".to_string())),
        ("P", Symbol::P("P".to_string())),
        ("R", Symbol::R("R".to_string())),
        ("S", Symbol::S("S".to_string())),
        ("SH", Symbol::SH("SH".to_string())),
        ("T", Symbol::T("T".to_string())),
        ("TH", Symbol::TH("TH".to_string())),
        ("V", Symbol::V("V".to_string())),
        ("W", Symbol::W("W".to_string())),
        ("Y", Symbol::Y("Y".to_string())),
        ("Z", Symbol::Z("Z".to_string())),
        ("ZH", Symbol::ZH("ZH".to_string())),
    ];
    for (token, expected) in cases {
        assert_eq!(parse_symbol(token), Ok(expected));
    }
}

#[test]
fn vowel_digits_give_stress() {
    assert_eq!(parse_symbol("EH0"), Ok(Symbol::EH("EH0".to_string(), Stress::Unstressed)));
    assert_eq!(parse_symbol("EH1"), Ok(Symbol::EH("EH1".to_string(), Stress::Primary)));
    assert_eq!(parse_symbol("EH2"), Ok(Symbol::EH("EH2".to_string(), Stress::Secondary)));
    assert_eq!(parse_symbol("UW"), Ok(Symbol::UW("UW".to_string(), Stress::Unstressed)));
    assert_eq!(parse_symbol("OY2"), Ok(Symbol::OY("OY2".to_string(), Stress::Secondary)));
    assert_eq!(parse_symbol("ER1"), Ok(Symbol::ER("ER1".to_string(), Stress::Primary)));
}

#[test]
fn every_vowel_parses_with_each_digit() {
    let vowels = [
        "AA", "AE", "AH", "AO", "AW", "AY", "EH", "ER", "EY", "IH", "IY", "OW", "OY", "UH", "UW",
    ];
    for v in vowels.iter() {
        for d in ["0", "1", "2", ""].iter() {
            let token = format!("{}{}", v, d);
            let sym = parse_symbol(&token).unwrap();
            assert_eq!(text(&sym), token);
        }
    }
}

#[test]
fn bad_stress_digit_is_refused() {
    assert_eq!(parse_symbol("AA3"), Err(Error::ParseError("AA3".to_string())));
    assert_eq!(parse_symbol("IYX"), Err(Error::ParseError("IYX".to_string())));
}

#[test]
fn empty_and_unknown_tokens_are_refused() {
    assert_eq!(parse_symbol(""), Err(Error::ParseError("".to_string())));
    assert_eq!(parse_symbol("XQ"), Err(Error::ParseError("XQ".to_string())));
    assert_eq!(parse_symbol("A"), Err(Error::ParseError("A".to_string())));
    assert_eq!(parse_symbol("C"), Err(Error::ParseError("C".to_string())));
    assert_eq!(parse_symbol("DX"), Err(Error::ParseError("DX".to_string())));
    assert_eq!(parse_symbol("b"), Err(Error::ParseError("b".to_string())));
}

#[test]
fn short_consonant_stands_only_alone() {
    assert_eq!(parse_symbol("NG"), Ok(Symbol::NG("NG".to_string())));
    assert_eq!(parse_symbol("NX"), Err(Error::ParseError("NX".to_string())));
    assert_eq!(parse_symbol("ZH"), Ok(Symbol::ZH("ZH".to_string())));
    assert_eq!(parse_symbol("ZA"), Err(Error::ParseError("ZA".to_string())));
}

#[test]
fn display_reproduces_the_token() {
    for token in ["AA1", "AH0", "IY2", "UW", "B", "CH", "D", "NG", "ZH", "Y"].iter() {
        let sym = parse_symbol(token).unwrap();
        assert_eq!(sym.to_string(), token.to_string());
    }
}

#[test]
fn stress_is_written_as_its_digit() {
    assert_eq!(Stress::Unstressed.to_string(), "0");
    assert_eq!(Stress::Primary.to_string(), "1");
    assert_eq!(Stress::Secondary.to_string(), "2");
}

#[test]
fn error_carries_the_refused_text() {
    let e = parse_symbol("QQ").unwrap_err();
    assert_eq!(e.description(), "QQ");
    assert_eq!(e.to_string(), "ParseError");
}

#[test]
fn minimal_rule_line_is_read() {
    let r = parse_rule("DH  DH").unwrap();
    assert_eq!(r.label(), "DH");
    assert_eq!(r.pronunciation().to_vec(), vec![Symbol::DH("DH".to_string())]);
}

#[test]
fn rule_keeps_label_and_phoneme_order() {
    let r = parse_rule("HELLO HH AH0 L OW1").unwrap();
    assert_eq!(r.label(), "HELLO");
    assert_eq!(
        r.pronunciation().to_vec(),
        vec![
            Symbol::HH("HH".to_string()),
            Symbol::AH("AH0".to_string(), Stress::Unstressed),
            Symbol::L("L".to_string()),
            Symbol::OW("OW1".to_string(), Stress::Primary),
        ]
    );
}

#[test]
fn rule_label_is_first_non_empty_field() {
    let r = parse_rule("  \t'TIS  T IH1 Z ").unwrap();
    assert_eq!(r.label(), "'TIS");
    assert_eq!(r.pronunciation().len(), 3);
}

#[test]
fn label_alone_has_no_phonemes() {
    let r = parse_rule("WORD").unwrap();
    assert_eq!(r.label(), "WORD");
    assert!(r.pronunciation().is_empty());
}

#[test]
fn empty_line_is_refused() {
    assert_eq!(parse_rule(""), Err(Error::ParseError("".to_string())));
    assert_eq!(parse_rule(" \t "), Err(Error::ParseError(" \t ".to_string())));
}

#[test]
fn first_bad_token_is_reported() {
    assert_eq!(parse_rule("BAD-WORD XX"), Err(Error::ParseError("XX".to_string())));
    assert_eq!(parse_rule("W AH1 QQ ZZ"), Err(Error::ParseError("QQ".to_string())));
}

#[test]
fn rule_new_keeps_its_parts() {
    let r = Rule::new("A".to_string(), vec![Symbol::EY("EY1".to_string(), Stress::Primary)]);
    assert_eq!(r, parse_rule("A EY1").unwrap());
}

#[test]
fn fields_are_split_on_any_whitespace() {
    assert_eq!(split_fields("  A\tB  C\n"), vec!["A", "B", "C"]);
    assert_eq!(split_fields("A\u{3000}B"), vec!["A", "B"]);
    assert!(split_fields("   ").is_empty());
}
