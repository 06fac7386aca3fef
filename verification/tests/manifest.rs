use yfreight::config::{Mainfest, ParseError};
use yfreight::toolchain::Edition;

#[test]
fn parse_full_manifest() {
    let m = Mainfest::parse("name = \"demo\"\nedition = \"2021\"").unwrap();
    assert_eq!(m.crate_name, "demo");
    assert_eq!(m.edition, Edition::E2021);
}

#[test]
fn parse_trailing_newline() {
    let m = Mainfest::parse("name = \"demo\"\nedition = \"2015\"\n").unwrap();
    assert_eq!(m.crate_name, "demo");
    assert_eq!(m.edition, Edition::E2015);
}

#[test]
fn parse_unquoted_values() {
    let m = Mainfest::parse("name = demo\nedition = 2018").unwrap();
    assert_eq!(m.crate_name, "demo");
    assert_eq!(m.edition, Edition::E2018);
}

#[test]
fn parse_last_occurrence_wins() {
    let m = Mainfest::parse("name = \"one\"\nedition = \"2015\"\nname = \"two\"\nedition = \"2021\"")
        .unwrap();
    assert_eq!(m.crate_name, "two");
    assert_eq!(m.edition, Edition::E2021);
}

#[test]
fn parse_tight_spacing() {
    let m = Mainfest::parse("name=\"demo\"\nedition=\"2021\"").unwrap();
    assert_eq!(m.crate_name, "demo");
    assert_eq!(m.edition, Edition::E2021);
}

#[test]
fn parse_extra_spacing() {
    let m = Mainfest::parse("  name   =   \"demo\"  \n\tedition = \"2021\"").unwrap();
    assert_eq!(m.crate_name, "demo");
    assert_eq!(m.edition, Edition::E2021);
}

#[test]
fn parse_value_stops_at_second_separator() {
    let m = Mainfest::parse("name = demo=extra\nedition = 2021").unwrap();
    assert_eq!(m.crate_name, "demo");
}

#[test]
fn parse_missing_name() {
    let e = Mainfest::parse("edition = \"2021\"").unwrap_err();
    assert!(matches!(e, ParseError::MissingName));
    assert_eq!(e.message(), "name is a required field");
}

#[test]
fn parse_missing_edition() {
    let e = Mainfest::parse("name = \"demo\"").unwrap_err();
    assert!(matches!(e, ParseError::MissingEdition));
    assert_eq!(e.message(), "edition is a required field");
}

#[test]
fn parse_empty_text() {
    let e = Mainfest::parse("").unwrap_err();
    assert!(matches!(e, ParseError::MissingName));
}

#[test]
fn parse_empty_name_rejected() {
    let e = Mainfest::parse("name = \"\"\nedition = \"2021\"").unwrap_err();
    assert!(matches!(e, ParseError::MissingName));
}

#[test]
fn parse_unsupported_key() {
    let e = Mainfest::parse("name = \"demo\"\nauthor = \"me\"").unwrap_err();
    match e {
        ParseError::UnsupportedKey(k) => assert_eq!(k, "author"),
        _ => panic!("expected an unsupported-key error"),
    }
}

#[test]
fn parse_unsupported_key_message() {
    let e = Mainfest::parse("author = \"me\"").unwrap_err();
    assert_eq!(e.message(), "Field author is unsupport");
}

#[test]
fn parse_unsupported_edition() {
    let e = Mainfest::parse("name = \"demo\"\nedition = \"2024\"").unwrap_err();
    match e {
        ParseError::UnsupportedEdition(v) => assert_eq!(v, "2024"),
        _ => panic!("expected an unsupported-edition error"),
    }
}

#[test]
fn parse_unsupported_edition_message() {
    let e = Mainfest::parse("edition = \"1999\"").unwrap_err();
    assert_eq!(e.message(), "Edition 1999 is not supported");
}

#[test]
fn parse_missing_separator() {
    let e = Mainfest::parse("name \"demo\"").unwrap_err();
    match e {
        ParseError::MissingSeparator(l) => assert_eq!(l, "name \"demo\""),
        _ => panic!("expected a missing-separator error"),
    }
}

#[test]
fn parse_stops_at_first_bad_line() {
    let e = Mainfest::parse("edition = \"2024\"\nauthor = \"me\"").unwrap_err();
    assert!(matches!(e, ParseError::UnsupportedEdition(_)));
}
