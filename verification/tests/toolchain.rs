use yfreight::toolchain::{CrateType, Edition, Rustc};

#[test]
fn edition_canonical_strings() {
    assert_eq!(Edition::E2015.canonical_string(), "2015");
    assert_eq!(Edition::E2018.canonical_string(), "2018");
    assert_eq!(Edition::E2021.canonical_string(), "2021");
}

#[test]
fn edition_round_trip() {
    for e in [Edition::E2015, Edition::E2018, Edition::E2021] {
        let s = e.canonical_string();
        assert_eq!(Edition::parse(&s).unwrap(), e);
    }
}

#[test]
fn edition_parse_rejects_unknown() {
    let err = Edition::parse("2024").unwrap_err();
    assert_eq!(err.value, "2024");
    assert_eq!(err.message(), "Edition 2024 is not supported");
    assert!(Edition::parse("").is_err());
    assert!(Edition::parse(" 2021").is_err());
}

#[test]
fn crate_type_canonical_strings() {
    assert_eq!(CrateType::Bin.canonical_string(), "bin");
    assert_eq!(CrateType::Lib.canonical_string(), "lib");
    assert_eq!(CrateType::RLib.canonical_string(), "rlib");
    assert_eq!(CrateType::DyLib.canonical_string(), "dylib");
    assert_eq!(CrateType::CDyLib.canonical_string(), "cdylib");
    assert_eq!(CrateType::StaticLib.canonical_string(), "staticlib");
    assert_eq!(CrateType::ProcMacro.canonical_string(), "proc-macro");
}

#[test]
fn builder_finalizes_with_all_required_fields() {
    let rustc = Rustc::builder()
        .edition(Edition::E2021)
        .crate_type(CrateType::Lib)
        .crate_name(String::from("demo"))
        .out_dir(String::from("target/ydebug"))
        .lib_dir(String::from("target/ydebug"))
        .done();
    assert_eq!(rustc.edition, Edition::E2021);
    assert_eq!(rustc.crate_type, CrateType::Lib);
    assert_eq!(rustc.crate_name, "demo");
    assert_eq!(rustc.out_dir, "target/ydebug");
    assert_eq!(rustc.lib_dir, "target/ydebug");
    assert!(rustc.cfg.is_empty());
    assert!(rustc.externs.is_empty());
}

#[test]
fn builder_defaults_to_oldest_edition() {
    let rustc = Rustc::builder()
        .crate_type(CrateType::Bin)
        .crate_name(String::from("demo"))
        .out_dir(String::from("out"))
        .lib_dir(String::from("out"))
        .done();
    assert_eq!(rustc.edition, Edition::E2015);
}

#[test]
fn builder_accumulates_sequences_and_keeps_last_scalar() {
    let rustc = Rustc::builder()
        .edition(Edition::E2015)
        .edition(Edition::E2018)
        .crate_type(CrateType::Lib)
        .crate_type(CrateType::Bin)
        .crate_name(String::from("demo"))
        .out_dir(String::from("out"))
        .lib_dir(String::from("out"))
        .cfg(String::from("feature=\"a\""))
        .cfg(String::from("feature=\"b\""))
        .externs(String::from("alpha"))
        .externs(String::from("beta"))
        .done();
    assert_eq!(rustc.edition, Edition::E2018);
    assert_eq!(rustc.crate_type, CrateType::Bin);
    assert_eq!(rustc.cfg, vec!["feature=\"a\"", "feature=\"b\""]);
    assert_eq!(rustc.externs, vec!["alpha", "beta"]);
}

#[test]
fn args_hold_every_token_in_order() {
    let rustc = Rustc::builder()
        .edition(Edition::E2021)
        .crate_type(CrateType::Bin)
        .crate_name(String::from("demo"))
        .out_dir(String::from("target/ydebug"))
        .lib_dir(String::from("target/ydebug"))
        .externs(String::from("demo"))
        .cfg(String::from("test"))
        .done();
    let args = rustc.args("src/main.rs");
    assert_eq!(
        args,
        vec![
            "src/main.rs",
            "--edition",
            "2021",
            "--crate-type",
            "bin",
            "--crate-name",
            "demo",
            "--out-dir",
            "target/ydebug",
            "-L",
            "target/ydebug",
            "--extern",
            "demo",
            "--cfg",
            "test",
        ]
    );
}

#[test]
fn args_without_links_or_flags() {
    let rustc = Rustc::builder()
        .edition(Edition::E2015)
        .crate_type(CrateType::Lib)
        .crate_name(String::from("demo"))
        .out_dir(String::from("out"))
        .lib_dir(String::from("out"))
        .done();
    let args = rustc.args("src/lib.rs");
    assert_eq!(
        args,
        vec!["src/lib.rs", "--edition", "2015", "--crate-type", "lib", "--crate-name", "demo",
            "--out-dir", "out", "-L", "out"]
    );
}
