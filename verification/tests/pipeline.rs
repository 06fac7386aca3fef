use yfreight::config::Mainfest;
use yfreight::pipeline::{plan_build, BuildError};
use yfreight::toolchain::{CrateType, Edition};

fn demo_manifest() -> Mainfest {
    Mainfest::parse("name = \"demo\"\nedition = \"2021\"").unwrap()
}

#[test]
fn plan_with_both_entry_points_orders_library_first() {
    let m = demo_manifest();
    let steps = plan_build(&m, true, true, "src/lib.rs", "src/main.rs", "target/ydebug").unwrap();
    assert_eq!(steps.len(), 2);
    assert_eq!(steps[0].rustc.crate_type, CrateType::Lib);
    assert_eq!(steps[0].entry_path, "src/lib.rs");
    assert!(steps[0].rustc.externs.is_empty());
    assert_eq!(steps[1].rustc.crate_type, CrateType::Bin);
    assert_eq!(steps[1].entry_path, "src/main.rs");
    assert_eq!(steps[1].rustc.externs, vec!["demo"]);
}

#[test]
fn plan_with_library_only() {
    let m = demo_manifest();
    let steps = plan_build(&m, true, false, "src/lib.rs", "src/main.rs", "target/ydebug").unwrap();
    assert_eq!(steps.len(), 1);
    assert_eq!(steps[0].rustc.crate_type, CrateType::Lib);
    assert_eq!(steps[0].rustc.crate_name, "demo");
    assert!(steps[0].rustc.externs.is_empty());
}

#[test]
fn plan_with_neither_entry_point_refuses() {
    let m = demo_manifest();
    let e = plan_build(&m, false, false, "src/lib.rs", "src/main.rs", "target/ydebug").unwrap_err();
    assert!(matches!(e, BuildError::NothingToCompile));
    assert_eq!(e.message(), "There is nothing to compile");
}

#[test]
fn binary_only_scenario() {
    let m = Mainfest::parse("name = \"demo\"\nedition = \"2021\"").unwrap();
    assert_eq!(m.crate_name, "demo");
    assert_eq!(m.edition, Edition::E2021);
    let steps = plan_build(&m, false, true, "src/lib.rs", "src/main.rs", "target/ydebug").unwrap();
    assert_eq!(steps.len(), 1);
    let step = &steps[0];
    assert_eq!(step.rustc.crate_type, CrateType::Bin);
    assert_eq!(step.rustc.crate_name, "demo");
    assert_eq!(step.rustc.edition, Edition::E2021);
    assert!(step.rustc.externs.is_empty());
    assert_eq!(step.entry_path, "src/main.rs");
    let args = step.rustc.args(&step.entry_path);
    assert_eq!(
        args,
        vec!["src/main.rs", "--edition", "2021", "--crate-type", "bin", "--crate-name", "demo",
            "--out-dir", "target/ydebug", "-L", "target/ydebug"]
    );
}

#[test]
fn plan_shares_output_and_search_directory() {
    let m = demo_manifest();
    let steps = plan_build(&m, true, true, "src/lib.rs", "src/main.rs", "target/ydebug").unwrap();
    for step in &steps {
        assert_eq!(step.rustc.out_dir, "target/ydebug");
        assert_eq!(step.rustc.lib_dir, "target/ydebug");
    }
}
