//! The build plan: given the parsed manifest and which entry points exist,
//! decide which artifacts to produce and in what order — the library strictly
//! before the binary that links against it — and construct the invocation
//! descriptor of each step.
use vstd::prelude::*;
use vstd::string::*;
use crate::config::Mainfest;
use crate::toolchain::{CrateType, Rustc};

verus! {

/// A terminal pipeline error.
#[derive(Debug)]
pub enum BuildError {
    /// Neither entry point exists, so no artifact can be produced.
    NothingToCompile,
}

impl BuildError {
    /// The user-legible report.
    pub fn message(&self) -> (r: String)
        ensures
            r@ == "There is nothing to compile"@,
    {
        String::from_str("There is nothing to compile")
    }
}

/// One compilation step: the finished invocation descriptor and the entry
/// point it compiles.
#[derive(Debug)]
pub struct BuildStep {
    pub rustc: Rustc,
    pub entry_path: String,
}

/// The step that produces the library artifact: the manifest's name and
/// edition, no links, no configuration flags, and the shared directory as
/// both output and search path.
pub open spec fn is_lib_step(s: BuildStep, m: Mainfest, lib_entry: Seq<char>, out: Seq<char>) -> bool {
    &&& s.rustc.edition == m.edition
    &&& s.rustc.crate_type == CrateType::Lib
    &&& s.rustc.crate_name@ == m.crate_name@
    &&& s.rustc.out_dir@ == out
    &&& s.rustc.lib_dir@ == out
    &&& s.rustc.cfg@.len() == 0
    &&& s.rustc.externs@.len() == 0
    &&& s.entry_path@ == lib_entry
}

/// The step that produces the binary artifact, with exactly the given
/// external links.
pub open spec fn is_bin_step(
    s: BuildStep,
    m: Mainfest,
    bin_entry: Seq<char>,
    out: Seq<char>,
    links: Seq<Seq<char>>,
) -> bool {
    &&& s.rustc.edition == m.edition
    &&& s.rustc.crate_type == CrateType::Bin
    &&& s.rustc.crate_name@ == m.crate_name@
    &&& s.rustc.out_dir@ == out
    &&& s.rustc.lib_dir@ == out
    &&& s.rustc.cfg@.len() == 0
    &&& s.rustc.externs@.len() == links.len()
    &&& forall|i: int| 0 <= i < links.len() ==> s.rustc.externs@[i]@ == links[i]
    &&& s.entry_path@ == bin_entry
}

/// Decides the build: which artifacts to produce, in dependency order.
///
/// With both entry points present the plan holds the library step strictly
/// before the binary step, and the binary step links against the crate name
/// the library step produced; with one entry point present the plan holds
/// that single step, the binary without links; with neither, nothing can be
/// compiled and the plan is refused.
pub fn plan_build(
    manifest: &Mainfest,
    lib_present: bool,
    bin_present: bool,
    lib_entry: &str,
    bin_entry: &str,
    out_dir: &str,
) -> (r: Result<Vec<BuildStep>, BuildError>)
    ensures
        r is Ok <==> (lib_present || bin_present),
        !lib_present && !bin_present ==> (r matches Err(e) && e == BuildError::NothingToCompile),
        lib_present && bin_present ==> (r matches Ok(steps) && steps@.len() == 2 && is_lib_step(
            steps@[0],
            *manifest,
            lib_entry@,
            out_dir@,
        ) && is_bin_step(steps@[1], *manifest, bin_entry@, out_dir@, seq![manifest.crate_name@])),
        lib_present && !bin_present ==> (r matches Ok(steps) && steps@.len() == 1 && is_lib_step(
            steps@[0],
            *manifest,
            lib_entry@,
            out_dir@,
        )),
        !lib_present && bin_present ==> (r matches Ok(steps) && steps@.len() == 1 && is_bin_step(
            steps@[0],
            *manifest,
            bin_entry@,
            out_dir@,
            Seq::empty(),
        )),
{
    match (lib_present, bin_present) {
        (true, true) => {
            let mut steps: Vec<BuildStep> = Vec::new();
            steps.push(lib_step(manifest, lib_entry, out_dir));
            steps.push(bin_step(manifest, bin_entry, out_dir, true));
            Ok(steps)
        },
        (true, false) => {
            let mut steps: Vec<BuildStep> = Vec::new();
            steps.push(lib_step(manifest, lib_entry, out_dir));
            Ok(steps)
        },
        (false, true) => {
            let mut steps: Vec<BuildStep> = Vec::new();
            steps.push(bin_step(manifest, bin_entry, out_dir, false));
            Ok(steps)
        },
        (false, false) => Err(BuildError::NothingToCompile),
    }
}

/// Constructs the library step through the staged builder.
fn lib_step(manifest: &Mainfest, lib_entry: &str, out_dir: &str) -> (s: BuildStep)
    ensures
        is_lib_step(s, *manifest, lib_entry@, out_dir@),
{
    let rustc = Rustc::builder().edition(manifest.edition).crate_type(CrateType::Lib).crate_name(
        manifest.crate_name.clone(),
    ).out_dir(String::from_str(out_dir)).lib_dir(String::from_str(out_dir)).done();
    BuildStep { rustc, entry_path: String::from_str(lib_entry) }
}

/// Constructs the binary step through the staged builder, linking against the
/// manifest's crate name when the library was also planned.
fn bin_step(manifest: &Mainfest, bin_entry: &str, out_dir: &str, link_lib: bool) -> (s: BuildStep)
    ensures
        link_lib ==> is_bin_step(
            s,
            *manifest,
            bin_entry@,
            out_dir@,
            seq![manifest.crate_name@],
        ),
        !link_lib ==> is_bin_step(s, *manifest, bin_entry@, out_dir@, Seq::empty()),
{
    let mut builder = Rustc::builder().edition(manifest.edition).crate_type(
        CrateType::Bin,
    ).crate_name(manifest.crate_name.clone()).out_dir(String::from_str(out_dir)).lib_dir(
        String::from_str(out_dir),
    );
    if link_lib {
        builder = builder.externs(manifest.crate_name.clone());
    }
    let rustc = builder.done();
    BuildStep { rustc, entry_path: String::from_str(bin_entry) }
}

} // verus!
