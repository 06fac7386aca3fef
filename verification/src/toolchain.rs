//! The toolchain argument model: the closed enumerations for language edition
//! and artifact kind with their canonical string forms, the staged invocation
//! builder, and the finished invocation descriptor together with the exact
//! argument list it expands to.
use vstd::prelude::*;
use vstd::string::*;
use crate::text::str_eq;

verus! {

/// A versioned language-behaviour configuration selected at compile time.
#[derive(Clone, Copy, Debug, PartialEq, Eq, Structural)]
pub enum Edition {
    E2015,
    E2018,
    E2021,
}

/// The canonical external string form of an edition.
pub open spec fn edition_str(e: Edition) -> Seq<char> {
    match e {
        Edition::E2015 => "2015"@,
        Edition::E2018 => "2018"@,
        Edition::E2021 => "2021"@,
    }
}

/// The edition named by `s`, or `None` when `s` is outside the canonical set.
pub open spec fn spec_parse_edition(s: Seq<char>) -> Option<Edition> {
    if s == edition_str(Edition::E2015) {
        Some(Edition::E2015)
    } else if s == edition_str(Edition::E2018) {
        Some(Edition::E2018)
    } else if s == edition_str(Edition::E2021) {
        Some(Edition::E2021)
    } else {
        None
    }
}

/// The error for an edition string outside the supported set; it carries the
/// rejected value so the report can name it.
#[derive(Debug)]
pub struct UnsupportedEditionError {
    pub value: String,
}

impl UnsupportedEditionError {
    /// The user-legible report, naming the rejected value.
    pub fn message(&self) -> (r: String)
        ensures
            r@ == "Edition "@ + self.value@ + " is not supported"@,
    {
        let m = String::from_str("Edition ");
        let m = m.concat(self.value.as_str());
        m.concat(" is not supported")
    }
}

impl Edition {
    /// The exact, case-sensitive parse of an edition string.
    pub fn parse(s: &str) -> (r: Result<Edition, UnsupportedEditionError>)
        ensures
            match r {
                Ok(e) => spec_parse_edition(s@) == Some(e),
                Err(err) => spec_parse_edition(s@) is None && err.value@ == s@,
            },
    {
        if str_eq(s, "2015") {
            Ok(Edition::E2015)
        } else if str_eq(s, "2018") {
            Ok(Edition::E2018)
        } else if str_eq(s, "2021") {
            Ok(Edition::E2021)
        } else {
            Err(UnsupportedEditionError { value: String::from_str(s) })
        }
    }

    /// The canonical string form, one per variant.
    pub fn canonical_string(&self) -> (r: String)
        ensures
            r@ == edition_str(*self),
    {
        match self {
            Edition::E2015 => String::from_str("2015"),
            Edition::E2018 => String::from_str("2018"),
            Edition::E2021 => String::from_str("2021"),
        }
    }
}

/// Parsing a canonical edition string gives back the same variant.
pub proof fn lemma_edition_round_trip(e: Edition)
    ensures
        spec_parse_edition(edition_str(e)) == Some(e),
{
    reveal_strlit("2015");
    reveal_strlit("2018");
    reveal_strlit("2021");
    assert("2015"@[3] != "2018"@[3]);
    assert("2015"@[2] != "2021"@[2]);
    assert("2018"@[2] != "2021"@[2]);
}

/// A string parses as an edition exactly when it is one of the three
/// canonical forms.
pub proof fn lemma_edition_parse_exact(s: Seq<char>)
    ensures
        spec_parse_edition(s) is Some <==> (s == edition_str(Edition::E2015) || s
            == edition_str(Edition::E2018) || s == edition_str(Edition::E2021)),
{
}

/// The category of build output.
#[derive(Clone, Copy, Debug, PartialEq, Eq, Structural)]
pub enum CrateType {
    Bin,
    Lib,
    RLib,
    DyLib,
    CDyLib,
    StaticLib,
    ProcMacro,
}

/// The canonical external string form of an artifact kind.
pub open spec fn crate_type_str(t: CrateType) -> Seq<char> {
    match t {
        CrateType::Bin => "bin"@,
        CrateType::Lib => "lib"@,
        CrateType::RLib => "rlib"@,
        CrateType::DyLib => "dylib"@,
        CrateType::CDyLib => "cdylib"@,
        CrateType::StaticLib => "staticlib"@,
        CrateType::ProcMacro => "proc-macro"@,
    }
}

impl CrateType {
    /// The canonical string form, one per variant.
    pub fn canonical_string(&self) -> (r: String)
        ensures
            r@ == crate_type_str(*self),
    {
        match self {
            CrateType::Bin => String::from_str("bin"),
            CrateType::Lib => String::from_str("lib"),
            CrateType::RLib => String::from_str("rlib"),
            CrateType::DyLib => String::from_str("dylib"),
            CrateType::CDyLib => String::from_str("cdylib"),
            CrateType::StaticLib => String::from_str("staticlib"),
            CrateType::ProcMacro => String::from_str("proc-macro"),
        }
    }
}

/// The validated, immutable invocation descriptor: every parameter of one
/// toolchain invocation.
#[derive(Debug)]
pub struct Rustc {
    pub edition: Edition,
    pub crate_type: CrateType,
    pub crate_name: String,
    pub out_dir: String,
    pub lib_dir: String,
    pub cfg: Vec<String>,
    pub externs: Vec<String>,
}

/// The character sequences held by a vector of strings, in order.
pub open spec fn str_views(v: Seq<String>) -> Seq<Seq<char>> {
    Seq::new(v.len(), |i: int| v[i]@)
}

/// Each value in `vals` expanded to the two tokens `flag`, value, in order.
pub open spec fn flag_pairs(flag: Seq<char>, vals: Seq<Seq<char>>) -> Seq<Seq<char>>
    decreases vals.len(),
{
    if vals.len() == 0 {
        Seq::empty()
    } else {
        flag_pairs(flag, vals.drop_last()) + seq![flag, vals.last()]
    }
}

/// The exact argument list of one invocation: the positional entry-point path,
/// the flag/value pairs for edition, artifact kind, crate name, output
/// directory and search directory, then one pair per external link and one per
/// configuration flag.
pub open spec fn rustc_args(r: Rustc, path: Seq<char>) -> Seq<Seq<char>> {
    seq![
        path,
        "--edition"@,
        edition_str(r.edition),
        "--crate-type"@,
        crate_type_str(r.crate_type),
        "--crate-name"@,
        r.crate_name@,
        "--out-dir"@,
        r.out_dir@,
        "-L"@,
        r.lib_dir@,
    ] + flag_pairs("--extern"@, str_views(r.externs@)) + flag_pairs("--cfg"@, str_views(r.cfg@))
}

impl Rustc {
    /// A builder with nothing set yet.
    pub fn builder() -> (r: RustcBuilder)
        ensures
            r.edition is None,
            r.crate_type is None,
            r.crate_name is None,
            r.out_dir is None,
            r.lib_dir is None,
            r.cfg@.len() == 0,
            r.externs@.len() == 0,
    {
        RustcBuilder {
            edition: None,
            crate_type: None,
            crate_name: None,
            out_dir: None,
            lib_dir: None,
            cfg: Vec::new(),
            externs: Vec::new(),
        }
    }

    /// The argument tokens this descriptor expands to for the given
    /// entry-point path, in the exact order the toolchain is invoked with.
    pub fn args(&self, path: &str) -> (r: Vec<String>)
        ensures
            str_views(r@) == rustc_args(*self, path@),
    {
        let mut v: Vec<String> = Vec::new();
        v.push(String::from_str(path));
        v.push(String::from_str("--edition"));
        v.push(self.edition.canonical_string());
        v.push(String::from_str("--crate-type"));
        v.push(self.crate_type.canonical_string());
        v.push(String::from_str("--crate-name"));
        v.push(self.crate_name.clone());
        v.push(String::from_str("--out-dir"));
        v.push(self.out_dir.clone());
        v.push(String::from_str("-L"));
        v.push(self.lib_dir.clone());
        let ghost base = str_views(v@);
        proof {
            assert(base =~= seq![
                path@,
                "--edition"@,
                edition_str(self.edition),
                "--crate-type"@,
                crate_type_str(self.crate_type),
                "--crate-name"@,
                self.crate_name@,
                "--out-dir"@,
                self.out_dir@,
                "-L"@,
                self.lib_dir@,
            ]);
            assert(str_views(self.externs@.take(0)) =~= Seq::<Seq<char>>::empty());
            assert(str_views(v@) =~= base + flag_pairs("--extern"@, str_views(self.externs@.take(0))));
        }
        let mut i: usize = 0;
        while i < self.externs.len()
            invariant
                0 <= i <= self.externs@.len(),
                str_views(v@) == base + flag_pairs("--extern"@, str_views(self.externs@.take(i as int))),
            decreases self.externs@.len() - i,
        {
            let ghost vs_before = str_views(v@);
            v.push(String::from_str("--extern"));
            v.push(self.externs[i].clone());
            i = i + 1;
            proof {
                let prev = str_views(self.externs@.take(i - 1));
                let t = str_views(self.externs@.take(i as int));
                assert(str_views(v@) =~= vs_before + seq!["--extern"@, self.externs@[i - 1]@]);
                assert(t.drop_last() =~= prev);
                assert(t.last() == self.externs@[i - 1]@);
                assert(t.len() > 0);
                assert(flag_pairs("--extern"@, t) == flag_pairs("--extern"@, prev) + seq![
                    "--extern"@,
                    self.externs@[i - 1]@,
                ]);
                assert(str_views(v@) =~= base + flag_pairs("--extern"@, t));
            }
        }
        let ghost base2 = str_views(v@);
        proof {
            assert(self.externs@.take(self.externs@.len() as int) =~= self.externs@);
            assert(str_views(self.cfg@.take(0)) =~= Seq::<Seq<char>>::empty());
            assert(str_views(v@) =~= base2 + flag_pairs("--cfg"@, str_views(self.cfg@.take(0))));
        }
        let mut i: usize = 0;
        while i < self.cfg.len()
            invariant
                0 <= i <= self.cfg@.len(),
                str_views(v@) == base2 + flag_pairs("--cfg"@, str_views(self.cfg@.take(i as int))),
            decreases self.cfg@.len() - i,
        {
            let ghost vs_before = str_views(v@);
            v.push(String::from_str("--cfg"));
            v.push(self.cfg[i].clone());
            i = i + 1;
            proof {
                let prev = str_views(self.cfg@.take(i - 1));
                let t = str_views(self.cfg@.take(i as int));
                assert(str_views(v@) =~= vs_before + seq!["--cfg"@, self.cfg@[i - 1]@]);
                assert(t.drop_last() =~= prev);
                assert(t.last() == self.cfg@[i - 1]@);
                assert(t.len() > 0);
                assert(flag_pairs("--cfg"@, t) == flag_pairs("--cfg"@, prev) + seq![
                    "--cfg"@,
                    self.cfg@[i - 1]@,
                ]);
                assert(str_views(v@) =~= base2 + flag_pairs("--cfg"@, t));
            }
        }
        proof {
            assert(self.cfg@.take(self.cfg@.len() as int) =~= self.cfg@);
            assert(str_views(v@) =~= rustc_args(*self, path@));
        }
        v
    }
}

/// The intermediate builder state: every invocation parameter is optional
/// until finalization, and the two sequence-valued parameters accumulate.
#[derive(Debug)]
pub struct RustcBuilder {
    pub edition: Option<Edition>,
    pub crate_type: Option<CrateType>,
    pub crate_name: Option<String>,
    pub out_dir: Option<String>,
    pub lib_dir: Option<String>,
    pub cfg: Vec<String>,
    pub externs: Vec<String>,
}

/// Finalization is permitted exactly when artifact kind, crate name, output
/// directory and library search directory have all been set.
pub open spec fn builder_complete(b: RustcBuilder) -> bool {
    &&& b.crate_type is Some
    &&& b.crate_name is Some
    &&& b.out_dir is Some
    &&& b.lib_dir is Some
}

/// The edition a finalized builder carries: the one set, or the oldest
/// supported edition as the documented default.
pub open spec fn finished_edition(b: RustcBuilder) -> Edition {
    match b.edition {
        Some(e) => e,
        None => Edition::E2015,
    }
}

impl RustcBuilder {
    /// Sets the edition; every other parameter is kept.
    pub fn edition(self, edition: Edition) -> (r: Self)
        ensures
            r.edition == Some(edition),
            r.crate_type == self.crate_type,
            r.crate_name == self.crate_name,
            r.out_dir == self.out_dir,
            r.lib_dir == self.lib_dir,
            r.cfg == self.cfg,
            r.externs == self.externs,
    {
        Self { edition: Some(edition), ..self }
    }

    /// Sets the output directory; every other parameter is kept.
    pub fn out_dir(self, out_dir: String) -> (r: Self)
        ensures
            r.out_dir == Some(out_dir),
            r.edition == self.edition,
            r.crate_type == self.crate_type,
            r.crate_name == self.crate_name,
            r.lib_dir == self.lib_dir,
            r.cfg == self.cfg,
            r.externs == self.externs,
    {
        Self { out_dir: Some(out_dir), ..self }
    }

    /// Sets the library search directory; every other parameter is kept.
    pub fn lib_dir(self, lib_dir: String) -> (r: Self)
        ensures
            r.lib_dir == Some(lib_dir),
            r.edition == self.edition,
            r.crate_type == self.crate_type,
            r.crate_name == self.crate_name,
            r.out_dir == self.out_dir,
            r.cfg == self.cfg,
            r.externs == self.externs,
    {
        Self { lib_dir: Some(lib_dir), ..self }
    }

    /// Sets the crate name; every other parameter is kept.
    pub fn crate_name(self, crate_name: String) -> (r: Self)
        ensures
            r.crate_name == Some(crate_name),
            r.edition == self.edition,
            r.crate_type == self.crate_type,
            r.out_dir == self.out_dir,
            r.lib_dir == self.lib_dir,
            r.cfg == self.cfg,
            r.externs == self.externs,
    {
        Self { crate_name: Some(crate_name), ..self }
    }

    /// Sets the artifact kind; every other parameter is kept.
    pub fn crate_type(self, crate_type: CrateType) -> (r: Self)
        ensures
            r.crate_type == Some(crate_type),
            r.edition == self.edition,
            r.crate_name == self.crate_name,
            r.out_dir == self.out_dir,
            r.lib_dir == self.lib_dir,
            r.cfg == self.cfg,
            r.externs == self.externs,
    {
        Self { crate_type: Some(crate_type), ..self }
    }

    /// Appends one compile-time configuration flag; every other parameter is
    /// kept.
    pub fn cfg(self, cfg: String) -> (r: Self)
        ensures
            r.cfg@ == self.cfg@.push(cfg),
            r.edition == self.edition,
            r.crate_type == self.crate_type,
            r.crate_name == self.crate_name,
            r.out_dir == self.out_dir,
            r.lib_dir == self.lib_dir,
            r.externs == self.externs,
    {
        let mut b = self;
        b.cfg.push(cfg);
        b
    }

    /// Appends one external-crate link; every other parameter is kept.
    pub fn externs(self, link: String) -> (r: Self)
        ensures
            r.externs@ == self.externs@.push(link),
            r.edition == self.edition,
            r.crate_type == self.crate_type,
            r.crate_name == self.crate_name,
            r.out_dir == self.out_dir,
            r.lib_dir == self.lib_dir,
            r.cfg == self.cfg,
    {
        let mut b = self;
        b.externs.push(link);
        b
    }

    /// Finalization: permitted only on a complete builder, it yields the
    /// immutable descriptor, defaulting an unset edition to the oldest
    /// supported one.
    pub fn done(self) -> (r: Rustc)
        requires
            builder_complete(self),
        ensures
            r.edition == finished_edition(self),
            Some(r.crate_type) == self.crate_type,
            Some(r.crate_name) == self.crate_name,
            Some(r.out_dir) == self.out_dir,
            Some(r.lib_dir) == self.lib_dir,
            r.cfg == self.cfg,
            r.externs == self.externs,
    {
        let edition = match self.edition {
            Some(e) => e,
            None => Edition::E2015,
        };
        Rustc {
            edition,
            crate_type: self.crate_type.unwrap(),
            crate_name: self.crate_name.unwrap(),
            out_dir: self.out_dir.unwrap(),
            lib_dir: self.lib_dir.unwrap(),
            cfg: self.cfg,
            externs: self.externs,
        }
    }
}

} // verus!

