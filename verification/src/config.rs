//! The manifest model: a typed representation of the project's name and
//! language edition, parsed from line-oriented `key = value` text, with an
//! exact sequence-level model of the whole parse.
use vstd::prelude::*;
use vstd::string::*;
use crate::text::{
    find_char, scan_to, spec_strip_quotes, spec_trim, str_eq, strip_quotes,
    trim_str,
};
use crate::toolchain::{spec_parse_edition, Edition};

verus! {

/// The project metadata read from the manifest: its crate name and edition.
#[derive(Debug)]
pub struct Mainfest {
    pub crate_name: String,
    pub edition: Edition,
}

/// The mathematical value of a manifest.
pub ghost struct MainfestView {
    pub crate_name: Seq<char>,
    pub edition: Edition,
}

impl View for Mainfest {
    type V = MainfestView;

    open spec fn view(&self) -> MainfestView {
        MainfestView { crate_name: self.crate_name@, edition: self.edition }
    }
}

impl Mainfest {
    /// A manifest is well formed when its crate name is non-empty.
    pub open spec fn wf(&self) -> bool {
        self.crate_name@.len() > 0
    }
}

/// A terminal manifest error, each carrying what the report has to name.
#[derive(Debug)]
pub enum ParseError {
    /// A line held no `=` separator; carries the trimmed line.
    MissingSeparator(String),
    /// A key outside the recognized set; carries the key.
    UnsupportedKey(String),
    /// An `edition` value outside the supported set; carries the value.
    UnsupportedEdition(String),
    /// No line declared a (non-empty) `name`.
    MissingName,
    /// No line declared an `edition`.
    MissingEdition,
}

/// The mathematical value of a manifest error.
pub ghost enum ParseErrorView {
    MissingSeparator(Seq<char>),
    UnsupportedKey(Seq<char>),
    UnsupportedEdition(Seq<char>),
    MissingName,
    MissingEdition,
}

impl View for ParseError {
    type V = ParseErrorView;

    open spec fn view(&self) -> ParseErrorView {
        match self {
            ParseError::MissingSeparator(s) => ParseErrorView::MissingSeparator(s@),
            ParseError::UnsupportedKey(s) => ParseErrorView::UnsupportedKey(s@),
            ParseError::UnsupportedEdition(s) => ParseErrorView::UnsupportedEdition(s@),
            ParseError::MissingName => ParseErrorView::MissingName,
            ParseError::MissingEdition => ParseErrorView::MissingEdition,
        }
    }
}

/// The user-legible message of each error.
pub open spec fn spec_error_message(e: ParseErrorView) -> Seq<char> {
    match e {
        ParseErrorView::MissingSeparator(l) => "Line "@ + l + " has no key-value separator"@,
        ParseErrorView::UnsupportedKey(k) => "Field "@ + k + " is unsupport"@,
        ParseErrorView::UnsupportedEdition(v) => "Edition "@ + v + " is not supported"@,
        ParseErrorView::MissingName => "name is a required field"@,
        ParseErrorView::MissingEdition => "edition is a required field"@,
    }
}

impl ParseError {
    /// The user-legible report, naming the offending field or value.
    pub fn message(&self) -> (r: String)
        ensures
            r@ == spec_error_message(self@),
    {
        match self {
            ParseError::MissingSeparator(l) => String::from_str("Line ").concat(
                l.as_str(),
            ).concat(" has no key-value separator"),
            ParseError::UnsupportedKey(k) => String::from_str("Field ").concat(k.as_str()).concat(
                " is unsupport",
            ),
            ParseError::UnsupportedEdition(v) => String::from_str("Edition ").concat(
                v.as_str(),
            ).concat(" is not supported"),
            ParseError::MissingName => String::from_str("name is a required field"),
            ParseError::MissingEdition => String::from_str("edition is a required field"),
        }
    }
}

/// The text split at every newline, with a trailing empty segment dropped, as
/// `str::lines` does.
pub open spec fn spec_lines(t: Seq<char>) -> Seq<Seq<char>>
    decreases t.len(),
{
    if t.len() == 0 {
        Seq::empty()
    } else {
        let k = scan_to(t, '\n');
        if 0 <= k && k < t.len() {
            seq![t.take(k)] + spec_lines(t.skip(k + 1))
        } else {
            seq![t]
        }
    }
}

/// The key a line declares: what stands before the first `=`, trimmed.
pub open spec fn spec_key_of(line: Seq<char>) -> Seq<char> {
    spec_trim(line.take(scan_to(line, '=')))
}

/// What stands between the first `=` and the second (or the line end).
pub open spec fn spec_raw_value_of(line: Seq<char>) -> Seq<char> {
    let k = scan_to(line, '=');
    let rest = line.skip(k + 1);
    rest.take(scan_to(rest, '='))
}

/// The value a line declares: its raw value trimmed, with quotes removed.
pub open spec fn spec_value_of(line: Seq<char>) -> Seq<char> {
    spec_strip_quotes(spec_trim(spec_raw_value_of(line)))
}

/// One line applied to the accumulated declarations: a recognized key
/// overwrites its slot (so a repeated key keeps the last occurrence), and
/// anything else is a terminal error.
pub open spec fn spec_apply_line(
    line: Seq<char>,
    name: Option<Seq<char>>,
    edition: Option<Edition>,
) -> Result<(Option<Seq<char>>, Option<Edition>), ParseErrorView> {
    if scan_to(line, '=') >= line.len() {
        Err(ParseErrorView::MissingSeparator(spec_trim(line)))
    } else {
        let key = spec_key_of(line);
        if key == "name"@ {
            Ok((Some(spec_value_of(line)), edition))
        } else if key == "edition"@ {
            match spec_parse_edition(spec_value_of(line)) {
                Some(e) => Ok((name, Some(e))),
                None => Err(ParseErrorView::UnsupportedEdition(spec_value_of(line))),
            }
        } else {
            Err(ParseErrorView::UnsupportedKey(key))
        }
    }
}

/// The lines applied in order, stopping at the first error.
pub open spec fn spec_parse_lines(
    ls: Seq<Seq<char>>,
    name: Option<Seq<char>>,
    edition: Option<Edition>,
) -> Result<(Option<Seq<char>>, Option<Edition>), ParseErrorView>
    decreases ls.len(),
{
    if ls.len() == 0 {
        Ok((name, edition))
    } else {
        match spec_apply_line(ls[0], name, edition) {
            Ok(acc) => spec_parse_lines(ls.skip(1), acc.0, acc.1),
            Err(e) => Err(e),
        }
    }
}

/// The final check: both fields must have been declared, and the name must be
/// non-empty; a missing name is reported before a missing edition.
pub open spec fn spec_finish(
    name: Option<Seq<char>>,
    edition: Option<Edition>,
) -> Result<MainfestView, ParseErrorView> {
    match name {
        None => Err(ParseErrorView::MissingName),
        Some(n) => if n.len() == 0 {
            Err(ParseErrorView::MissingName)
        } else {
            match edition {
                None => Err(ParseErrorView::MissingEdition),
                Some(e) => Ok(MainfestView { crate_name: n, edition: e }),
            }
        },
    }
}

/// The whole parse: every line applied in declaration order, then the
/// mandatory-field check.
pub open spec fn spec_parse_manifest(t: Seq<char>) -> Result<MainfestView, ParseErrorView> {
    match spec_parse_lines(spec_lines(t), None, None) {
        Ok(acc) => spec_finish(acc.0, acc.1),
        Err(e) => Err(e),
    }
}

/// A line the parse accepts: it has a separator and declares a recognized
/// key, with a supported value when the key is `edition`.
pub open spec fn spec_line_ok(l: Seq<char>) -> bool {
    &&& scan_to(l, '=') < l.len()
    &&& (spec_key_of(l) == "name"@ || (spec_key_of(l) == "edition"@ && spec_parse_edition(
        spec_value_of(l),
    ) is Some))
}

/// The error a rejected line is reported with.
pub open spec fn spec_line_error(l: Seq<char>) -> ParseErrorView {
    if scan_to(l, '=') >= l.len() {
        ParseErrorView::MissingSeparator(spec_trim(l))
    } else if spec_key_of(l) == "edition"@ {
        ParseErrorView::UnsupportedEdition(spec_value_of(l))
    } else {
        ParseErrorView::UnsupportedKey(spec_key_of(l))
    }
}

/// The value of the last line that declares `key`, if any line does.
pub open spec fn spec_last_value(ls: Seq<Seq<char>>, key: Seq<char>) -> Option<Seq<char>>
    decreases ls.len(),
{
    if ls.len() == 0 {
        None
    } else if spec_key_of(ls.last()) == key {
        Some(spec_value_of(ls.last()))
    } else {
        spec_last_value(ls.drop_last(), key)
    }
}

proof fn lemma_last_value_cons(ls: Seq<Seq<char>>, key: Seq<char>)
    requires
        ls.len() > 0,
    ensures
        spec_last_value(ls, key) == (match spec_last_value(ls.skip(1), key) {
            Some(v) => Some(v),
            None => if spec_key_of(ls[0]) == key {
                Some(spec_value_of(ls[0]))
            } else {
                None
            },
        }),
    decreases ls.len(),
{
    if ls.len() == 1 {
        assert(ls.skip(1) =~= Seq::<Seq<char>>::empty());
        assert(ls.last() == ls[0]);
        assert(ls.drop_last() =~= Seq::<Seq<char>>::empty());
    } else {
        let rest = ls.skip(1);
        assert(ls.last() == rest.last());
        if spec_key_of(ls.last()) == key {
        } else {
            lemma_last_value_cons(ls.drop_last(), key);
            assert(ls.drop_last().skip(1) =~= rest.drop_last());
            assert(ls.drop_last()[0] == ls[0]);
        }
    }
}

proof fn lemma_last_edition_parses(ls: Seq<Seq<char>>)
    requires
        forall|i: int| 0 <= i < ls.len() ==> #[trigger] spec_line_ok(ls[i]),
    ensures
        match spec_last_value(ls, "edition"@) {
            Some(v) => spec_parse_edition(v) is Some,
            None => true,
        },
    decreases ls.len(),
{
    reveal_strlit("name");
    reveal_strlit("edition");
    if ls.len() > 0 {
        assert(ls[ls.len() - 1] == ls.last());
        assert(spec_line_ok(ls.last()));
        if spec_key_of(ls.last()) == "edition"@ {
            assert("name"@.len() != "edition"@.len());
        } else {
            let d = ls.drop_last();
            assert forall|i: int| 0 <= i < d.len() implies #[trigger] spec_line_ok(d[i]) by {
                assert(d[i] == ls[i]);
            }
            lemma_last_edition_parses(d);
        }
    }
}

proof fn lemma_parse_lines_all_ok(
    ls: Seq<Seq<char>>,
    name: Option<Seq<char>>,
    edition: Option<Edition>,
)
    requires
        forall|i: int| 0 <= i < ls.len() ==> #[trigger] spec_line_ok(ls[i]),
    ensures
        spec_parse_lines(ls, name, edition) matches Ok(acc) && acc.0 == (match spec_last_value(
            ls,
            "name"@,
        ) {
            Some(v) => Some(v),
            None => name,
        }) && acc.1 == (match spec_last_value(ls, "edition"@) {
            Some(v) => spec_parse_edition(v),
            None => edition,
        }),
    decreases ls.len(),
{
    reveal_strlit("name");
    reveal_strlit("edition");
    assert("name"@.len() != "edition"@.len());
    if ls.len() > 0 {
        let l = ls[0];
        assert(spec_line_ok(l));
        match spec_apply_line(l, name, edition) {
            Ok(acc1) => {
                let rest = ls.skip(1);
                assert forall|i: int| 0 <= i < rest.len() implies #[trigger] spec_line_ok(
                    rest[i],
                ) by {
                    assert(rest[i] == ls[i + 1]);
                }
                lemma_parse_lines_all_ok(rest, acc1.0, acc1.1);
                lemma_last_value_cons(ls, "name"@);
                lemma_last_value_cons(ls, "edition"@);
            },
            Err(_) => {
                assert(false);
            },
        }
    }
}

/// A manifest whose every line is accepted, whose last `name` declaration is
/// non-empty and which declares an `edition`, parses successfully, and the
/// manifest holds exactly the last-declared value of each field.
pub proof fn lemma_parse_reports_last_declarations(t: Seq<char>)
    requires
        forall|i: int| 0 <= i < spec_lines(t).len() ==> #[trigger] spec_line_ok(spec_lines(t)[i]),
        spec_last_value(spec_lines(t), "name"@) matches Some(v) && v.len() > 0,
        spec_last_value(spec_lines(t), "edition"@) is Some,
    ensures
        spec_parse_manifest(t) matches Ok(m) && Some(m.crate_name) == spec_last_value(
            spec_lines(t),
            "name"@,
        ) && (spec_last_value(spec_lines(t), "edition"@) matches Some(ev) && spec_parse_edition(ev)
            == Some(m.edition)),
{
    lemma_parse_lines_all_ok(spec_lines(t), None, None);
    lemma_last_edition_parses(spec_lines(t));
}

/// A manifest whose every line is accepted but which never declares a
/// non-empty `name` fails, naming the `name` field.
pub proof fn lemma_parse_missing_name(t: Seq<char>)
    requires
        forall|i: int| 0 <= i < spec_lines(t).len() ==> #[trigger] spec_line_ok(spec_lines(t)[i]),
        match spec_last_value(spec_lines(t), "name"@) {
            Some(v) => v.len() == 0,
            None => true,
        },
    ensures
        spec_parse_manifest(t) == Err::<MainfestView, ParseErrorView>(ParseErrorView::MissingName),
{
    lemma_parse_lines_all_ok(spec_lines(t), None, None);
}

/// A manifest whose every line is accepted, with a non-empty `name` but no
/// `edition` declaration, fails, naming the `edition` field.
pub proof fn lemma_parse_missing_edition(t: Seq<char>)
    requires
        forall|i: int| 0 <= i < spec_lines(t).len() ==> #[trigger] spec_line_ok(spec_lines(t)[i]),
        spec_last_value(spec_lines(t), "name"@) matches Some(v) && v.len() > 0,
        spec_last_value(spec_lines(t), "edition"@) is None,
    ensures
        spec_parse_manifest(t) == Err::<MainfestView, ParseErrorView>(
            ParseErrorView::MissingEdition,
        ),
{
    lemma_parse_lines_all_ok(spec_lines(t), None, None);
}

proof fn lemma_parse_lines_first_err(
    ls: Seq<Seq<char>>,
    name: Option<Seq<char>>,
    edition: Option<Edition>,
    i: int,
)
    requires
        0 <= i < ls.len(),
        forall|j: int| 0 <= j < i ==> #[trigger] spec_line_ok(ls[j]),
        !spec_line_ok(ls[i]),
    ensures
        spec_parse_lines(ls, name, edition) == Err::<
            (Option<Seq<char>>, Option<Edition>),
            ParseErrorView,
        >(spec_line_error(ls[i])),
    decreases i,
{
    if i == 0 {
        assert(!spec_line_ok(ls[0]));
    } else {
        assert(spec_line_ok(ls[0]));
        match spec_apply_line(ls[0], name, edition) {
            Ok(acc1) => {
                let rest = ls.skip(1);
                assert forall|j: int| 0 <= j < i - 1 implies #[trigger] spec_line_ok(rest[j]) by {
                    assert(rest[j] == ls[j + 1]);
                }
                assert(rest[i - 1] == ls[i]);
                lemma_parse_lines_first_err(rest, acc1.0, acc1.1, i - 1);
            },
            Err(_) => {
                assert(false);
            },
        }
    }
}

/// A manifest with a rejected line fails at the first such line, with the
/// error that names its offending key or value.
pub proof fn lemma_parse_stops_at_first_bad_line(t: Seq<char>, i: int)
    requires
        0 <= i < spec_lines(t).len(),
        forall|j: int| 0 <= j < i ==> #[trigger] spec_line_ok(spec_lines(t)[j]),
        !spec_line_ok(spec_lines(t)[i]),
    ensures
        spec_parse_manifest(t) == Err::<MainfestView, ParseErrorView>(
            spec_line_error(spec_lines(t)[i]),
        ),
{
    lemma_parse_lines_first_err(spec_lines(t), None, None, i);
}

/// The character sequence an optional string holds, if it holds one.
pub open spec fn opt_str_view(o: Option<String>) -> Option<Seq<char>> {
    match o {
        Some(s) => Some(s@),
        None => None,
    }
}

/// Reads one line into the accumulated declarations.
fn apply_line(line: &str, name: &mut Option<String>, edition: &mut Option<Edition>) -> (r: Result<
    (),
    ParseError,
>)
    ensures
        match r {
            Ok(_) => spec_apply_line(line@, opt_str_view(*old(name)), *old(edition)) matches Ok(acc)
                && opt_str_view(*final(name)) == acc.0 && *final(edition) == acc.1,
            Err(e) => spec_apply_line(line@, opt_str_view(*old(name)), *old(edition)) matches Err(
                ev,
            ) && ev == e@,
        },
{
    let n = line.unicode_len();
    let k = find_char(line, '=', 0);
    proof {
        assert(line@.skip(0) =~= line@);
    }
    if k == n {
        return Err(ParseError::MissingSeparator(String::from_str(trim_str(line))));
    }
    let key = trim_str(line.substring_char(0, k));
    proof {
        assert(line@.subrange(0, k as int) =~= line@.take(k as int));
    }
    let k2 = find_char(line, '=', k + 1);
    let value_part = trim_str(line.substring_char(k + 1, k2));
    proof {
        let rest = line@.skip(k + 1);
        assert(rest.take(scan_to(rest, '=')) =~= line@.subrange(k + 1, k2 as int));
    }
    if str_eq(key, "name") {
        let value = strip_quotes(value_part);
        *name = Some(value);
        Ok(())
    } else if str_eq(key, "edition") {
        let value = strip_quotes(value_part);
        match Edition::parse(value.as_str()) {
            Ok(e) => {
                *edition = Some(e);
                Ok(())
            },
            Err(err) => Err(ParseError::UnsupportedEdition(err.value)),
        }
    } else {
        Err(ParseError::UnsupportedKey(String::from_str(key)))
    }
}

impl Mainfest {
    /// Parses manifest text: line-oriented `key = value` declarations with
    /// the recognized keys `name` and `edition`, a repeated key keeping its
    /// last occurrence, and both keys mandatory.
    pub fn parse(text: &str) -> (r: Result<Mainfest, ParseError>)
        ensures
            match r {
                Ok(m) => spec_parse_manifest(text@) matches Ok(mv) && mv == m@ && m.wf(),
                Err(e) => spec_parse_manifest(text@) matches Err(ev) && ev == e@,
            },
    {
        let n = text.unicode_len();
        let mut name: Option<String> = None;
        let mut edition: Option<Edition> = None;
        let mut pos: usize = 0;
        proof {
            assert(text@.skip(0) =~= text@);
        }
        while pos < n
            invariant
                pos <= n,
                n == text@.len(),
                spec_parse_lines(spec_lines(text@), None, None) == spec_parse_lines(
                    spec_lines(text@.skip(pos as int)),
                    opt_str_view(name),
                    edition,
                ),
            decreases n - pos,
        {
            let j = find_char(text, '\n', pos);
            let line = text.substring_char(pos, j);
            let next_pos = if j < n {
                j + 1
            } else {
                n
            };
            proof {
                let rem = text@.skip(pos as int);
                let k = scan_to(rem, '\n');
                assert(k == j - pos);
                assert(rem.take(k) =~= text@.subrange(pos as int, j as int));
                if j < n {
                    assert(rem.skip(k + 1) =~= text@.skip(next_pos as int));
                    assert(spec_lines(rem) == seq![line@] + spec_lines(text@.skip(next_pos as int)));
                } else {
                    assert(rem =~= line@);
                    assert(text@.skip(next_pos as int) =~= Seq::<char>::empty());
                    assert(spec_lines(text@.skip(next_pos as int)) =~= Seq::<Seq<char>>::empty());
                    assert(seq![line@] + spec_lines(text@.skip(next_pos as int)) =~= seq![rem]);
                    assert(spec_lines(rem) == seq![line@] + spec_lines(text@.skip(next_pos as int)));
                }
                let ls = spec_lines(rem);
                assert(ls[0] == line@);
                assert(ls.skip(1) =~= spec_lines(text@.skip(next_pos as int)));
            }
            match apply_line(line, &mut name, &mut edition) {
                Ok(_) => {},
                Err(e) => {
                    return Err(e);
                },
            }
            pos = next_pos;
        }
        proof {
            assert(text@.skip(pos as int) =~= Seq::<char>::empty());
        }
        let name_val = match name {
            Some(s) => s,
            None => {
                return Err(ParseError::MissingName);
            },
        };
        if name_val.as_str().unicode_len() == 0 {
            return Err(ParseError::MissingName);
        }
        let edition_val = match edition {
            Some(e) => e,
            None => {
                return Err(ParseError::MissingEdition);
            },
        };
        Ok(Mainfest { crate_name: name_val, edition: edition_val })
    }
}

} // verus!
