//! Character-level text helpers shared by the manifest reader: scanning for a
//! separator, trimming surrounding whitespace, removing quote characters, and
//! comparing two string slices, each against an exact sequence-level model.
use vstd::prelude::*;
use vstd::string::*;

verus! {

/// The whitespace characters that trimming removes (the ASCII whitespace set).
pub open spec fn is_space_char(c: char) -> bool {
    c == ' ' || c == '\t' || c == '\n' || c == '\r' || c == '\u{b}' || c == '\u{c}'
}

/// Index of the first occurrence of `stop` in `s`, or `s.len()` if absent.
pub open spec fn scan_to(s: Seq<char>, stop: char) -> int
    decreases s.len(),
{
    if s.len() == 0 {
        0
    } else if s[0] == stop {
        0
    } else {
        1 + scan_to(s.skip(1), stop)
    }
}

pub proof fn lemma_scan_to_at(s: Seq<char>, stop: char, i: int)
    requires
        0 <= i <= s.len(),
        forall|k: int| 0 <= k < i ==> s[k] != stop,
        i == s.len() || s[i] == stop,
    ensures
        scan_to(s, stop) == i,
    decreases i,
{
    if i > 0 {
        assert(s[0] != stop);
        assert forall|k: int| 0 <= k < i - 1 implies s.skip(1)[k] != stop by {
            assert(s.skip(1)[k] == s[k + 1]);
        }
        if i < s.len() {
            assert(s.skip(1)[i - 1] == s[i]);
        }
        lemma_scan_to_at(s.skip(1), stop, i - 1);
    }
}

/// `s` with its leading whitespace removed.
pub open spec fn spec_trim_start(s: Seq<char>) -> Seq<char>
    decreases s.len(),
{
    if s.len() > 0 && is_space_char(s[0]) {
        spec_trim_start(s.skip(1))
    } else {
        s
    }
}

/// `s` with its trailing whitespace removed.
pub open spec fn spec_trim_end(s: Seq<char>) -> Seq<char>
    decreases s.len(),
{
    if s.len() > 0 && is_space_char(s.last()) {
        spec_trim_end(s.drop_last())
    } else {
        s
    }
}

/// `s` with whitespace removed from both ends.
pub open spec fn spec_trim(s: Seq<char>) -> Seq<char> {
    spec_trim_end(spec_trim_start(s))
}

proof fn lemma_trim_start_at(s: Seq<char>, i: int)
    requires
        0 <= i <= s.len(),
        forall|k: int| 0 <= k < i ==> is_space_char(s[k]),
        i == s.len() || !is_space_char(s[i]),
    ensures
        spec_trim_start(s) == s.skip(i),
    decreases i,
{
    if i == 0 {
        assert(s.skip(0) =~= s);
    } else {
        assert(is_space_char(s[0]));
        assert forall|k: int| 0 <= k < i - 1 implies is_space_char(s.skip(1)[k]) by {
            assert(s.skip(1)[k] == s[k + 1]);
        }
        if i < s.len() {
            assert(s.skip(1)[i - 1] == s[i]);
        }
        lemma_trim_start_at(s.skip(1), i - 1);
        assert(s.skip(1).skip(i - 1) =~= s.skip(i));
    }
}

proof fn lemma_trim_end_at(s: Seq<char>, j: int)
    requires
        0 <= j <= s.len(),
        forall|k: int| j <= k < s.len() ==> is_space_char(s[k]),
        j == 0 || !is_space_char(s[j - 1]),
    ensures
        spec_trim_end(s) == s.take(j),
    decreases s.len() - j,
{
    if j == s.len() {
        if s.len() > 0 {
            assert(!is_space_char(s.last()));
        }
        assert(s.take(j) =~= s);
    } else {
        assert(is_space_char(s.last()));
        let d = s.drop_last();
        assert forall|k: int| j <= k < d.len() implies is_space_char(d[k]) by {
            assert(d[k] == s[k]);
        }
        if j > 0 {
            assert(d[j - 1] == s[j - 1]);
        }
        lemma_trim_end_at(d, j);
        assert(d.take(j) =~= s.take(j));
    }
}

/// `s` with every double-quote character removed.
pub open spec fn spec_strip_quotes(s: Seq<char>) -> Seq<char>
    decreases s.len(),
{
    if s.len() == 0 {
        s
    } else if s.last() == '"' {
        spec_strip_quotes(s.drop_last())
    } else {
        spec_strip_quotes(s.drop_last()).push(s.last())
    }
}

proof fn lemma_strip_quotes_clean_suffix(a: Seq<char>, b: Seq<char>)
    requires
        forall|k: int| 0 <= k < b.len() ==> b[k] != '"',
    ensures
        spec_strip_quotes(a + b) == spec_strip_quotes(a) + b,
    decreases b.len(),
{
    if b.len() == 0 {
        assert(a + b =~= a);
        assert(spec_strip_quotes(a) + b =~= spec_strip_quotes(a));
    } else {
        let b0 = b.drop_last();
        assert forall|k: int| 0 <= k < b0.len() implies b0[k] != '"' by {
            assert(b0[k] == b[k]);
        }
        lemma_strip_quotes_clean_suffix(a, b0);
        let ab = a + b;
        assert(ab.last() == b.last());
        assert(ab.drop_last() =~= a + b0);
        assert(spec_strip_quotes(a) + b0 + seq![b.last()] =~= spec_strip_quotes(a) + b);
        assert(spec_strip_quotes(a + b0).push(b.last()) =~= spec_strip_quotes(a) + b0 + seq![b.last()]);
    }
}

proof fn lemma_strip_quotes_quote_end(a: Seq<char>)
    ensures
        spec_strip_quotes(a.push('"')) == spec_strip_quotes(a),
{
    let p = a.push('"');
    assert(p.last() == '"');
    assert(p.drop_last() =~= a);
}

/// Whether `c` is one of the whitespace characters that trimming removes.
pub fn is_space(c: char) -> (r: bool)
    ensures
        r == is_space_char(c),
{
    c == ' ' || c == '\t' || c == '\n' || c == '\r' || c == '\u{b}' || c == '\u{c}'
}

/// Index of the first occurrence of `stop` in `s` at or after `from`,
/// or the length of `s` if there is none.
pub fn find_char(s: &str, stop: char, from: usize) -> (r: usize)
    requires
        from <= s@.len(),
    ensures
        from <= r <= s@.len(),
        r - from == scan_to(s@.skip(from as int), stop),
        r < s@.len() ==> s@[r as int] == stop,
        forall|k: int| from <= k < r ==> s@[k] != stop,
{
    let n = s.unicode_len();
    let mut j: usize = from;
    while j < n && s.get_char(j) != stop
        invariant
            from <= j <= n,
            n == s@.len(),
            forall|k: int| from <= k < j ==> s@[k] != stop,
        decreases n - j,
    {
        j = j + 1;
    }
    proof {
        let rem = s@.skip(from as int);
        assert forall|k: int| 0 <= k < j - from implies rem[k] != stop by {
            assert(rem[k] == s@[k + from]);
        }
        if j < n {
            assert(rem[j - from] == s@[j as int]);
        }
        lemma_scan_to_at(rem, stop, j - from);
    }
    j
}

/// The slice with whitespace removed from both ends, as `str::trim` does.
pub fn trim_str<'a>(s: &'a str) -> (r: &'a str)
    ensures
        r@ == spec_trim(s@),
{
    let n = s.unicode_len();
    let mut i: usize = 0;
    while i < n && is_space(s.get_char(i))
        invariant
            0 <= i <= n,
            n == s@.len(),
            forall|k: int| 0 <= k < i ==> is_space_char(s@[k]),
        decreases n - i,
    {
        i = i + 1;
    }
    let mut j: usize = n;
    while j > i && is_space(s.get_char(j - 1))
        invariant
            i <= j <= n,
            n == s@.len(),
            forall|k: int| j <= k < n ==> is_space_char(s@[k]),
        decreases j,
    {
        j = j - 1;
    }
    proof {
        lemma_trim_start_at(s@, i as int);
        let t = s@.skip(i as int);
        assert forall|k: int| j - i <= k < t.len() implies is_space_char(t[k]) by {
            assert(t[k] == s@[k + i]);
        }
        if j > i {
            assert(t[j - i - 1] == s@[j - 1]);
        }
        lemma_trim_end_at(t, j - i);
        assert(t.take(j - i) =~= s@.subrange(i as int, j as int));
    }
    s.substring_char(i, j)
}

/// `s` with every double-quote character removed, as `str::replace('"', "")`.
pub fn strip_quotes(s: &str) -> (r: String)
    ensures
        r@ == spec_strip_quotes(s@),
{
    let n = s.unicode_len();
    let mut r = String::new();
    let mut seg: usize = 0;
    let mut i: usize = 0;
    proof {
        assert(s@.take(0) =~= Seq::<char>::empty());
        assert(r@ =~= spec_strip_quotes(s@.take(0)));
    }
    while i < n
        invariant
            seg <= i <= n,
            n == s@.len(),
            r@ == spec_strip_quotes(s@.take(seg as int)),
            forall|k: int| seg <= k < i ==> s@[k] != '"',
        decreases n - i,
    {
        if s.get_char(i) == '"' {
            let piece = s.substring_char(seg, i);
            proof {
                let a = s@.take(seg as int);
                let b = s@.subrange(seg as int, i as int);
                assert forall|k: int| 0 <= k < b.len() implies b[k] != '"' by {
                    assert(b[k] == s@[k + seg]);
                }
                lemma_strip_quotes_clean_suffix(a, b);
                assert(a + b =~= s@.take(i as int));
                lemma_strip_quotes_quote_end(s@.take(i as int));
                assert(s@.take(i as int).push(s@[i as int]) =~= s@.take(i + 1));
            }
            r.append(piece);
            seg = i + 1;
        }
        i = i + 1;
    }
    let tail = s.substring_char(seg, n);
    proof {
        let a = s@.take(seg as int);
        let b = s@.subrange(seg as int, n as int);
        assert forall|k: int| 0 <= k < b.len() implies b[k] != '"' by {
            assert(b[k] == s@[k + seg]);
        }
        lemma_strip_quotes_clean_suffix(a, b);
        assert(a + b =~= s@);
    }
    r.append(tail);
    r
}

/// Whether the two slices hold the same characters.
pub fn str_eq(a: &str, b: &str) -> (r: bool)
    ensures
        r == (a@ == b@),
{
    let n = a.unicode_len();
    if n != b.unicode_len() {
        return false;
    }
    let mut i: usize = 0;
    while i < n
        invariant
            0 <= i <= n,
            n == a@.len(),
            n == b@.len(),
            forall|k: int| 0 <= k < i ==> a@[k] == b@[k],
        decreases n - i,
    {
        if a.get_char(i) != b.get_char(i) {
            return false;
        }
        i = i + 1;
    }
    proof {
        assert(a@ =~= b@);
    }
    true
}

} // verus!
