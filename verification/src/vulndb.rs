//! Matching the vulnerability database's patterns against a source file.
//!
//! Each entry's regular expression is run over the whole source; every
//! match becomes one [`VulnMatch`] carrying the entry's description, the
//! 1-based line on which the match starts, and the trimmed text of the
//! lines the match spans.  Entries whose pattern does not compile are
//! skipped.
use vstd::prelude::*;
use vstd::utf8::{decode_utf8, encode_utf8, is_char_boundary};
use crate::patterns::{regex_error, regex_find_all, regex_find_spans, regex_new_error};
use crate::text::{chars_of, string_of, trim, trim_chars};

verus! {

broadcast use vstd::std_specs::vec::group_vec_axioms, vstd::seq::group_seq_axioms,
    vstd::utf8::encode_utf8_decode_utf8, vstd::utf8::encode_utf8_valid_utf8;

/// An entry of the vulnerability database, with the fields the matcher reads.
#[derive(Debug, Clone)]
pub struct VulnEntry {
    /// Unique identifier (e.g. `"VULN-001"`).
    pub id: String,
    pub name: String,
    /// One of `critical`, `high`, `medium`, `low`, `info`.
    pub severity: String,
    pub category: String,
    pub description: String,
    pub recommendation: String,
    /// The regular expression that detects the vulnerability.
    pub pattern: String,
}

/// A single pattern match from the vulnerability database scan.
#[derive(Debug, Clone)]
pub struct VulnMatch {
    /// Unique identifier of the matched vulnerability (e.g. `"VULN-001"`).
    pub vuln_id: String,
    /// Human-readable name of the vulnerability.
    pub name: String,
    /// Severity level string (one of `critical`, `high`, `medium`, `low`, `info`).
    pub severity: String,
    /// Broad vulnerability category.
    pub category: String,
    /// Human-readable description of the vulnerability.
    pub description: String,
    /// Actionable recommendation for the developer.
    pub recommendation: String,
    /// Path of the source file in which the match was found.
    pub file: String,
    /// 1-based line number of the match.
    pub line: usize,
    /// Source-code snippet around the match.
    pub snippet: String,
}

/// A match as plain values.
pub struct VulnMatchView {
    pub vuln_id: Seq<char>,
    pub name: Seq<char>,
    pub severity: Seq<char>,
    pub category: Seq<char>,
    pub description: Seq<char>,
    pub recommendation: Seq<char>,
    pub file: Seq<char>,
    pub line: int,
    pub snippet: Seq<char>,
}

/// The plain values of a match.
pub open spec fn match_view(m: VulnMatch) -> VulnMatchView {
    VulnMatchView {
        vuln_id: m.vuln_id@,
        name: m.name@,
        severity: m.severity@,
        category: m.category@,
        description: m.description@,
        recommendation: m.recommendation@,
        file: m.file@,
        line: m.line as int,
        snippet: m.snippet@,
    }
}

/// The plain values of a list of matches.
pub open spec fn matches_view(ms: Seq<VulnMatch>) -> Seq<VulnMatchView> {
    ms.map_values(|m: VulnMatch| match_view(m))
}

// ── Positions ───────────────────────────────────────────────────────────────

/// The character position of byte offset `b` of `text`'s UTF-8 encoding.
pub open spec fn char_pos(text: Seq<char>, b: int) -> int {
    decode_utf8(encode_utf8(text).subrange(0, b)).len() as int
}

/// The number of line feeds in `cs`.
pub open spec fn newlines(cs: Seq<char>) -> nat
    decreases cs.len(),
{
    if cs.len() == 0 {
        0
    } else {
        newlines(cs.drop_last()) + if cs.last() == '\n' { 1nat } else { 0nat }
    }
}

/// Where the line holding position `i` starts: just after the last line
/// feed before `i`, or 0.
pub open spec fn line_start(cs: Seq<char>, i: int) -> int
    decreases i,
{
    if i <= 0 {
        0
    } else if cs[i - 1] == '\n' {
        i
    } else {
        line_start(cs, i - 1)
    }
}

/// Where the line holding position `i` ends: at the first line feed from
/// `i` on, or at the end of the text.
pub open spec fn line_end(cs: Seq<char>, i: int) -> int
    decreases cs.len() - i,
{
    if i >= cs.len() {
        cs.len() as int
    } else if cs[i] == '\n' {
        i
    } else {
        line_end(cs, i + 1)
    }
}

/// The match of entry `v` spanning bytes `span` of `source`.
pub open spec fn match_at(v: VulnEntry, source: Seq<char>, file: Seq<char>, span: (usize, usize)) -> VulnMatchView {
    let s = char_pos(source, span.0 as int);
    let e = char_pos(source, span.1 as int);
    VulnMatchView {
        vuln_id: v.id@,
        name: v.name@,
        severity: v.severity@,
        category: v.category@,
        description: v.description@,
        recommendation: v.recommendation@,
        file,
        line: newlines(source.take(s)) + 1int,
        snippet: trim(source.subrange(line_start(source, s), line_end(source, e))),
    }
}

/// The matches of one entry: none when its pattern does not compile, else
/// one per match of the pattern, in order.
pub open spec fn entry_matches(v: VulnEntry, source: Seq<char>, file: Seq<char>) -> Seq<VulnMatchView> {
    if regex_new_error(v.pattern@) is Some {
        seq![]
    } else {
        regex_find_spans(v.pattern@, source).map_values(|span: (usize, usize)| match_at(v, source, file, span))
    }
}

/// The matches of all entries, entry by entry.
pub open spec fn all_matches(vulns: Seq<VulnEntry>, source: Seq<char>, file: Seq<char>) -> Seq<VulnMatchView>
    decreases vulns.len(),
{
    if vulns.len() == 0 {
        seq![]
    } else {
        all_matches(vulns.drop_last(), source, file) + entry_matches(vulns.last(), source, file)
    }
}

// ── Byte offsets to characters ──────────────────────────────────────────────

/// Character positions grow with byte offsets, up to the text's length.
proof fn lemma_char_pos_mono(text: Seq<char>, s: int, e: int)
    requires
        0 <= s <= e <= encode_utf8(text).len(),
        is_char_boundary(encode_utf8(text), s),
        is_char_boundary(encode_utf8(text), e),
    ensures
        0 <= char_pos(text, s) <= char_pos(text, e) <= text.len(),
{
    let b = encode_utf8(text);
    vstd::utf8::decode_utf8_split(b, e);
    vstd::utf8::valid_utf8_split(b, e);
    let be = b.subrange(0, e);
    assert(be.len() == e);
    assert(is_char_boundary(be, s)) by {
        if s == e {
            vstd::utf8::is_char_boundary_start_end_of_seq(be);
        } else if s > 0 {
            vstd::utf8::is_char_boundary_iff_not_is_continuation_byte(b, s);
            vstd::utf8::is_char_boundary_iff_not_is_continuation_byte(be, s);
            assert(be[s] == b[s]);
        }
    }
    vstd::utf8::decode_utf8_split(be, s);
    assert(be.subrange(0, s) =~= b.subrange(0, s));
}

/// The character position of a byte offset on a character boundary.
fn char_position(source: &str, b: usize) -> (r: usize)
    requires
        b <= encode_utf8(source@).len(),
        is_char_boundary(encode_utf8(source@), b as int),
    ensures
        r == char_pos(source@, b as int),
{
    let (pre, _rest) = source.split_at(b);
    assert(encode_utf8(pre@) =~= encode_utf8(source@).subrange(0, b as int));
    let cs = chars_of(pre);
    cs.len()
}

// ── Scanning ────────────────────────────────────────────────────────────────

/// The number of line feeds among the first `n` characters.
fn count_newlines(cs: &Vec<char>, n: usize) -> (r: usize)
    requires
        n <= cs@.len(),
    ensures
        r == newlines(cs@.take(n as int)),
        r <= n,
{
    let mut count: usize = 0;
    let mut i: usize = 0;
    assert(cs@.take(0) =~= Seq::<char>::empty());
    while i < n
        invariant
            i <= n,
            n <= cs@.len(),
            count == newlines(cs@.take(i as int)),
            count <= i,
        decreases n - i,
    {
        assert(cs@.take(i + 1).drop_last() =~= cs@.take(i as int));
        if cs[i] == '\n' {
            count = count + 1;
        }
        i = i + 1;
    }
    count
}

/// Where the line holding position `i` starts.
fn find_line_start(cs: &Vec<char>, i: usize) -> (r: usize)
    requires
        i <= cs@.len(),
    ensures
        r == line_start(cs@, i as int),
        r <= i,
{
    let mut j = i;
    while j > 0 && cs[j - 1] != '\n'
        invariant
            j <= i,
            i <= cs@.len(),
            line_start(cs@, i as int) == line_start(cs@, j as int),
        decreases j,
    {
        j = j - 1;
    }
    j
}

/// Where the line holding position `i` ends.
fn find_line_end(cs: &Vec<char>, i: usize) -> (r: usize)
    requires
        i <= cs@.len(),
    ensures
        r == line_end(cs@, i as int),
        i <= r <= cs@.len(),
{
    let mut k = i;
    while k < cs.len() && cs[k] != '\n'
        invariant
            i <= k <= cs@.len(),
            line_end(cs@, i as int) == line_end(cs@, k as int),
        decreases cs@.len() - k,
    {
        k = k + 1;
    }
    k
}

/// The match of entry `v` spanning bytes `start..end` of `source`.
fn make_match(v: &VulnEntry, source: &str, chars: &Vec<char>, file_name: &str, start: usize, end: usize) -> (r: VulnMatch)
    requires
        chars@ == source@,
        source@.len() < usize::MAX,
        start <= end <= encode_utf8(source@).len(),
        is_char_boundary(encode_utf8(source@), start as int),
        is_char_boundary(encode_utf8(source@), end as int),
    ensures
        match_view(r) == match_at(*v, source@, file_name@, (start, end)),
{
    proof {
        lemma_char_pos_mono(source@, start as int, end as int);
    }
    let cs = char_position(source, start);
    let ce = char_position(source, end);
    let line = count_newlines(chars, cs) + 1;
    let ls = find_line_start(chars, cs);
    let le = find_line_end(chars, ce);
    let mut text: Vec<char> = Vec::new();
    let mut i = ls;
    while i < le
        invariant
            ls <= i <= le,
            le <= chars@.len(),
            text@ == chars@.subrange(ls as int, i as int),
        decreases le - i,
    {
        text.push(chars[i]);
        i = i + 1;
    }
    let t = trim_chars(&text);
    VulnMatch {
        vuln_id: v.id.clone(),
        name: v.name.clone(),
        severity: v.severity.clone(),
        category: v.category.clone(),
        description: v.description.clone(),
        recommendation: v.recommendation.clone(),
        file: file_name.to_owned(),
        line,
        snippet: string_of(&t),
    }
}

/// Scans `source` against every entry in `vulns`: each entry whose
/// pattern compiles yields one match per occurrence of the pattern, in
/// order; entries whose pattern does not compile are skipped.
pub fn scan_source(vulns: &[VulnEntry], source: &str, file_name: &str) -> (r: Vec<VulnMatch>)
    requires
        source@.len() < usize::MAX,
    ensures
        matches_view(r@) == all_matches(vulns@, source@, file_name@),
{
    let chars = chars_of(source);
    let mut out: Vec<VulnMatch> = Vec::new();
    let mut i: usize = 0;
    assert(matches_view(out@) =~= all_matches(vulns@.take(0), source@, file_name@));
    while i < vulns.len()
        invariant
            i <= vulns@.len(),
            chars@ == source@,
            source@.len() < usize::MAX,
            matches_view(out@) == all_matches(vulns@.take(i as int), source@, file_name@),
        decreases vulns@.len() - i,
    {
        assert(vulns@.take(i + 1).drop_last() =~= vulns@.take(i as int));
        assert(vulns@.take(i + 1).last() == vulns@[i as int]);
        let v = &vulns[i];
        let ghost start = matches_view(out@);
        match regex_error(v.pattern.as_str()) {
            Some(_) => {},
            None => {
                let spans = regex_find_all(v.pattern.as_str(), source);
                let ghost expected = entry_matches(*v, source@, file_name@);
                let mut k: usize = 0;
                while k < spans.len()
                    invariant
                        k <= spans@.len(),
                        chars@ == source@,
                        source@.len() < usize::MAX,
                        regex_new_error(v.pattern@) is None,
                        spans@ == regex_find_spans(v.pattern@, source@),
                        forall|q: int|
                            0 <= q < spans@.len() ==> {
                                let (s, e) = #[trigger] spans@[q];
                                &&& s <= e <= encode_utf8(source@).len()
                                &&& is_char_boundary(encode_utf8(source@), s as int)
                                &&& is_char_boundary(encode_utf8(source@), e as int)
                            },
                        expected == spans@.map_values(|span: (usize, usize)| match_at(*v, source@, file_name@, span)),
                        matches_view(out@) == start + expected.take(k as int),
                    decreases spans@.len() - k,
                {
                    let (s, e) = spans[k];
                    assert(spans@[k as int] == (s, e));
                    let m = make_match(v, source, &chars, file_name, s, e);
                    let ghost before = matches_view(out@);
                    out.push(m);
                    assert(matches_view(out@) =~= before.push(match_view(m)));
                    assert(expected.take(k + 1) =~= expected.take(k as int).push(expected[k as int]));
                    k = k + 1;
                }
                assert(expected.take(spans@.len() as int) =~= expected);
            },
        }
        assert(matches_view(out@) =~= all_matches(vulns@.take(i + 1), source@, file_name@));
        i = i + 1;
    }
    assert(vulns@.take(vulns@.len() as int) =~= vulns@);
    out
}

} // verus!
