//! Text helpers shared by the analyses: comparing, searching, trimming and
//! building strings, with their meaning stated over `Seq<char>`.
use vstd::prelude::*;

verus! {

/// Whether `needle` occurs in `hay` starting at index `i`.
pub open spec fn occurs_at(hay: Seq<char>, needle: Seq<char>, i: int) -> bool {
    0 <= i && i + needle.len() <= hay.len() && hay.subrange(i, i + needle.len()) == needle
}

/// Whether `needle` occurs anywhere in `hay`.
pub open spec fn seq_contains(hay: Seq<char>, needle: Seq<char>) -> bool {
    exists|i: int| occurs_at(hay, needle, i)
}

/// The characters of `s`.
pub(crate) fn chars_of(s: &str) -> (r: Vec<char>)
    ensures
        r@ == s@,
{
    broadcast use vstd::string::axiom_spec_iter;
    let mut out: Vec<char> = Vec::new();
    for c in it: s.chars()
        invariant
            it.seq() == s@,
            out@ == it.seq().take(it.index() as int),
    {
        out.push(c);
    }
    out
}

/// The string made of the characters of `v`, built by
/// `String::from_iter`.  Claimed: the string holds exactly those
/// characters, in order.
#[verifier::external_body]
pub(crate) fn string_of(v: &Vec<char>) -> (r: String)
    ensures
        r@ == v@,
{
    String::from_iter(v.iter())
}

/// Whether two strings hold the same characters.
pub fn text_eq(a: &str, b: &str) -> (r: bool)
    ensures
        r == (a@ == b@),
{
    let x = a.to_owned();
    let y = b.to_owned();
    x == y
}

/// Whether `needle` occurs at position `i` of `hay`.
fn occurs_at_exec(hay: &Vec<char>, needle: &Vec<char>, i: usize) -> (r: bool)
    requires
        i + needle@.len() <= hay@.len(),
    ensures
        r == occurs_at(hay@, needle@, i as int),
{
    let n = needle.len();
    let mut k: usize = 0;
    while k < n
        invariant
            k <= n,
            n == needle@.len(),
            i + n <= hay.len(),
            forall|j: int| 0 <= j < k ==> hay@[i + j] == needle@[j],
        decreases n - k,
    {
        if hay[i + k] != needle[k] {
            assert(hay@.subrange(i as int, i + n)[k as int] != needle@[k as int]);
            return false;
        }
        k = k + 1;
    }
    assert(hay@.subrange(i as int, i + n) =~= needle@);
    true
}

/// Whether `needle` occurs in `hay`.
pub fn seq_contains_exec(hay: &Vec<char>, needle: &Vec<char>) -> (r: bool)
    ensures
        r == seq_contains(hay@, needle@),
{
    if needle.len() > hay.len() {
        return false;
    }
    let last = hay.len() - needle.len();
    let mut i: usize = 0;
    loop
        invariant
            last == hay@.len() - needle@.len(),
            i <= last,
            forall|j: int| 0 <= j < i ==> !occurs_at(hay@, needle@, j),
        decreases last - i,
    {
        if occurs_at_exec(hay, needle, i) {
            return true;
        }
        if i == last {
            assert forall|j: int| !occurs_at(hay@, needle@, j) by {
                if 0 <= j && j < i {
                } else if j == i {
                }
            }
            return false;
        }
        i = i + 1;
    }
}

/// Whether `needle` occurs in `hay`.
pub fn text_contains(hay: &str, needle: &str) -> (r: bool)
    ensures
        r == seq_contains(hay@, needle@),
{
    let h = chars_of(hay);
    let n = chars_of(needle);
    seq_contains_exec(&h, &n)
}

/// The decimal digit character for `d < 10`.
pub open spec fn digit_char(d: nat) -> char {
    if d == 0 { '0' }
    else if d == 1 { '1' }
    else if d == 2 { '2' }
    else if d == 3 { '3' }
    else if d == 4 { '4' }
    else if d == 5 { '5' }
    else if d == 6 { '6' }
    else if d == 7 { '7' }
    else if d == 8 { '8' }
    else { '9' }
}

/// The decimal representation of `n`, without leading zeros.
pub open spec fn decimal(n: nat) -> Seq<char>
    decreases n,
{
    if n < 10 {
        seq![digit_char(n)]
    } else {
        decimal(n / 10).push(digit_char(n % 10))
    }
}

fn digit_char_exec(d: u128) -> (c: char)
    requires
        d < 10,
    ensures
        c == digit_char(d as nat),
{
    if d == 0 { '0' }
    else if d == 1 { '1' }
    else if d == 2 { '2' }
    else if d == 3 { '3' }
    else if d == 4 { '4' }
    else if d == 5 { '5' }
    else if d == 6 { '6' }
    else if d == 7 { '7' }
    else if d == 8 { '8' }
    else { '9' }
}

fn decimal_chars(n: u128, out: &mut Vec<char>)
    ensures
        final(out)@ == old(out)@ + decimal(n as nat),
    decreases n,
{
    if n < 10 {
        out.push(digit_char_exec(n));
    } else {
        decimal_chars(n / 10, out);
        out.push(digit_char_exec(n % 10));
    }
}

/// The decimal representation of `n`.
pub fn u128_to_string(n: u128) -> (r: String)
    ensures
        r@ == decimal(n as nat),
{
    let mut v: Vec<char> = Vec::new();
    decimal_chars(n, &mut v);
    assert(v@ =~= decimal(n as nat));
    string_of(&v)
}

/// The decimal representation of `n`.
pub fn usize_to_string(n: usize) -> (r: String)
    ensures
        r@ == decimal(n as nat),
{
    u128_to_string(n as u128)
}

/// 2^128, one more than the largest `u128`.
pub open spec fn two_pow_128() -> nat {
    u128::MAX as nat + 1
}

/// The decimal representation of `2^128 + lo`, a value just past the range of `u128`.
pub fn wide_to_string(lo: u128) -> (r: String)
    ensures
        r@ == decimal((two_pow_128() + lo) as nat),
{
    // 2^128 == 10 * C + 6
    let c: u128 = 34028236692093846346337460743176821145;
    let u: u128 = 6 + lo % 10;
    let q: u128 = c + lo / 10 + u / 10;
    let d: u128 = u % 10;
    proof {
        let v: int = two_pow_128() + lo;
        assert(lo == 10 * (lo / 10) + lo % 10) by {
            vstd::arithmetic::div_mod::lemma_fundamental_div_mod(lo as int, 10);
        }
        assert(u == 10 * (u / 10) + u % 10) by {
            vstd::arithmetic::div_mod::lemma_fundamental_div_mod(u as int, 10);
        }
        assert(v == q * 10 + d);
        vstd::arithmetic::div_mod::lemma_fundamental_div_mod_converse(v, 10, q as int, d as int);
    }
    let mut out: Vec<char> = Vec::new();
    decimal_chars(q, &mut out);
    out.push(digit_char_exec(d));
    assert(out@ =~= decimal((two_pow_128() + lo) as nat));
    string_of(&out)
}

/// `a` followed by `b`.
pub fn concat(a: &str, b: &str) -> (r: String)
    ensures
        r@ == a@ + b@,
{
    let mut v = chars_of(a);
    let mut w = chars_of(b);
    v.append(&mut w);
    string_of(&v)
}

/// The characters of each string.
pub open spec fn strings_view(v: Seq<String>) -> Seq<Seq<char>> {
    v.map_values(|s: String| s@)
}

/// Whether `hay` has at position `i` a run that matches `lower` letter by
/// letter in either `lower` or the corresponding letter of `upper`.
pub open spec fn occurs_folded_at(hay: Seq<char>, lower: Seq<char>, upper: Seq<char>, i: int) -> bool {
    0 <= i && i + lower.len() <= hay.len() && forall|j: int|
        0 <= j < lower.len() ==> (#[trigger] hay[i + j] == lower[j] || hay[i + j] == upper[j])
}

/// Whether such a run occurs anywhere in `hay`.
pub open spec fn contains_folded(hay: Seq<char>, lower: Seq<char>, upper: Seq<char>) -> bool {
    exists|i: int| occurs_folded_at(hay, lower, upper, i)
}

fn occurs_folded_at_exec(hay: &Vec<char>, lower: &Vec<char>, upper: &Vec<char>, i: usize) -> (r: bool)
    requires
        lower@.len() == upper@.len(),
        i + lower@.len() <= hay@.len(),
    ensures
        r == occurs_folded_at(hay@, lower@, upper@, i as int),
{
    let n = lower.len();
    let mut k: usize = 0;
    while k < n
        invariant
            k <= n,
            n == lower@.len(),
            n == upper@.len(),
            i + n <= hay.len(),
            forall|j: int| 0 <= j < k ==> (#[trigger] hay@[i + j] == lower@[j] || hay@[i + j] == upper@[j]),
        decreases n - k,
    {
        if hay[i + k] != lower[k] && hay[i + k] != upper[k] {
            return false;
        }
        k = k + 1;
    }
    true
}

/// Whether `hay` contains `lower`, where each letter may also appear as the
/// corresponding letter of `upper` (its capital).
pub fn text_contains_folded(hay: &str, lower: &str, upper: &str) -> (r: bool)
    requires
        lower@.len() == upper@.len(),
    ensures
        r == contains_folded(hay@, lower@, upper@),
{
    let h = chars_of(hay);
    let lo = chars_of(lower);
    let up = chars_of(upper);
    if lo.len() > h.len() {
        return false;
    }
    let last = h.len() - lo.len();
    let mut i: usize = 0;
    loop
        invariant
            h@ == hay@,
            lo@ == lower@,
            up@ == upper@,
            lo@.len() == up@.len(),
            last == h@.len() - lo@.len(),
            i <= last,
            forall|j: int| 0 <= j < i ==> !occurs_folded_at(hay@, lower@, upper@, j),
        decreases last - i,
    {
        if occurs_folded_at_exec(&h, &lo, &up, i) {
            return true;
        }
        if i == last {
            assert forall|j: int| !occurs_folded_at(hay@, lower@, upper@, j) by {
                if 0 <= j && j < i {
                } else if j == i {
                }
            }
            return false;
        }
        i = i + 1;
    }
}

// ── Whitespace and lines ────────────────────────────────────────────────────

/// Whether `c` has the Unicode `White_Space` property (what `char::is_whitespace` tests).
pub open spec fn is_white_space(c: char) -> bool {
    ('\u{9}' <= c && c <= '\u{d}') || c == ' ' || c == '\u{85}' || c == '\u{a0}' || c == '\u{1680}'
        || ('\u{2000}' <= c && c <= '\u{200a}') || c == '\u{2028}' || c == '\u{2029}'
        || c == '\u{202f}' || c == '\u{205f}' || c == '\u{3000}'
}

/// Whether `c` has the Unicode `White_Space` property.
pub fn is_white_space_exec(c: char) -> (r: bool)
    ensures
        r == is_white_space(c),
{
    ('\u{9}' <= c && c <= '\u{d}') || c == ' ' || c == '\u{85}' || c == '\u{a0}' || c == '\u{1680}'
        || ('\u{2000}' <= c && c <= '\u{200a}') || c == '\u{2028}' || c == '\u{2029}'
        || c == '\u{202f}' || c == '\u{205f}' || c == '\u{3000}'
}

/// The number of leading white-space characters of `s`.
pub open spec fn leading_ws(s: Seq<char>) -> nat
    decreases s.len(),
{
    if s.len() > 0 && is_white_space(s[0]) {
        1 + leading_ws(s.drop_first())
    } else {
        0
    }
}

/// The number of trailing white-space characters of `s`.
pub open spec fn trailing_ws(s: Seq<char>) -> nat
    decreases s.len(),
{
    if s.len() > 0 && is_white_space(s.last()) {
        1 + trailing_ws(s.drop_last())
    } else {
        0
    }
}

/// `s` without leading and trailing white space (what `str::trim` gives).
pub open spec fn trim(s: Seq<char>) -> Seq<char> {
    let t = s.skip(leading_ws(s) as int);
    t.take(t.len() - trailing_ws(t))
}

proof fn lemma_leading_ws_bound(s: Seq<char>)
    ensures
        leading_ws(s) <= s.len(),
        forall|j: int| 0 <= j < leading_ws(s) ==> is_white_space(#[trigger] s[j]),
        leading_ws(s) < s.len() ==> !is_white_space(s[leading_ws(s) as int]),
    decreases s.len(),
{
    if s.len() > 0 && is_white_space(s[0]) {
        lemma_leading_ws_bound(s.drop_first());
        assert forall|j: int| 0 <= j < leading_ws(s) implies is_white_space(#[trigger] s[j]) by {
            if j > 0 {
                assert(s[j] == s.drop_first()[j - 1]);
            }
        }
        if leading_ws(s) < s.len() {
            assert(s[leading_ws(s) as int] == s.drop_first()[leading_ws(s.drop_first()) as int]);
        }
    }
}

proof fn lemma_trailing_ws_bound(s: Seq<char>)
    ensures
        trailing_ws(s) <= s.len(),
        forall|j: int| s.len() - trailing_ws(s) <= j < s.len() ==> is_white_space(#[trigger] s[j]),
        trailing_ws(s) < s.len() ==> !is_white_space(s[s.len() - trailing_ws(s) - 1]),
    decreases s.len(),
{
    if s.len() > 0 && is_white_space(s.last()) {
        lemma_trailing_ws_bound(s.drop_last());
        assert forall|j: int| s.len() - trailing_ws(s) <= j < s.len() implies is_white_space(
            #[trigger] s[j],
        ) by {
            if j < s.len() - 1 {
                assert(s[j] == s.drop_last()[j]);
            }
        }
        if trailing_ws(s) < s.len() {
            assert(s[s.len() - trailing_ws(s) - 1] == s.drop_last()[s.len() - trailing_ws(s) - 1]);
        }
    }
}

proof fn lemma_leading_ws_exact(s: Seq<char>, n: int)
    requires
        0 <= n <= s.len(),
        forall|j: int| 0 <= j < n ==> is_white_space(#[trigger] s[j]),
        n < s.len() ==> !is_white_space(s[n]),
    ensures
        leading_ws(s) == n,
    decreases n,
{
    if n > 0 {
        assert forall|j: int| 0 <= j < n - 1 implies is_white_space(#[trigger] s.drop_first()[j]) by {
            assert(s.drop_first()[j] == s[j + 1]);
        }
        if n - 1 < s.drop_first().len() {
            assert(s.drop_first()[n - 1] == s[n]);
        }
        lemma_leading_ws_exact(s.drop_first(), n - 1);
    }
}

proof fn lemma_trailing_ws_exact(s: Seq<char>, n: int)
    requires
        0 <= n <= s.len(),
        forall|j: int| s.len() - n <= j < s.len() ==> is_white_space(#[trigger] s[j]),
        n < s.len() ==> !is_white_space(s[s.len() - n - 1]),
    ensures
        trailing_ws(s) == n,
    decreases n,
{
    if n > 0 {
        let p = s.drop_last();
        assert forall|j: int| p.len() - (n - 1) <= j < p.len() implies is_white_space(#[trigger] p[j]) by {
            assert(p[j] == s[j]);
        }
        if n - 1 < p.len() {
            assert(p[p.len() - (n - 1) - 1] == s[s.len() - n - 1]);
        }
        lemma_trailing_ws_exact(p, n - 1);
    }
}

/// `s` without leading and trailing white space.
pub fn trim_chars(s: &Vec<char>) -> (r: Vec<char>)
    ensures
        r@ == trim(s@),
{
    let n = s.len();
    let mut lo: usize = 0;
    while lo < n && is_white_space_exec(s[lo])
        invariant
            lo <= n,
            n == s@.len(),
            forall|j: int| 0 <= j < lo ==> is_white_space(#[trigger] s@[j]),
        decreases n - lo,
    {
        lo = lo + 1;
    }
    proof {
        lemma_leading_ws_exact(s@, lo as int);
    }
    let mut hi: usize = n;
    while hi > lo && is_white_space_exec(s[hi - 1])
        invariant
            lo <= hi <= n,
            n == s@.len(),
            forall|j: int| hi <= j < n ==> is_white_space(#[trigger] s@[j]),
        decreases hi,
    {
        hi = hi - 1;
    }
    let ghost t = s@.skip(lo as int);
    proof {
        assert forall|j: int| t.len() - (n - hi) <= j < t.len() implies is_white_space(#[trigger] t[j]) by {
            assert(t[j] == s@[j + lo]);
        }
        if n - hi < t.len() {
            assert(t[t.len() - (n - hi) - 1] == s@[hi - 1]);
        }
        lemma_trailing_ws_exact(t, (n - hi) as int);
    }
    let mut out: Vec<char> = Vec::new();
    let mut k: usize = lo;
    while k < hi
        invariant
            lo <= k <= hi <= n,
            n == s@.len(),
            out@ == s@.subrange(lo as int, k as int),
        decreases hi - k,
    {
        out.push(s[k]);
        assert(out@ =~= s@.subrange(lo as int, k + 1));
        k = k + 1;
    }
    assert(out@ =~= trim(s@));
    out
}

/// `s` without leading and trailing white space.
pub fn trim_str(s: &str) -> (r: String)
    ensures
        r@ == trim(s@),
{
    let c = chars_of(s);
    let t = trim_chars(&c);
    string_of(&t)
}

/// The segments of `s` between line feeds, and the text after the last one.
pub open spec fn split_lines(s: Seq<char>) -> (Seq<Seq<char>>, Seq<char>)
    decreases s.len(),
{
    if s.len() == 0 {
        (seq![], seq![])
    } else {
        let (done, cur) = split_lines(s.drop_last());
        if s.last() == '\n' {
            (done.push(cur), seq![])
        } else {
            (done, cur.push(s.last()))
        }
    }
}

/// A line without the carriage return that ended it, if any.
pub open spec fn strip_cr(l: Seq<char>) -> Seq<char> {
    if l.len() > 0 && l.last() == '\r' {
        l.drop_last()
    } else {
        l
    }
}

/// The lines of `s`, as `str::lines` yields them: split at `\n` or `\r\n`,
/// the final line ending optional.
pub open spec fn lines_of(s: Seq<char>) -> Seq<Seq<char>> {
    let (done, cur) = split_lines(s);
    done.map_values(|l: Seq<char>| strip_cr(l)) + if cur.len() > 0 {
        seq![cur]
    } else {
        Seq::<Seq<char>>::empty()
    }
}

/// A line's characters without a final carriage return.
fn strip_cr_exec(l: &Vec<char>) -> (r: String)
    ensures
        r@ == strip_cr(l@),
{
    if l.len() > 0 && l[l.len() - 1] == '\r' {
        let mut v: Vec<char> = Vec::new();
        let mut k: usize = 0;
        while k + 1 < l.len()
            invariant
                k + 1 <= l@.len(),
                v@ == l@.take(k as int),
            decreases l.len() - k,
        {
            v.push(l[k]);
            assert(v@ =~= l@.take(k + 1));
            k = k + 1;
        }
        assert(v@ =~= l@.drop_last());
        string_of(&v)
    } else {
        string_of(l)
    }
}

/// The lines of `s`, as `str::lines` yields them.
pub fn lines(s: &str) -> (r: Vec<String>)
    ensures
        strings_view(r@) == lines_of(s@),
{
    let c = chars_of(s);
    let mut done: Vec<String> = Vec::new();
    let mut cur: Vec<char> = Vec::new();
    let mut i: usize = 0;
    while i < c.len()
        invariant
            i <= c@.len(),
            c@ == s@,
            strings_view(done@) == split_lines(c@.take(i as int)).0.map_values(|l: Seq<char>| strip_cr(l)),
            cur@ == split_lines(c@.take(i as int)).1,
        decreases c.len() - i,
    {
        assert(c@.take(i + 1).drop_last() =~= c@.take(i as int));
        let ch = c[i];
        if ch == '\n' {
            let line = strip_cr_exec(&cur);
            let ghost before = strings_view(done@);
            done.push(line);
            assert(strings_view(done@) =~= before.push(strip_cr(cur@)));
            assert(split_lines(c@.take(i as int)).0.push(cur@).map_values(|l: Seq<char>| strip_cr(l))
                =~= before.push(strip_cr(cur@)));
            cur = Vec::new();
        } else {
            cur.push(ch);
        }
        i = i + 1;
    }
    assert(c@.take(c@.len() as int) =~= c@);
    if cur.len() > 0 {
        let ghost before = strings_view(done@);
        let last = string_of(&cur);
        done.push(last);
        assert(strings_view(done@) =~= before.push(cur@));
    }
    assert(strings_view(done@) =~= lines_of(s@));
    done
}

// ── Lexicographic order ─────────────────────────────────────────────────────

/// Whether `a` comes strictly before `b` in lexicographic order of
/// characters (the order of `String`'s `Ord`: UTF-8 byte order agrees with
/// the order of code points).
pub open spec fn seq_lt(a: Seq<char>, b: Seq<char>) -> bool
    decreases a.len(),
{
    if b.len() == 0 {
        false
    } else if a.len() == 0 {
        true
    } else if a[0] != b[0] {
        a[0] < b[0]
    } else {
        seq_lt(a.drop_first(), b.drop_first())
    }
}

/// Lexicographic order is irreflexive.
pub proof fn lemma_seq_lt_irreflexive(a: Seq<char>)
    ensures
        !seq_lt(a, a),
    decreases a.len(),
{
    if a.len() > 0 {
        lemma_seq_lt_irreflexive(a.drop_first());
    }
}

/// Lexicographic order is asymmetric.
pub proof fn lemma_seq_lt_asymmetric(a: Seq<char>, b: Seq<char>)
    ensures
        seq_lt(a, b) ==> !seq_lt(b, a),
    decreases a.len(),
{
    if a.len() > 0 && b.len() > 0 && a[0] == b[0] {
        lemma_seq_lt_asymmetric(a.drop_first(), b.drop_first());
    }
}

/// Lexicographic order is transitive.
pub proof fn lemma_seq_lt_transitive(a: Seq<char>, b: Seq<char>, c: Seq<char>)
    ensures
        seq_lt(a, b) && seq_lt(b, c) ==> seq_lt(a, c),
    decreases a.len(),
{
    if a.len() > 0 && b.len() > 0 && c.len() > 0 {
        lemma_seq_lt_transitive(a.drop_first(), b.drop_first(), c.drop_first());
    }
}

/// Lexicographic order is total on distinct sequences.
pub proof fn lemma_seq_lt_total(a: Seq<char>, b: Seq<char>)
    ensures
        a != b ==> (seq_lt(a, b) || seq_lt(b, a)),
    decreases a.len(),
{
    if a.len() == 0 && b.len() == 0 {
        assert(a =~= b);
    } else if a.len() > 0 && b.len() > 0 && a[0] == b[0] {
        lemma_seq_lt_total(a.drop_first(), b.drop_first());
        if a.drop_first() == b.drop_first() {
            assert(a =~= seq![a[0]] + a.drop_first());
            assert(b =~= seq![b[0]] + b.drop_first());
        }
    }
}

/// Whether `a` comes strictly before `b` in lexicographic order.
pub fn str_lt(a: &str, b: &str) -> (r: bool)
    ensures
        r == seq_lt(a@, b@),
{
    let x = chars_of(a);
    let y = chars_of(b);
    let mut i: usize = 0;
    assert(a@.skip(0) =~= a@);
    assert(b@.skip(0) =~= b@);
    while i < x.len() && i < y.len() && x[i] == y[i]
        invariant
            i <= x@.len(),
            i <= y@.len(),
            x@ == a@,
            y@ == b@,
            seq_lt(a@, b@) == seq_lt(a@.skip(i as int), b@.skip(i as int)),
        decreases x.len() - i,
    {
        assert(a@.skip(i as int).drop_first() =~= a@.skip(i + 1));
        assert(b@.skip(i as int).drop_first() =~= b@.skip(i + 1));
        i = i + 1;
    }
    if i == y.len() {
        false
    } else if i == x.len() {
        true
    } else {
        x[i] < y[i]
    }
}

/// Where `x` goes among ascending strings: after the last one not after it.
pub open spec fn str_insert_pos(s: Seq<Seq<char>>, x: Seq<char>) -> int
    decreases s.len(),
{
    if s.len() == 0 {
        0
    } else if !seq_lt(x, s.last()) {
        s.len() as int
    } else {
        str_insert_pos(s.drop_last(), x)
    }
}

/// `s` sorted ascending by insertion, one element at a time.
pub open spec fn sort_strings(s: Seq<Seq<char>>) -> Seq<Seq<char>>
    decreases s.len(),
{
    if s.len() == 0 {
        s
    } else {
        let t = sort_strings(s.drop_last());
        t.insert(str_insert_pos(t, s.last()), s.last())
    }
}

/// Whether no string of `s` comes after a later one.
pub open spec fn strings_ascending(s: Seq<Seq<char>>) -> bool {
    forall|i: int, j: int| 0 <= i < j < s.len() ==> !seq_lt(#[trigger] s[j], #[trigger] s[i])
}

proof fn lemma_str_insert_pos(s: Seq<Seq<char>>, x: Seq<char>)
    ensures
        0 <= str_insert_pos(s, x) <= s.len(),
        str_insert_pos(s, x) > 0 ==> !seq_lt(x, s[str_insert_pos(s, x) - 1]),
        forall|j: int| str_insert_pos(s, x) <= j < s.len() ==> seq_lt(x, #[trigger] s[j]),
    decreases s.len(),
{
    if s.len() > 0 && seq_lt(x, s.last()) {
        lemma_str_insert_pos(s.drop_last(), x);
        assert forall|j: int| str_insert_pos(s, x) <= j < s.len() implies seq_lt(x, #[trigger] s[j]) by {
            if j < s.len() - 1 {
                assert(s[j] == s.drop_last()[j]);
            }
        }
    }
}

/// Sorting orders ascending and keeps exactly the same strings.
pub proof fn lemma_sort_strings(s: Seq<Seq<char>>)
    ensures
        strings_ascending(sort_strings(s)),
        sort_strings(s).to_multiset() == s.to_multiset(),
    decreases s.len(),
{
    broadcast use vstd::seq_lib::group_to_multiset_ensures, vstd::multiset::group_multiset_axioms;

    if s.len() > 0 {
        let p = s.drop_last();
        let t = sort_strings(p);
        let x = s.last();
        lemma_sort_strings(p);
        lemma_str_insert_pos(t, x);
        let k = str_insert_pos(t, x);
        let u = t.insert(k, x);
        assert forall|i: int, j: int| 0 <= i < j < u.len() implies !seq_lt(#[trigger] u[j], #[trigger] u[i]) by {
            if j < k {
                assert(u[i] == t[i] && u[j] == t[j]);
            } else if j == k {
                assert(u[j] == x);
                if i == k - 1 {
                    assert(u[i] == t[k - 1]);
                } else {
                    assert(!seq_lt(t[k - 1], t[i]));
                    assert(u[i] == t[i] && u[j] == x);
                    lemma_seq_lt_total(t[i], t[k - 1]);
                    lemma_seq_lt_transitive(x, t[i], t[k - 1]);
                }
            } else if i < k {
                assert(u[j] == t[j - 1]);
                if i < j - 1 {
                    assert(!seq_lt(t[j - 1], t[i]));
                }
            } else if i == k {
                assert(u[j] == t[j - 1]);
                lemma_seq_lt_asymmetric(x, t[j - 1]);
            } else {
                assert(u[i] == t[i - 1] && u[j] == t[j - 1]);
            }
        }
        assert(s =~= p.push(x));
    }
}

/// The strings sorted ascending.
pub fn sort_string_vec(v: Vec<String>) -> (r: Vec<String>)
    ensures
        strings_view(r@) == sort_strings(strings_view(v@)),
{
    let ghost sv = strings_view(v@);
    let mut out: Vec<String> = Vec::new();
    let mut i: usize = 0;
    while i < v.len()
        invariant
            i <= v@.len(),
            sv == strings_view(v@),
            strings_view(out@) == sort_strings(sv.take(i as int)),
        decreases v.len() - i,
    {
        assert(sv.take(i + 1).drop_last() =~= sv.take(i as int));
        assert(sv.take(i + 1).last() == v@[i as int]@);
        let x = v[i].clone();
        let ghost o = strings_view(out@);
        let mut pos = out.len();
        assert(o.take(pos as int) =~= o);
        while pos > 0 && str_lt(x.as_str(), out[pos - 1].as_str())
            invariant
                pos <= out@.len(),
                o == strings_view(out@),
                str_insert_pos(o, x@) == str_insert_pos(o.take(pos as int), x@),
            decreases pos,
        {
            assert(o.take(pos as int).drop_last() =~= o.take(pos - 1));
            pos = pos - 1;
        }
        assert(str_insert_pos(o.take(pos as int), x@) == pos);
        out.insert(pos, x);
        assert(strings_view(out@) =~= o.insert(pos as int, x@));
        i = i + 1;
    }
    assert(sv.take(sv.len() as int) =~= sv);
    out
}

// ── Token text ──────────────────────────────────────────────────────────────

/// The text built so far from a prefix of a token string, and whether white
/// space has been seen since its last word.
pub open spec fn simplify_state(s: Seq<char>) -> (Seq<char>, bool)
    decreases s.len(),
{
    if s.len() == 0 {
        (seq![], false)
    } else {
        let (o, gap) = simplify_state(s.drop_last());
        let c = s.last();
        if is_white_space(c) {
            (o, o.len() > 0)
        } else if gap {
            (o.push(' ').push(c), false)
        } else {
            (o.push(c), false)
        }
    }
}

/// The words of `s` (its maximal runs without white space) joined by single
/// spaces: `s.split_whitespace()` joined with `" "`.
pub open spec fn simplify_tokens(s: Seq<char>) -> Seq<char> {
    simplify_state(s).0
}

/// The words of `s` joined by single spaces.
pub fn simplify_tokens_exec(s: &str) -> (r: String)
    ensures
        r@ == simplify_tokens(s@),
{
    let c = chars_of(s);
    let mut out: Vec<char> = Vec::new();
    let mut gap = false;
    let mut i: usize = 0;
    while i < c.len()
        invariant
            i <= c@.len(),
            c@ == s@,
            (out@, gap) == simplify_state(c@.take(i as int)),
        decreases c.len() - i,
    {
        assert(c@.take(i + 1).drop_last() =~= c@.take(i as int));
        let ch = c[i];
        if is_white_space_exec(ch) {
            gap = out.len() > 0;
        } else {
            if gap {
                out.push(' ');
            }
            out.push(ch);
            gap = false;
        }
        i = i + 1;
    }
    assert(c@.take(c@.len() as int) =~= c@);
    string_of(&out)
}

} // verus!
