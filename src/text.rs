//! Character-level helpers shared by the line grammars: whitespace-separated
//! tokens addressed by position, and small predicates on character runs.
use vstd::prelude::*;

verus! {

/// ASCII whitespace, the separator of every token in the log grammar.
pub open spec fn is_ws(c: char) -> bool {
    c == ' ' || c == '\t' || c == '\n' || c == '\r' || c == '\x0C'
}

pub open spec fn is_digit(c: char) -> bool {
    '0' <= c && c <= '9'
}

pub open spec fn is_upper(c: char) -> bool {
    'A' <= c && c <= 'Z'
}

/// First position at or after `i` that holds no whitespace (or the end).
pub open spec fn skip_ws(s: Seq<char>, i: int) -> int
    decreases s.len() - i,
{
    if 0 <= i < s.len() && is_ws(s[i]) {
        skip_ws(s, i + 1)
    } else {
        i
    }
}

/// First position at or after `i` that holds whitespace (or the end).
pub open spec fn skip_word(s: Seq<char>, i: int) -> int
    decreases s.len() - i,
{
    if 0 <= i < s.len() && !is_ws(s[i]) {
        skip_word(s, i + 1)
    } else {
        i
    }
}

/// End of `s` once trailing whitespace is cut off, searching down from `j`.
pub open spec fn trim_end_from(s: Seq<char>, j: int) -> int
    decreases j,
{
    if 0 < j <= s.len() && is_ws(s[j - 1]) {
        trim_end_from(s, j - 1)
    } else {
        j
    }
}

pub open spec fn trim_end(s: Seq<char>) -> int {
    trim_end_from(s, s.len() as int)
}

/// Start of the token that follows position `i`.
pub open spec fn tok_start(s: Seq<char>, i: int) -> int {
    skip_ws(s, i)
}

/// End (exclusive) of the token that follows position `i`.
pub open spec fn tok_end(s: Seq<char>, i: int) -> int {
    skip_word(s, skip_ws(s, i))
}

/// Whether a token follows position `i`.
pub open spec fn has_tok(s: Seq<char>, i: int) -> bool {
    tok_start(s, i) < s.len()
}

/// The token that follows position `i`.
pub open spec fn tok(s: Seq<char>, i: int) -> Seq<char> {
    s.subrange(tok_start(s, i), tok_end(s, i))
}

/// The text after position `i`, without its surrounding whitespace, with the
/// whitespace inside it kept as it stands.
pub open spec fn rest(s: Seq<char>, i: int) -> Seq<char> {
    if tok_start(s, i) < trim_end(s) {
        s.subrange(tok_start(s, i), trim_end(s))
    } else {
        Seq::empty()
    }
}

/// First position at or after `i` that holds `c` (or the end).
pub open spec fn index_of(t: Seq<char>, c: char, i: int) -> int
    decreases t.len() - i,
{
    if i < 0 || i >= t.len() {
        t.len() as int
    } else if t[i] == c {
        i
    } else {
        index_of(t, c, i + 1)
    }
}


/// Whitespace as `char::is_whitespace` counts it (Unicode `White_Space`),
/// the set that `str::trim` cuts off.
pub open spec fn is_white(c: char) -> bool {
    ('\t' <= c && c <= '\r') || c == ' ' || c == '\u{85}' || c == '\u{A0}' || c == '\u{1680}' || (
    '\u{2000}' <= c && c <= '\u{200A}') || c == '\u{2028}' || c == '\u{2029}' || c == '\u{202F}'
        || c == '\u{205F}' || c == '\u{3000}'
}

/// First position at or after `i` that holds no Unicode whitespace.
pub open spec fn white_start(s: Seq<char>, i: int) -> int
    decreases s.len() - i,
{
    if 0 <= i < s.len() && is_white(s[i]) {
        white_start(s, i + 1)
    } else {
        i
    }
}

/// End of `s` up to `j` once trailing Unicode whitespace is cut off.
pub open spec fn white_end_from(s: Seq<char>, j: int) -> int
    decreases j,
{
    if 0 < j <= s.len() && is_white(s[j - 1]) {
        white_end_from(s, j - 1)
    } else {
        j
    }
}

/// `s` without its surrounding Unicode whitespace.
pub open spec fn trim_white(s: Seq<char>) -> Seq<char> {
    if white_start(s, 0) < white_end_from(s, s.len() as int) {
        s.subrange(white_start(s, 0), white_end_from(s, s.len() as int))
    } else {
        Seq::empty()
    }
}

/// `acc`, then the tokens that follow position `i`, all joined by single
/// spaces.
pub open spec fn join_words(s: Seq<char>, i: int, acc: Seq<char>) -> Seq<char>
    decreases s.len() - i,
{
    if has_tok(s, i) && i < tok_end(s, i) <= s.len() {
        join_words(
            s,
            tok_end(s, i),
            if acc.len() == 0 {
                tok(s, i)
            } else {
                acc + seq![' '] + tok(s, i)
            },
        )
    } else {
        acc
    }
}

/// The tokens that follow position `i`, joined by single spaces.
pub open spec fn words(s: Seq<char>, i: int) -> Seq<char> {
    join_words(s, i, Seq::empty())
}

/// The number of times `c` occurs in `t`.
pub open spec fn count_char(t: Seq<char>, c: char) -> nat
    decreases t.len(),
{
    if t.len() == 0 {
        0
    } else {
        count_char(t.drop_last(), c) + if t.last() == c { 1nat } else { 0nat }
    }
}

/// The word `w` standing at position `a` of `s`, followed by whitespace or
/// the end, is the token that starts there.
pub proof fn lemma_word_at(s: Seq<char>, a: int, w: Seq<char>)
    requires
        0 <= a,
        a + w.len() <= s.len(),
        w.len() > 0,
        s.subrange(a, a + w.len()) == w,
        forall|k: int| 0 <= k < w.len() ==> !is_ws(#[trigger] w[k]),
        a + w.len() == s.len() || is_ws(s[a + w.len()]),
    ensures
        skip_ws(s, a) == a,
        skip_word(s, a) == a + w.len(),
{
    assert(s[a] == w[0]);
    lemma_skip_word_run(s, a, a + w.len(), w);
}

proof fn lemma_skip_word_run(s: Seq<char>, i: int, j: int, w: Seq<char>)
    requires
        0 <= j - w.len() <= i <= j <= s.len(),
        s.subrange(j - w.len(), j) == w,
        forall|k: int| 0 <= k < w.len() ==> !is_ws(#[trigger] w[k]),
        j == s.len() || is_ws(s[j]),
    ensures
        skip_word(s, i) == j,
    decreases j - i,
{
    if i < j {
        assert(s[i] == w[i - (j - w.len())]);
        lemma_skip_word_run(s, i + 1, j, w);
    }
}

/// After one whitespace character at `p`, the token is the word `w`.
pub proof fn lemma_token_after(s: Seq<char>, p: int, w: Seq<char>)
    requires
        0 <= p,
        p + 1 + w.len() <= s.len(),
        is_ws(s[p]),
        w.len() > 0,
        s.subrange(p + 1, p + 1 + w.len()) == w,
        forall|k: int| 0 <= k < w.len() ==> !is_ws(#[trigger] w[k]),
        p + 1 + w.len() == s.len() || is_ws(s[p + 1 + w.len()]),
    ensures
        has_tok(s, p),
        tok_start(s, p) == p + 1,
        tok_end(s, p) == p + 1 + w.len(),
        tok(s, p) == w,
{
    lemma_word_at(s, p + 1, w);
}

/// Whether `c` is ASCII whitespace.
pub fn is_ws_char(c: char) -> (r: bool)
    ensures
        r == is_ws(c),
{
    c == ' ' || c == '\t' || c == '\n' || c == '\r' || c == '\x0C'
}

/// The characters of `s`, in order.
pub fn chars_of(s: &str) -> (r: Vec<char>)
    ensures
        r@ == s@,
{
    let mut out: Vec<char> = Vec::new();
    for c in it: s.chars()
        invariant
            out@ == it.seq().subrange(0, it.index()),
            it.seq() == s@,
    {
        out.push(c);
    }
    out
}

/// Relies on `String`'s `FromIterator<&char>`: the string holds the
/// characters of `v[a..b]` in order.
#[verifier::external_body]
pub(crate) fn string_of(v: &Vec<char>, a: usize, b: usize) -> (r: String)
    requires
        a <= b <= v@.len(),
    ensures
        r@ == v@.subrange(a as int, b as int),
{
    String::from_iter(&v[a..b])
}

/// Position of the first non-whitespace character at or after `i`.
pub fn skip_ws_at(s: &Vec<char>, i: usize) -> (r: usize)
    requires
        i <= s@.len(),
    ensures
        r == skip_ws(s@, i as int),
        i <= r <= s@.len(),
        r < s@.len() ==> !is_ws(s@[r as int]),
{
    let mut j = i;
    while j < s.len() && is_ws_char(s[j])
        invariant
            i <= j <= s@.len(),
            skip_ws(s@, j as int) == skip_ws(s@, i as int),
        decreases s@.len() - j,
    {
        j = j + 1;
    }
    j
}

/// Position of the first whitespace character at or after `i`.
pub fn skip_word_at(s: &Vec<char>, i: usize) -> (r: usize)
    requires
        i <= s@.len(),
    ensures
        r == skip_word(s@, i as int),
        i <= r <= s@.len(),
        i < s@.len() && !is_ws(s@[i as int]) ==> i < r,
{
    let mut j = i;
    while j < s.len() && !is_ws_char(s[j])
        invariant
            i <= j <= s@.len(),
            skip_word(s@, j as int) == skip_word(s@, i as int),
        decreases s@.len() - j,
    {
        j = j + 1;
    }
    j
}

/// End of `s` once trailing whitespace is cut off.
pub fn trim_end_of(s: &Vec<char>) -> (r: usize)
    ensures
        r == trim_end(s@),
        r <= s@.len(),
{
    let mut j = s.len();
    while j > 0 && is_ws_char(s[j - 1])
        invariant
            j <= s@.len(),
            trim_end_from(s@, j as int) == trim_end(s@),
        decreases j,
    {
        j = j - 1;
    }
    j
}

/// Bounds `(start, end)` of the token that follows position `i`.
pub fn next_token(s: &Vec<char>, i: usize) -> (r: (usize, usize))
    requires
        i <= s@.len(),
    ensures
        r.0 == tok_start(s@, i as int),
        r.1 == tok_end(s@, i as int),
        i <= r.0 <= r.1 <= s@.len(),
        r.0 < s@.len() ==> r.0 < r.1,
{
    let a = skip_ws_at(s, i);
    let b = skip_word_at(s, a);
    (a, b)
}

/// The text after position `i`, trimmed at both ends.
pub fn rest_at(s: &Vec<char>, i: usize) -> (r: String)
    requires
        i <= s@.len(),
    ensures
        r@ == rest(s@, i as int),
{
    let a = skip_ws_at(s, i);
    let e = trim_end_of(s);
    if a < e {
        string_of(s, a, e)
    } else {
        string_of(s, 0, 0)
    }
}

/// Position of the first `c` in `t` at or after `i`.
pub fn index_of_at(t: &Vec<char>, c: char, i: usize) -> (r: usize)
    requires
        i <= t@.len(),
    ensures
        r == index_of(t@, c, i as int),
        i <= r <= t@.len(),
{
    let mut k = i;
    while k < t.len() && t[k] != c
        invariant
            i <= k <= t@.len(),
            index_of(t@, c, k as int) == index_of(t@, c, i as int),
        decreases t@.len() - k,
    {
        k = k + 1;
    }
    k
}


/// `s` without its surrounding Unicode whitespace, as `str::trim` cuts it.
pub fn trim_white_of(s: &Vec<char>) -> (r: Vec<char>)
    ensures
        r@ == trim_white(s@),
{
    let n = s.len();
    let mut a: usize = 0;
    while a < n && is_white_char(s[a])
        invariant
            a <= n == s@.len(),
            white_start(s@, a as int) == white_start(s@, 0),
        decreases n - a,
    {
        a = a + 1;
    }
    let mut e: usize = n;
    while e > 0 && is_white_char(s[e - 1])
        invariant
            e <= n == s@.len(),
            white_end_from(s@, e as int) == white_end_from(s@, n as int),
        decreases e,
    {
        e = e - 1;
    }
    let mut out: Vec<char> = Vec::new();
    if a < e {
        let mut k = a;
        while k < e
            invariant
                a <= k <= e <= n == s@.len(),
                out@ == s@.subrange(a as int, k as int),
            decreases e - k,
        {
            out.push(s[k]);
            k = k + 1;
        }
    }
    assert(out@ =~= trim_white(s@));
    out
}

pub fn is_white_char(c: char) -> (r: bool)
    ensures
        r == is_white(c),
{
    ('\t' <= c && c <= '\r') || c == ' ' || c == '\u{85}' || c == '\u{A0}' || c == '\u{1680}' || (
    '\u{2000}' <= c && c <= '\u{200A}') || c == '\u{2028}' || c == '\u{2029}' || c == '\u{202F}'
        || c == '\u{205F}' || c == '\u{3000}'
}

/// The tokens after position `i`, joined by single spaces.
pub fn words_at(s: &Vec<char>, i: usize) -> (r: String)
    requires
        i <= s@.len(),
    ensures
        r@ == words(s@, i as int),
{
    let n = s.len();
    let mut out: Vec<char> = Vec::new();
    let mut pos = i;
    loop
        invariant
            i <= pos <= n == s@.len(),
            join_words(s@, pos as int, out@) == words(s@, i as int),
        ensures
            out@ == words(s@, i as int),
        decreases n - pos,
    {
        let (a, b) = next_token(s, pos);
        if a >= n {
            assert(join_words(s@, pos as int, out@) == out@);
            break;
        }
        let ghost before = out@;
        if out.len() > 0 {
            out.push(' ');
        }
        let ghost base = out@;
        let mut k = a;
        while k < b
            invariant
                a <= k <= b <= n == s@.len(),
                out@ == base + s@.subrange(a as int, k as int),
            decreases b - k,
        {
            out.push(s[k]);
            k = k + 1;
        }
        assert(out@ =~= if before.len() == 0 {
            tok(s@, pos as int)
        } else {
            before + seq![' '] + tok(s@, pos as int)
        });
        pos = b;
    }
    assert(out@.subrange(0, out@.len() as int) =~= out@);
    string_of(&out, 0, out.len())
}

/// Whether `s[a..b]` is exactly `lit`.
pub fn run_is(s: &Vec<char>, a: usize, b: usize, lit: &[char]) -> (r: bool)
    requires
        a <= b <= s@.len(),
    ensures
        r == (s@.subrange(a as int, b as int) =~= lit@),
{
    if b - a != lit.len() {
        return false;
    }
    let mut k: usize = 0;
    while k < lit.len()
        invariant
            b - a == lit@.len(),
            a <= b <= s@.len(),
            k <= lit@.len(),
            forall|m: int| 0 <= m < k ==> s@[a + m] == lit@[m],
        decreases lit@.len() - k,
    {
        if s[a + k] != lit[k] {
            return false;
        }
        k = k + 1;
    }
    true
}

/// The number of times `c` occurs in `s[a..b]`.
pub fn count_in(s: &Vec<char>, a: usize, b: usize, c: char) -> (r: usize)
    requires
        a <= b <= s@.len(),
    ensures
        r == count_char(s@.subrange(a as int, b as int), c),
{
    let mut n: usize = 0;
    let mut k = a;
    while k < b
        invariant
            a <= k <= b <= s@.len(),
            n == count_char(s@.subrange(a as int, k as int), c),
            n <= k - a,
        decreases b - k,
    {
        proof {
            assert(s@.subrange(a as int, k + 1).drop_last() =~= s@.subrange(a as int, k as int));
        }
        if s[k] == c {
            n = n + 1;
        }
        k = k + 1;
    }
    n
}

} // verus!
