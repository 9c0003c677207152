//! Character classes, scanning primitives and the conversions between `&str`,
//! `Vec<char>` and `String` that the recognizers rest on.
use vstd::prelude::*;

verus! {

/// What `char::is_alphanumeric` says of a character (Unicode `Alphabetic` or `Numeric`).
pub uninterp spec fn alphanumeric(c: char) -> bool;

/// Relies on `char::is_alphanumeric`, asked only beyond ASCII; its answer depends on
/// the character alone.
#[verifier::external_body]
fn is_alphanumeric(c: char) -> (r: bool)
    ensures
        r == alphanumeric(c),
{
    c.is_alphanumeric()
}

/// Relies on `str::chars`: the characters of the text, in order.
#[verifier::external_body]
pub(crate) fn chars_of(s: &str) -> (r: Vec<char>)
    ensures
        r@ == s@,
{
    s.chars().collect()
}

/// Relies on `String: FromIterator<&char>`: a string made of exactly these characters.
#[verifier::external_body]
pub(crate) fn string_of(cs: &[char]) -> (r: String)
    ensures
        r@ == cs@,
{
    cs.iter().collect()
}

/// The classes of characters that the scanners run over.
#[derive(Clone, Copy, PartialEq, Eq, Debug)]
pub enum CharClass {
    /// Space, tab, carriage return or line feed.
    Ws,
    /// Space or tab.
    Sp,
    /// A character that may continue a bare identifier.
    IdentCont,
    /// Anything but a backtick.
    NotBacktick,
    /// Anything but a double quote.
    NotQuote,
    /// Anything but a carriage return or line feed.
    NotLineEnd,
}

pub open spec fn is_ws(c: char) -> bool {
    c == ' ' || c == '\t' || c == '\n' || c == '\r'
}

pub open spec fn is_sp(c: char) -> bool {
    c == ' ' || c == '\t'
}

/// An ASCII letter or digit.
pub open spec fn ascii_alnum(c: char) -> bool {
    let n = c as u32;
    (97 <= n <= 122) || (65 <= n <= 90) || (48 <= n <= 57)
}

/// A letter or digit: within ASCII the 62 letters and digits, beyond it what
/// `char::is_alphanumeric` says.
pub open spec fn word_char(c: char) -> bool {
    if (c as u32) < 128 {
        ascii_alnum(c)
    } else {
        alphanumeric(c)
    }
}

pub open spec fn ident_start(c: char) -> bool {
    word_char(c) || c == '_'
}

pub open spec fn ident_cont(c: char) -> bool {
    word_char(c) || c == '_' || c == '-'
}

fn is_word_char(c: char) -> (r: bool)
    ensures
        r == word_char(c),
{
    let n = c as u32;
    if n < 128 {
        (97 <= n && n <= 122) || (65 <= n && n <= 90) || (48 <= n && n <= 57)
    } else {
        is_alphanumeric(c)
    }
}

pub open spec fn in_class(k: CharClass, c: char) -> bool {
    match k {
        CharClass::Ws => is_ws(c),
        CharClass::Sp => is_sp(c),
        CharClass::IdentCont => ident_cont(c),
        CharClass::NotBacktick => c != '`',
        CharClass::NotQuote => c != '"',
        CharClass::NotLineEnd => c != '\n' && c != '\r',
    }
}

/// Number of leading characters of `s` in class `k`.
pub open spec fn run(s: Seq<char>, k: CharClass) -> nat
    decreases s.len(),
{
    if s.len() > 0 && in_class(k, s[0]) {
        1 + run(s.drop_first(), k)
    } else {
        0
    }
}

pub proof fn lemma_run_bound(s: Seq<char>, k: CharClass)
    ensures
        run(s, k) <= s.len(),
    decreases s.len(),
{
    if s.len() > 0 && in_class(k, s[0]) {
        lemma_run_bound(s.drop_first(), k);
    }
}

/// `s` without its leading whitespace (line ends included).
pub open spec fn skip_ws(s: Seq<char>) -> Seq<char> {
    s.skip(run(s, CharClass::Ws) as int)
}

/// `s` without its leading spaces and tabs.
pub open spec fn skip_sp(s: Seq<char>) -> Seq<char> {
    s.skip(run(s, CharClass::Sp) as int)
}

pub fn char_in(k: CharClass, c: char) -> (r: bool)
    ensures
        r == in_class(k, c),
{
    match k {
        CharClass::Ws => c == ' ' || c == '\t' || c == '\n' || c == '\r',
        CharClass::Sp => c == ' ' || c == '\t',
        CharClass::IdentCont => is_word_char(c) || c == '_' || c == '-',
        CharClass::NotBacktick => c != '`',
        CharClass::NotQuote => c != '"',
        CharClass::NotLineEnd => c != '\n' && c != '\r',
    }
}

pub proof fn lemma_skip_step(s: Seq<char>, i: int)
    requires
        0 <= i < s.len(),
    ensures
        s.skip(i).len() > 0,
        s.skip(i)[0] == s[i],
        s.skip(i).drop_first() == s.skip(i + 1),
{
    assert(s.skip(i).drop_first() =~= s.skip(i + 1));
}

/// Position just past the run of class `k` that starts at `i`.
pub fn scan(v: &Vec<char>, i: usize, k: CharClass) -> (j: usize)
    requires
        i <= v.len(),
    ensures
        j == i + run(v@.skip(i as int), k),
        j <= v.len(),
{
    let mut j = i;
    while j < v.len() && char_in(k, v[j])
        invariant
            i <= j <= v.len(),
            run(v@.skip(i as int), k) == (j - i) + run(v@.skip(j as int), k),
        decreases v.len() - j,
    {
        proof {
            lemma_skip_step(v@, j as int);
        }
        j = j + 1;
    }
    proof {
        if j < v.len() {
            lemma_skip_step(v@, j as int);
        }
    }
    j
}

/// `s` begins with `p`.
pub open spec fn starts_with(s: Seq<char>, p: Seq<char>) -> bool {
    p.len() <= s.len() && s.take(p.len() as int) == p
}

/// Does the text at `i` begin with `kw`?
pub fn has_prefix(v: &Vec<char>, i: usize, kw: &Vec<char>) -> (r: bool)
    requires
        i <= v.len(),
    ensures
        r == starts_with(v@.skip(i as int), kw@),
{
    if kw.len() > v.len() - i {
        return false;
    }
    let mut k: usize = 0;
    while k < kw.len()
        invariant
            i + kw.len() <= v.len(),
            k <= kw.len(),
            forall|m: int| 0 <= m < k ==> v@[i + m] == kw@[m],
        decreases kw.len() - k,
    {
        if v[i + k] != kw[k] {
            proof {
                assert(v@.skip(i as int).take(kw.len() as int)[k as int] != kw@[k as int]);
            }
            return false;
        }
        k = k + 1;
    }
    assert(v@.skip(i as int).take(kw.len() as int) =~= kw@);
    true
}

/// A bare identifier at the very start of `s`: a letter, digit or underscore, then
/// letters, digits, underscores and dashes. Gives the identifier and what follows it.
pub open spec fn token(s: Seq<char>) -> Option<(Seq<char>, Seq<char>)> {
    if s.len() > 0 && ident_start(s[0]) {
        let n = 1 + run(s.drop_first(), CharClass::IdentCont) as int;
        Some((s.take(n), s.skip(n)))
    } else {
        None
    }
}

/// A class name after optional whitespace: a bare identifier, or any non-empty text
/// between backticks (given without them). Whitespace after it is skipped too.
pub open spec fn class_name_spec(s: Seq<char>) -> Option<(Seq<char>, Seq<char>)> {
    let t = skip_ws(s);
    if t.len() > 0 && t[0] == '`' {
        let n = run(t.drop_first(), CharClass::NotBacktick) as int;
        if n > 0 && n + 1 < t.len() {
            Some((t.subrange(1, n + 1), skip_ws(t.skip(n + 2))))
        } else {
            None
        }
    } else {
        match token(t) {
            Some((name, r)) => Some((name, skip_ws(r))),
            None => None,
        }
    }
}

/// How an exec scanner's result `(value, position)` at position `i` of `v` reads
/// against the spec-level result on the text from `i` on.
pub open spec fn scanned<T: View>(
    v: Seq<char>,
    i: int,
    r: Option<(T, usize)>,
    s: Option<(T::V, Seq<char>)>,
) -> bool {
    match r {
        Some((t, j)) => i <= j <= v.len() && s == Some((t@, v.skip(j as int))),
        None => s.is_none(),
    }
}

/// The characters of `v` from `a` to `b` as a string.
pub fn substring(v: &Vec<char>, a: usize, b: usize) -> (r: String)
    requires
        a <= b <= v.len(),
    ensures
        r@ == v@.subrange(a as int, b as int),
{
    let r = string_of(vstd::slice::slice_subrange(v.as_slice(), a, b));
    proof {
        assert(v@.subrange(0, v.len() as int) =~= v@);
    }
    r
}

pub proof fn lemma_skip_skip(s: Seq<char>, a: int, b: int)
    requires
        0 <= a,
        0 <= b,
        a + b <= s.len(),
    ensures
        s.skip(a).skip(b) == s.skip(a + b),
{
    assert(s.skip(a).skip(b) =~= s.skip(a + b));
}

/// `s` without a surrounding pair of backticks, where it has one.
pub open spec fn unquoted(s: Seq<char>) -> Seq<char> {
    if s.len() > 1 && s[0] == '`' && s.last() == '`' {
        s.subrange(1, s.len() - 1)
    } else {
        s
    }
}

/// Removes a surrounding pair of backticks from an identifier.
pub fn strip_backticks(s: &str) -> (r: String)
    ensures
        r@ == unquoted(s@),
{
    let v = chars_of(s);
    let n = v.len();
    if n > 1 && v[0] == '`' && v[n - 1] == '`' {
        substring(&v, 1, n - 1)
    } else {
        substring(&v, 0, n)
    }
}

/// Scans a bare identifier at `i`; gives its end.
pub fn token_at(v: &Vec<char>, i: usize) -> (r: Option<usize>)
    requires
        i <= v.len(),
    ensures
        match r {
            Some(j) => i < j <= v.len() && token(v@.skip(i as int)) == Some(
                (v@.subrange(i as int, j as int), v@.skip(j as int)),
            ),
            None => token(v@.skip(i as int)).is_none(),
        },
{
    if i < v.len() && (is_word_char(v[i]) || v[i] == '_') {
        proof {
            lemma_skip_step(v@, i as int);
        }
        let j = scan(v, i + 1, CharClass::IdentCont);
        proof {
            let s = v@.skip(i as int);
            let n = 1 + run(s.drop_first(), CharClass::IdentCont) as int;
            assert(s.take(n) =~= v@.subrange(i as int, j as int));
            lemma_skip_skip(v@, i as int, n);
        }
        Some(j)
    } else {
        proof {
            if i < v.len() {
                lemma_skip_step(v@, i as int);
            }
        }
        None
    }
}

/// Position after the whitespace that starts at `i`.
pub fn skip_ws_at(v: &Vec<char>, i: usize) -> (j: usize)
    requires
        i <= v.len(),
    ensures
        i <= j <= v.len(),
        v@.skip(j as int) == skip_ws(v@.skip(i as int)),
{
    let j = scan(v, i, CharClass::Ws);
    proof {
        lemma_skip_skip(v@, i as int, j - i);
    }
    j
}

/// Position after the spaces and tabs that start at `i`.
pub fn skip_sp_at(v: &Vec<char>, i: usize) -> (j: usize)
    requires
        i <= v.len(),
    ensures
        i <= j <= v.len(),
        v@.skip(j as int) == skip_sp(v@.skip(i as int)),
{
    let j = scan(v, i, CharClass::Sp);
    proof {
        lemma_skip_skip(v@, i as int, j - i);
    }
    j
}

/// Scans a class name at `i` (see `class_name_spec`).
pub fn class_name_at(v: &Vec<char>, i: usize) -> (r: Option<(String, usize)>)
    requires
        i <= v.len(),
    ensures
        scanned(v@, i as int, r, class_name_spec(v@.skip(i as int))),
{
    let t = skip_ws_at(v, i);
    if t < v.len() && v[t] == '`' {
        proof {
            lemma_skip_step(v@, t as int);
        }
        let e = scan(v, t + 1, CharClass::NotBacktick);
        if e > t + 1 && e < v.len() {
            let name = substring(v, t + 1, e);
            let j = skip_ws_at(v, e + 1);
            proof {
                let u = v@.skip(t as int);
                let n = run(u.drop_first(), CharClass::NotBacktick) as int;
                assert(n == e - t - 1);
                assert(u.subrange(1, n + 1) =~= v@.subrange(t + 1, e as int));
                lemma_skip_skip(v@, t as int, n + 2);
            }
            Some((name, j))
        } else {
            None
        }
    } else {
        proof {
            if t < v.len() {
                lemma_skip_step(v@, t as int);
            }
        }
        match token_at(v, t) {
            Some(e) => {
                let name = substring(v, t, e);
                let j = skip_ws_at(v, e);
                Some((name, j))
            },
            None => None,
        }
    }
}

} // verus!
