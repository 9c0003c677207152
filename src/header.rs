//! The optional structured-data header: a block between two `---` lines at the
//! very start of the text, read as YAML and carried through opaquely.
use vstd::prelude::*;
use crate::text::{has_prefix, lemma_skip_skip, starts_with};

verus! {

/// `serde_yml::Value`: the header as read, carried through opaquely.
#[verifier::external_type_specification]
#[verifier::external_body]
pub struct ExYamlValue(serde_yml::Value);

/// `serde_yml::Error`: why header content is not YAML, handed on to the caller.
#[verifier::external_type_specification]
#[verifier::external_body]
pub struct ExYamlError(serde_yml::Error);

/// Whether `serde_yml` reads the text as a well-formed YAML value.
pub uninterp spec fn yaml_accepts(text: Seq<char>) -> bool;

/// Relies on `serde_yml::from_str::<Value>`: it succeeds or fails on the text alone.
#[verifier::external_body]
pub(crate) fn read_yaml(text: &str) -> (r: Result<serde_yml::Value, serde_yml::Error>)
    ensures
        r.is_ok() == yaml_accepts(text@),
{
    serde_yml::from_str::<serde_yml::Value>(text)
}

/// Relies on `serde_yml::to_string` for a `Value`: YAML text for it, or an error.
#[verifier::external_body]
pub(crate) fn write_yaml(value: &serde_yml::Value) -> (r: Result<String, serde_yml::Error>) {
    serde_yml::to_string(value)
}

pub open spec fn dashes() -> Seq<char> {
    seq!['-', '-', '-']
}

/// Length of a line end at the start of `s`: `\n`, `\r\n`, or none.
pub open spec fn line_end_len(s: Seq<char>) -> int {
    if starts_with(s, seq!['\n']) {
        1
    } else if starts_with(s, seq!['\r', '\n']) {
        2
    } else {
        0
    }
}

/// Is there a line holding only `---` at `p`, in a header whose content starts at `c0`?
pub open spec fn closing_at(s: Seq<char>, c0: int, p: int) -> bool {
    &&& (p == c0 || (p >= 1 && s[p - 1] == '\n'))
    &&& starts_with(s.skip(p), dashes())
    &&& (p + 3 == s.len() || line_end_len(s.skip(p + 3)) > 0)
}

/// The first closing line at `p` or later, or -1.
pub open spec fn find_closing(s: Seq<char>, c0: int, p: int) -> int
    decreases s.len() - p,
{
    if p < c0 || p >= s.len() {
        -1
    } else if closing_at(s, c0, p) {
        p
    } else {
        find_closing(s, c0, p + 1)
    }
}

/// Splits off the header: its content and the text after its closing line. Without
/// an opening `---` line, or without a closing one, there is no header and the text
/// stays whole.
#[verifier::opaque]
pub open spec fn split_header(s: Seq<char>) -> (Option<Seq<char>>, Seq<char>) {
    let open = line_end_len(s.skip(3));
    if starts_with(s, dashes()) && open > 0 {
        let c0 = 3 + open;
        let p = find_closing(s, c0, c0);
        if p >= 0 {
            (Some(s.subrange(c0, p)), s.skip(p + 3 + line_end_len(s.skip(p + 3))))
        } else {
            (None, s)
        }
    } else {
        (None, s)
    }
}

fn line_end_at(v: &Vec<char>, i: usize) -> (n: usize)
    requires
        i <= v.len(),
    ensures
        n as int == line_end_len(v@.skip(i as int)),
        i + n <= v.len(),
{
    let nl = vec!['\n'];
    let crnl = vec!['\r', '\n'];
    assert(nl@ =~= seq!['\n']);
    assert(crnl@ =~= seq!['\r', '\n']);
    if has_prefix(v, i, &nl) {
        1
    } else if has_prefix(v, i, &crnl) {
        2
    } else {
        0
    }
}

/// The header split at the character level: the content's range and where the rest
/// begins.
pub(crate) fn split_header_at(v: &Vec<char>) -> (r: (Option<(usize, usize)>, usize))
    ensures
        r.1 <= v.len(),
        v@.skip(r.1 as int) == split_header(v@).1,
        match r.0 {
            Some((a, b)) => a <= b <= v.len() && split_header(v@).0 == Some(v@.subrange(a as int, b as int)),
            None => split_header(v@).0.is_none(),
        },
{
    reveal(split_header);
    proof {
        assert(v@.skip(0) =~= v@);
    }
    let dash3 = vec!['-', '-', '-'];
    assert(dash3@ =~= dashes());
    if !has_prefix(v, 0, &dash3) {
        return (None, 0);
    }
    let open = line_end_at(v, 3);
    if open == 0 {
        return (None, 0);
    }
    let c0 = 3 + open;
    let mut p = c0;
    while p < v.len()
        invariant
            c0 <= p <= v.len(),
            c0 == 3 + line_end_len(v@.skip(3)),
            c0 > 3,
            dash3@ == dashes(),
            starts_with(v@, dashes()),
            find_closing(v@, c0 as int, c0 as int) == find_closing(v@, c0 as int, p as int),
        decreases v.len() - p,
    {
        let at_line_start = p == c0 || v[p - 1] == '\n';
        if at_line_start && has_prefix(v, p, &dash3) {
            proof {
                lemma_skip_skip(v@, p as int, 3);
            }
            let e = line_end_at(v, p + 3);
            if p + 3 == v.len() || e > 0 {
                proof {
                    reveal(split_header);
                    assert(closing_at(v@, c0 as int, p as int));
                    assert(find_closing(v@, c0 as int, p as int) == p as int);
                    lemma_skip_skip(v@, p as int, 3 + e);
                }
                return (Some((c0, p)), p + 3 + e);
            }
        }
        p = p + 1;
    }
    (None, 0)
}

} // verus!
