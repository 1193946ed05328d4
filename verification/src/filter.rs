//! The query predicate a list request runs with: exact-match
//! constraints on fields, plus OR-groups of alternatives (used for the
//! keyword search). Pattern conditions match as a substring of the
//! field, case-insensitively when the `i` option is set.

use vstd::prelude::*;

use crate::doc::{doc_get_v, value_eq, DocV, Document, Value, ValueV};

verus! {

/// The character's code with an ASCII upper-case letter folded to
/// lower case.
pub open spec fn lower_code(c: char) -> int {
    if 'A' as int <= c as int && c as int <= 'Z' as int {
        c as int + 32
    } else {
        c as int
    }
}

/// Character equality, folding ASCII case when `ci` is set.
pub open spec fn chars_eq_ci(a: char, b: char, ci: bool) -> bool {
    if ci {
        lower_code(a) == lower_code(b)
    } else {
        a == b
    }
}

/// Whether the pattern `p` occurs in `s` at position `pos`.
pub open spec fn matches_at(s: Seq<char>, p: Seq<char>, pos: int, ci: bool) -> bool {
    forall|j: int| 0 <= j < p.len() ==> chars_eq_ci(s[pos + j], #[trigger] p[j], ci)
}

/// Whether the pattern `p` occurs somewhere in `s`.
pub open spec fn str_contains(s: Seq<char>, p: Seq<char>, ci: bool) -> bool {
    exists|pos: int| 0 <= pos && pos + p.len() <= s.len() && #[trigger] matches_at(s, p, pos, ci)
}

fn lower32(c: char) -> (r: u32)
    ensures
        r == lower_code(c),
{
    let x = c as u32;
    if 65 <= x && x <= 90 {
        x + 32
    } else {
        x
    }
}

fn char_eq_ci(a: char, b: char, ci: bool) -> (r: bool)
    ensures
        r == chars_eq_ci(a, b, ci),
{
    if ci {
        lower32(a) == lower32(b)
    } else {
        a == b
    }
}

fn matches_at_exec(s: &str, p: &str, pos: usize, ci: bool) -> (r: bool)
    requires
        pos + p@.len() <= s@.len(),
        s@.len() <= usize::MAX,
    ensures
        r == matches_at(s@, p@, pos as int, ci),
{
    let plen = p.unicode_len();
    let mut j: usize = 0;
    while j < plen
        invariant
            plen == p@.len(),
            pos + plen <= s@.len(),
            s@.len() <= usize::MAX,
            j <= plen,
            forall|t: int| 0 <= t < j ==> chars_eq_ci(s@[pos + t], #[trigger] p@[t], ci),
        decreases plen - j,
    {
        let a = s.get_char(pos + j);
        let b = p.get_char(j);
        if !char_eq_ci(a, b, ci) {
            proof {
                assert(!chars_eq_ci(s@[pos + j], p@[j as int], ci));
            }
            return false;
        }
        j = j + 1;
    }
    true
}

fn str_contains_exec(s: &str, p: &str, ci: bool) -> (r: bool)
    ensures
        r == str_contains(s@, p@, ci),
{
    let slen = s.unicode_len();
    let plen = p.unicode_len();
    if plen > slen {
        proof {
            assert(!str_contains(s@, p@, ci));
        }
        return false;
    }
    let mut pos: usize = 0;
    while pos <= slen - plen
        invariant
            slen == s@.len(),
            plen == p@.len(),
            plen <= slen,
            pos <= slen - plen + 1,
            forall|q: int| 0 <= q < pos ==> !#[trigger] matches_at(s@, p@, q, ci),
        decreases slen - plen + 1 - pos,
    {
        if matches_at_exec(s, p, pos, ci) {
            return true;
        }
        pos = pos + 1;
    }
    proof {
        assert forall|q: int| 0 <= q && q + p@.len() <= s@.len() implies !matches_at(
            s@,
            p@,
            q,
            ci,
        ) by {
            assert(q < pos);
        }
    }
    false
}

/// Whether the character `c` occurs in `s`.
fn str_contains_char(s: &str, c: char) -> (r: bool)
    ensures
        r == s@.contains(c),
{
    let n = s.unicode_len();
    let mut i: usize = 0;
    while i < n
        invariant
            n == s@.len(),
            i <= n,
            forall|j: int| 0 <= j < i ==> s@[j] != c,
        decreases n - i,
    {
        if s.get_char(i) == c {
            return true;
        }
        i = i + 1;
    }
    proof {
        assert(forall|j: int| 0 <= j < s@.len() ==> s@[j] != c);
    }
    false
}

/// The mathematical model of one field condition.
pub enum CondV {
    Eq(ValueV),
    Regex { pattern: Seq<char>, options: Seq<char> },
}

/// One condition on a field: exact equality with a value, or a pattern
/// matched as a substring (`i` in the options makes it
/// case-insensitive).
#[derive(Debug)]
pub enum Cond {
    Eq(Value),
    Regex { pattern: String, options: String },
}

impl View for Cond {
    type V = CondV;

    open spec fn view(&self) -> CondV {
        match self {
            Cond::Eq(v) => CondV::Eq(v@),
            Cond::Regex { pattern, options } => CondV::Regex {
                pattern: pattern@,
                options: options@,
            },
        }
    }
}

/// The model of a sequence of keyed conditions.
pub open spec fn conds_v(s: Seq<(String, Cond)>) -> Seq<(Seq<char>, CondV)> {
    s.map_values(|e: (String, Cond)| (e.0@, e.1@))
}

/// The mathematical model of a filter.
pub struct FilterV {
    pub fields: Seq<(Seq<char>, CondV)>,
    pub or_groups: Seq<Seq<(Seq<char>, CondV)>>,
}

/// A query predicate: every field condition must hold, and within each
/// OR-group at least one alternative must hold. An empty filter
/// matches every document.
#[derive(Debug)]
pub struct Filter {
    pub fields: Vec<(String, Cond)>,
    pub or_groups: Vec<Vec<(String, Cond)>>,
}

impl View for Filter {
    type V = FilterV;

    open spec fn view(&self) -> FilterV {
        FilterV {
            fields: conds_v(self.fields@),
            or_groups: self.or_groups@.map_values(|g: Vec<(String, Cond)>| conds_v(g@)),
        }
    }
}

impl Filter {
    /// The filter that matches every document.
    pub fn empty() -> (r: Filter)
        ensures
            r@.fields.len() == 0,
            r@.or_groups.len() == 0,
    {
        Filter { fields: Vec::new(), or_groups: Vec::new() }
    }
}

/// Whether the value found under a key satisfies one condition.
pub open spec fn value_matches_v(fv: Option<ValueV>, c: CondV) -> bool {
    match c {
        CondV::Eq(v) => fv == Some(v),
        CondV::Regex { pattern, options } => match fv {
            Some(w) => match w {
                ValueV::Str(s) => str_contains(s, pattern, options.contains('i')),
                _ => false,
            },
            None => false,
        },
    }
}

/// Whether the document satisfies one keyed condition.
pub open spec fn cond_ok_v(d: DocV, e: (Seq<char>, CondV)) -> bool {
    value_matches_v(doc_get_v(d, e.0), e.1)
}

/// Whether the document satisfies at least one alternative of a group.
pub open spec fn group_matches_v(d: DocV, g: Seq<(Seq<char>, CondV)>) -> bool {
    exists|i: int| 0 <= i < g.len() && cond_ok_v(d, #[trigger] g[i])
}

/// Whether the document satisfies the whole filter.
pub open spec fn doc_matches_v(d: DocV, f: FilterV) -> bool {
    (forall|i: int| 0 <= i < f.fields.len() ==> cond_ok_v(d, #[trigger] f.fields[i])) && (forall|
        i: int,
    |
        0 <= i < f.or_groups.len() ==> group_matches_v(d, #[trigger] f.or_groups[i]))
}

/// An empty filter matches every document.
pub proof fn lemma_empty_filter_matches_all(d: DocV, f: FilterV)
    requires
        f.fields.len() == 0,
        f.or_groups.len() == 0,
    ensures
        doc_matches_v(d, f),
{
}

fn value_matches(d: &Document, k: &String, c: &Cond) -> (r: bool)
    ensures
        r == cond_ok_v(d@, (k@, c@)),
{
    let fv = d.get(k);
    match c {
        Cond::Eq(v) => match fv {
            Some(w) => value_eq(w, v),
            None => false,
        },
        Cond::Regex { pattern, options } => match fv {
            Some(w) => match w {
                Value::Str(s) => {
                    let ci = str_contains_char(options.as_str(), 'i');
                    str_contains_exec(s.as_str(), pattern.as_str(), ci)
                },
                _ => false,
            },
            None => false,
        },
    }
}

fn group_matches(d: &Document, g: &Vec<(String, Cond)>) -> (r: bool)
    ensures
        r == group_matches_v(d@, conds_v(g@)),
{
    let n = g.len();
    let mut i: usize = 0;
    while i < n
        invariant
            n == g.len(),
            i <= n,
            forall|j: int| 0 <= j < i ==> !cond_ok_v(d@, #[trigger] conds_v(g@)[j]),
        decreases n - i,
    {
        proof {
            assert(conds_v(g@)[i as int] == (g@[i as int].0@, g@[i as int].1@));
        }
        if value_matches(d, &g[i].0, &g[i].1) {
            return true;
        }
        i = i + 1;
    }
    false
}

/// Decides whether a document satisfies a filter.
pub fn doc_matches(d: &Document, f: &Filter) -> (r: bool)
    ensures
        r == doc_matches_v(d@, f@),
{
    let nf = f.fields.len();
    let mut i: usize = 0;
    while i < nf
        invariant
            nf == f.fields.len(),
            i <= nf,
            forall|j: int| 0 <= j < i ==> cond_ok_v(d@, #[trigger] f@.fields[j]),
        decreases nf - i,
    {
        proof {
            assert(f@.fields[i as int] == (f.fields@[i as int].0@, f.fields@[i as int].1@));
        }
        if !value_matches(d, &f.fields[i].0, &f.fields[i].1) {
            return false;
        }
        i = i + 1;
    }
    let ng = f.or_groups.len();
    let mut gi: usize = 0;
    while gi < ng
        invariant
            ng == f.or_groups.len(),
            gi <= ng,
            forall|j: int| 0 <= j < gi ==> group_matches_v(d@, #[trigger] f@.or_groups[j]),
            forall|j: int| 0 <= j < f@.fields.len() ==> cond_ok_v(d@, #[trigger] f@.fields[j]),
        decreases ng - gi,
    {
        proof {
            assert(f@.or_groups[gi as int] == conds_v(f.or_groups@[gi as int]@));
        }
        if !group_matches(d, &f.or_groups[gi]) {
            return false;
        }
        gi = gi + 1;
    }
    true
}

} // verus!
