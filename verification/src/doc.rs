//! The generic key-value document: what a typed record is mapped to
//! before it is stored, and what query results come back as. Keys keep
//! their insertion order; a lookup finds the first entry with the key.

use vstd::prelude::*;

use crate::oid::ObjectId;

verus! {

/// The mathematical model of a stored value.
pub enum ValueV {
    Null,
    Str(Seq<char>),
    Oid(Seq<u8>),
}

/// A value a document field can hold: nothing, a string, or a record
/// identifier.
#[derive(Debug)]
pub enum Value {
    Null,
    Str(String),
    Oid(ObjectId),
}

impl View for Value {
    type V = ValueV;

    open spec fn view(&self) -> ValueV {
        match self {
            Value::Null => ValueV::Null,
            Value::Str(s) => ValueV::Str(s@),
            Value::Oid(o) => ValueV::Oid(o@),
        }
    }
}

impl Clone for Value {
    fn clone(&self) -> (r: Self)
        ensures
            r@ == self@,
    {
        match self {
            Value::Null => Value::Null,
            Value::Str(s) => Value::Str(s.clone()),
            Value::Oid(o) => Value::Oid(o.clone()),
        }
    }
}

/// The mathematical model of a document: its entries in order.
pub type DocV = Seq<(Seq<char>, ValueV)>;

/// A generic key-value document: an ordered list of fields.
#[derive(Debug)]
pub struct Document {
    pub entries: Vec<(String, Value)>,
}

impl View for Document {
    type V = DocV;

    open spec fn view(&self) -> DocV {
        self.entries@.map_values(|e: (String, Value)| (e.0@, e.1@))
    }
}

impl Clone for Document {
    fn clone(&self) -> (r: Self)
        ensures
            r@ == self@,
    {
        let mut entries: Vec<(String, Value)> = Vec::new();
        let n = self.entries.len();
        let mut i: usize = 0;
        while i < n
            invariant
                n == self.entries.len(),
                i <= n,
                entries.len() == i,
                forall|j: int|
                    0 <= j < i ==> (#[trigger] entries@[j]).0@ == self.entries@[j].0@
                        && entries@[j].1@ == self.entries@[j].1@,
            decreases n - i,
        {
            let k = self.entries[i].0.clone();
            let v = self.entries[i].1.clone();
            entries.push((k, v));
            i = i + 1;
        }
        let r = Document { entries };
        proof {
            assert(r@ =~= self@);
        }
        r
    }
}

/// The first value stored under key `k`, if any.
pub open spec fn doc_get_v(d: DocV, k: Seq<char>) -> Option<ValueV>
    decreases d.len(),
{
    if d.len() == 0 {
        None
    } else if d[0].0 == k {
        Some(d[0].1)
    } else {
        doc_get_v(d.drop_first(), k)
    }
}

/// Whether the document has an entry under key `k`.
pub open spec fn doc_has_key_v(d: DocV, k: Seq<char>) -> bool {
    doc_get_v(d, k) is Some
}

/// A lookup skips over a prefix that does not hold the key.
pub proof fn lemma_doc_get_skip(d: DocV, k: Seq<char>, i: int)
    requires
        0 <= i <= d.len(),
        forall|j: int| 0 <= j < i ==> (#[trigger] d[j]).0 != k,
    ensures
        doc_get_v(d, k) == doc_get_v(d.skip(i), k),
    decreases i,
{
    if i > 0 {
        assert(d.len() > 0);
        assert(d[0].0 != k);
        lemma_doc_get_skip(d.drop_first(), k, i - 1);
        assert(d.drop_first().skip(i - 1) =~= d.skip(i));
    } else {
        assert(d.skip(0) =~= d);
    }
}

impl Document {
    /// An empty document.
    pub fn new() -> (r: Document)
        ensures
            r@ == Seq::<(Seq<char>, ValueV)>::empty(),
    {
        let r = Document { entries: Vec::new() };
        proof {
            assert(r@ =~= Seq::<(Seq<char>, ValueV)>::empty());
        }
        r
    }

    /// The first value stored under key `k`, if any.
    pub fn get<'a>(&'a self, k: &String) -> (r: Option<&'a Value>)
        ensures
            match r {
                Some(v) => doc_get_v(self@, k@) == Some(v@),
                None => doc_get_v(self@, k@) is None,
            },
    {
        let n = self.entries.len();
        let mut i: usize = 0;
        while i < n
            invariant
                n == self.entries.len(),
                i <= n,
                forall|j: int| 0 <= j < i ==> (#[trigger] self@[j]).0 != k@,
            decreases n - i,
        {
            if self.entries[i].0 == *k {
                proof {
                    lemma_doc_get_skip(self@, k@, i as int);
                    assert(self@.skip(i as int)[0] == self@[i as int]);
                }
                return Some(&self.entries[i].1);
            }
            proof {
                assert(self@[i as int].0 == self.entries@[i as int].0@);
            }
            i = i + 1;
        }
        proof {
            lemma_doc_get_skip(self@, k@, n as int);
            assert(self@.skip(n as int) =~= Seq::<(Seq<char>, ValueV)>::empty());
        }
        None
    }

    /// Appends a field. The caller is responsible for key uniqueness
    /// where it matters.
    pub fn push(&mut self, k: String, v: Value)
        ensures
            final(self)@ == old(self)@.push((k@, v@)),
    {
        self.entries.push((k, v));
        proof {
            assert(final(self)@ =~= old(self)@.push((k@, v@)));
        }
    }
}

/// Decides whether two values are equal.
pub fn value_eq(a: &Value, b: &Value) -> (r: bool)
    ensures
        r == (a@ == b@),
{
    match a {
        Value::Null => match b {
            Value::Null => true,
            _ => false,
        },
        Value::Str(x) => match b {
            Value::Str(y) => *x == *y,
            _ => false,
        },
        Value::Oid(x) => match b {
            Value::Oid(y) => x.equals(y),
            _ => false,
        },
    }
}

/// The document with the value under `k` replaced at its first
/// occurrence, or appended if the key is absent.
pub open spec fn doc_set_v(d: DocV, k: Seq<char>, v: ValueV) -> DocV
    decreases d.len(),
{
    if d.len() == 0 {
        seq![(k, v)]
    } else if d[0].0 == k {
        seq![(k, v)] + d.drop_first()
    } else {
        seq![d[0]] + doc_set_v(d.drop_first(), k, v)
    }
}

/// Setting a key then reading it gives the new value.
pub proof fn lemma_get_set_same(d: DocV, k: Seq<char>, v: ValueV)
    ensures
        doc_get_v(doc_set_v(d, k, v), k) == Some(v),
    decreases d.len(),
{
    if d.len() == 0 {
    } else if d[0].0 == k {
        assert(doc_set_v(d, k, v)[0] == (k, v));
    } else {
        lemma_get_set_same(d.drop_first(), k, v);
        assert(doc_set_v(d, k, v)[0] == d[0]);
        assert(doc_set_v(d, k, v).drop_first() =~= doc_set_v(d.drop_first(), k, v));
    }
}

/// Setting a key leaves every other key's value unchanged.
pub proof fn lemma_get_set_other(d: DocV, k: Seq<char>, v: ValueV, k2: Seq<char>)
    requires
        k2 != k,
    ensures
        doc_get_v(doc_set_v(d, k, v), k2) == doc_get_v(d, k2),
    decreases d.len(),
{
    let s = doc_set_v(d, k, v);
    if d.len() == 0 {
        assert(s.len() == 1);
        assert(s[0] == (k, v));
        assert(s[0].0 == k);
        assert(s.drop_first() =~= Seq::<(Seq<char>, ValueV)>::empty());
        assert(doc_get_v(s, k2) == doc_get_v(s.drop_first(), k2));
        assert(doc_get_v(s.drop_first(), k2) is None);
    } else if d[0].0 == k {
        assert(s[0] == (k, v));
        assert(s[0].0 == k);
        assert(s.drop_first() =~= d.drop_first());
        assert(doc_get_v(s, k2) == doc_get_v(d.drop_first(), k2));
        assert(doc_get_v(d, k2) == doc_get_v(d.drop_first(), k2));
    } else {
        lemma_get_set_other(d.drop_first(), k, v, k2);
        assert(s[0] == d[0]);
        assert(s.drop_first() =~= doc_set_v(d.drop_first(), k, v));
        if d[0].0 == k2 {
            assert(doc_get_v(s, k2) == Some(s[0].1));
            assert(doc_get_v(d, k2) == Some(d[0].1));
        } else {
            assert(doc_get_v(s, k2) == doc_get_v(s.drop_first(), k2));
            assert(doc_get_v(d, k2) == doc_get_v(d.drop_first(), k2));
        }
    }
}

/// Replaces the first occurrence of `k`, or appends the field.
pub fn doc_set(d: &mut Document, k: String, v: Value)
    ensures
        final(d)@ == doc_set_v(old(d)@, k@, v@),
{
    let n = d.entries.len();
    let mut i: usize = 0;
    while i < n
        invariant
            n == d.entries.len(),
            *d == *old(d),
            i <= n,
            forall|j: int| 0 <= j < i ==> (#[trigger] d@[j]).0 != k@,
        decreases n - i,
    {
        if d.entries[i].0 == *(&k) {
            proof {
                lemma_doc_set_at(d@, k@, v@, i as int);
            }
            d.entries[i] = (k, v);
            proof {
                assert(final(d)@ =~= old(d)@.update(i as int, (k@, v@)));
            }
            return ;
        }
        proof {
            assert(d@[i as int].0 == d.entries@[i as int].0@);
        }
        i = i + 1;
    }
    proof {
        lemma_doc_set_absent(d@, k@, v@, n as int);
    }
    d.entries.push((k, v));
    proof {
        assert(final(d)@ =~= old(d)@.push((k@, v@)));
    }
}

/// Where the first occurrence of `k` is at index `i`, setting `k`
/// updates that index in place.
proof fn lemma_doc_set_at(d: DocV, k: Seq<char>, v: ValueV, i: int)
    requires
        0 <= i < d.len(),
        d[i].0 == k,
        forall|j: int| 0 <= j < i ==> (#[trigger] d[j]).0 != k,
    ensures
        doc_set_v(d, k, v) == d.update(i, (k, v)),
    decreases i,
{
    if i == 0 {
        assert(doc_set_v(d, k, v) =~= d.update(0, (k, v)));
    } else {
        lemma_doc_set_at(d.drop_first(), k, v, i - 1);
        assert(doc_set_v(d, k, v) =~= d.update(i, (k, v)));
    }
}

/// Where `k` is absent, setting it appends the field.
proof fn lemma_doc_set_absent(d: DocV, k: Seq<char>, v: ValueV, i: int)
    requires
        i == d.len(),
        forall|j: int| 0 <= j < i ==> (#[trigger] d[j]).0 != k,
    ensures
        doc_set_v(d, k, v) == d.push((k, v)),
    decreases d.len(),
{
    if d.len() == 0 {
        assert(doc_set_v(d, k, v) =~= d.push((k, v)));
    } else {
        lemma_doc_set_absent(d.drop_first(), k, v, i - 1);
        assert(doc_set_v(d, k, v) =~= d.push((k, v)));
    }
}

/// The document without its null-valued fields, order kept.
pub open spec fn strip_nulls_v(d: DocV) -> DocV
    decreases d.len(),
{
    if d.len() == 0 {
        Seq::<(Seq<char>, ValueV)>::empty()
    } else if d[0].1 is Null {
        strip_nulls_v(d.drop_first())
    } else {
        seq![d[0]] + strip_nulls_v(d.drop_first())
    }
}

/// Removes every null-valued field, so that absent optional fields are
/// never written into a stored document.
pub fn strip_nulls(d: Document) -> (r: Document)
    ensures
        r@ == strip_nulls_v(d@),
{
    let mut entries: Vec<(String, Value)> = Vec::new();
    let n = d.entries.len();
    let mut i: usize = 0;
    proof {
        assert(d@.skip(0) =~= d@);
        assert((Document { entries })@ =~= Seq::<(Seq<char>, ValueV)>::empty());
        assert(Seq::<(Seq<char>, ValueV)>::empty() + strip_nulls_v(d@) =~= strip_nulls_v(d@));
    }
    while i < n
        invariant
            n == d.entries.len(),
            i <= n,
            strip_nulls_v(d@) == (Document { entries })@ + strip_nulls_v(d@.skip(i as int)),
        decreases n - i,
    {
        proof {
            assert(d@.skip(i as int)[0] == d@[i as int]);
            assert(d@.skip(i as int).drop_first() =~= d@.skip(i as int + 1));
            assert(d@[i as int] == (d.entries@[i as int].0@, d.entries@[i as int].1@));
        }
        let keep = match &d.entries[i].1 {
            Value::Null => false,
            _ => true,
        };
        if keep {
            let k = d.entries[i].0.clone();
            let v = d.entries[i].1.clone();
            let ghost before = (Document { entries })@;
            entries.push((k, v));
            proof {
                assert((Document { entries })@ =~= before.push(d@[i as int]));
                assert(before.push(d@[i as int]) =~= before + seq![d@[i as int]]);
                assert((before + seq![d@[i as int]]) + strip_nulls_v(d@.skip(i as int + 1)) =~= before
                    + (seq![d@[i as int]] + strip_nulls_v(d@.skip(i as int + 1))));
            }
        }
        i = i + 1;
    }
    proof {
        assert(d@.skip(n as int) =~= Seq::<(Seq<char>, ValueV)>::empty());
        assert((Document { entries })@ + strip_nulls_v(d@.skip(n as int)) =~= (Document { entries })@);
    }
    Document { entries }
}

/// Whether no two entries of a document share a key.
pub open spec fn unique_keys_v(d: DocV) -> bool {
    forall|i: int, j: int| 0 <= i < j < d.len() ==> (#[trigger] d[i]).0 != (#[trigger] d[j]).0
}

/// A key absent from a document is absent from its null-stripped form.
pub proof fn lemma_strip_absent(d: DocV, k: Seq<char>)
    requires
        forall|i: int| 0 <= i < d.len() ==> (#[trigger] d[i]).0 != k,
    ensures
        forall|i: int| 0 <= i < strip_nulls_v(d).len() ==> (#[trigger] strip_nulls_v(d)[i]).0 != k,
    decreases d.len(),
{
    if d.len() > 0 {
        let rest = d.drop_first();
        assert forall|i: int| 0 <= i < rest.len() implies (#[trigger] rest[i]).0 != k by {
            assert(rest[i] == d[i + 1]);
        }
        lemma_strip_absent(rest, k);
        if !(d[0].1 is Null) {
            assert forall|i: int|
                0 <= i < strip_nulls_v(d).len() implies (#[trigger] strip_nulls_v(d)[i]).0 != k by {
                if i > 0 {
                    assert(strip_nulls_v(d)[i] == strip_nulls_v(rest)[i - 1]);
                }
            }
        }
    }
}

/// Null-stripping keeps keys unique.
pub proof fn lemma_strip_unique(d: DocV)
    requires
        unique_keys_v(d),
    ensures
        unique_keys_v(strip_nulls_v(d)),
    decreases d.len(),
{
    if d.len() > 0 {
        let rest = d.drop_first();
        assert forall|i: int, j: int|
            0 <= i < j < rest.len() implies (#[trigger] rest[i]).0 != (#[trigger] rest[j]).0 by {
            assert(rest[i] == d[i + 1]);
            assert(rest[j] == d[j + 1]);
        }
        lemma_strip_unique(rest);
        if !(d[0].1 is Null) {
            assert forall|i: int| 0 <= i < rest.len() implies (#[trigger] rest[i]).0 != d[0].0 by {
                assert(rest[i] == d[i + 1]);
            }
            lemma_strip_absent(rest, d[0].0);
            assert forall|i: int, j: int|
                0 <= i < j < strip_nulls_v(d).len() implies (#[trigger] strip_nulls_v(d)[i]).0 != (
            #[trigger] strip_nulls_v(d)[j]).0 by {
                assert(strip_nulls_v(d)[j] == strip_nulls_v(rest)[j - 1]);
                if i > 0 {
                    assert(strip_nulls_v(d)[i] == strip_nulls_v(rest)[i - 1]);
                } else {
                    assert(strip_nulls_v(d)[0] == d[0]);
                }
            }
        }
    }
}

/// No field of a null-stripped document is null.
pub proof fn lemma_strip_nulls_no_null(d: DocV)
    ensures
        forall|i: int|
            0 <= i < strip_nulls_v(d).len() ==> !((#[trigger] strip_nulls_v(d)[i]).1 is Null),
    decreases d.len(),
{
    if d.len() > 0 {
        lemma_strip_nulls_no_null(d.drop_first());
        if !(d[0].1 is Null) {
            assert forall|i: int| 0 <= i < strip_nulls_v(d).len() implies !((
            #[trigger] strip_nulls_v(d)[i]).1 is Null) by {
                if i > 0 {
                    assert(strip_nulls_v(d)[i] == strip_nulls_v(d.drop_first())[i - 1]);
                }
            }
        }
    }
}

/// Binds a typed record to the generic document shape: how it is
/// serialized before storage, and how a stored document deserializes
/// back. Implementors fix both directions; the null-stripping on the
/// way in is shared (see `struct_into_document`).
pub trait DocumentRecord: View + Sized {
    /// The document this record serializes to, before null-stripping.
    spec fn doc_of(v: Self::V) -> DocV;

    /// The record a stored document deserializes to, if it has the
    /// required fields.
    spec fn of_doc(d: DocV) -> Option<Self::V>;

    /// Serializes the record into a generic document.
    fn to_document(&self) -> (r: Document)
        ensures
            r@ == Self::doc_of(self@),
    ;

    /// Deserializes a stored document back into the typed record.
    fn from_document(d: &Document) -> (r: Option<Self>)
        ensures
            match r {
                Some(t) => Self::of_doc(d@) == Some(t@),
                None => Self::of_doc(d@) is None,
            },
    ;

    /// A record always serializes with pairwise-distinct field keys.
    proof fn lemma_doc_of_unique(v: Self::V)
        ensures
            unique_keys_v(Self::doc_of(v)),
    ;
}

} // verus!
