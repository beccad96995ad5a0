//! HTTP field lines: an ordered list of lower-cased names, each with its
//! value, where repeated names are combined into one comma-separated value.
use vstd::prelude::*;
use crate::bytes::{bytes_eq, copy_bytes, lower_seq, push_bytes, to_lower};
use crate::error::{ErrorKind, HttpError};

verus! {

/// An ordered collection of header field lines.
#[derive(Clone, PartialEq, Eq)]
pub struct Headers {
    entries: Vec<(Vec<u8>, Vec<u8>)>,
}

/// The value stored for `name` after appending `value` to an existing
/// `old` value: the two joined by ", ".
pub open spec fn joined(old: Seq<u8>, value: Seq<u8>) -> Seq<u8> {
    old + seq![0x2cu8, 0x20u8] + value
}

/// Index of the entry whose name is `name`, if any.
pub open spec fn find_name(es: Seq<(Seq<u8>, Seq<u8>)>, name: Seq<u8>) -> Option<int> {
    if exists|i: int| first_with_name(es, name, i) {
        Some(choose|i: int| first_with_name(es, name, i))
    } else {
        None
    }
}

/// `i` is the first index whose entry is named `name`.
pub open spec fn first_with_name(es: Seq<(Seq<u8>, Seq<u8>)>, name: Seq<u8>, i: int) -> bool {
    &&& 0 <= i < es.len()
    &&& es[i].0 == name
    &&& forall|j: int| 0 <= j < i ==> (#[trigger] es[j]).0 != name
}

/// The field lines after appending `value` under `name` (already lower-cased).
pub open spec fn appended(es: Seq<(Seq<u8>, Seq<u8>)>, name: Seq<u8>, value: Seq<u8>) -> Seq<(Seq<u8>, Seq<u8>)> {
    match find_name(es, name) {
        Some(i) => es.update(i, (name, joined(es[i].1, value))),
        None => es.push((name, value)),
    }
}

/// The field lines after setting `name` (already lower-cased) to `value`:
/// an existing line of that name is replaced in place.
pub open spec fn inserted(es: Seq<(Seq<u8>, Seq<u8>)>, name: Seq<u8>, value: Seq<u8>) -> Seq<(Seq<u8>, Seq<u8>)> {
    match find_name(es, name) {
        Some(i) => es.update(i, (name, value)),
        None => es.push((name, value)),
    }
}

/// A byte allowed in a field name: a token character (RFC 9110, 5.6.2).
pub open spec fn is_token_byte(b: u8) -> bool {
    ||| 0x30 <= b <= 0x39
    ||| 0x41 <= b <= 0x5a
    ||| 0x61 <= b <= 0x7a
    ||| b == 0x21 || b == 0x23 || b == 0x24 || b == 0x25 || b == 0x26 || b == 0x27
    ||| b == 0x2a || b == 0x2b || b == 0x2d || b == 0x2e || b == 0x5e || b == 0x5f
    ||| b == 0x60 || b == 0x7c || b == 0x7e
}

/// A byte allowed in a field value: visible characters, obs-text, space
/// and horizontal tab (RFC 9110, 5.5).
pub open spec fn is_value_byte(b: u8) -> bool {
    b == 0x09 || (0x20 <= b && b != 0x7f)
}

/// Every byte of a field name is a token character.
pub open spec fn valid_name(s: Seq<u8>) -> bool {
    forall|i: int| 0 <= i < s.len() ==> is_token_byte(#[trigger] s[i])
}

/// Every byte of a field value is allowed.
pub open spec fn valid_value(s: Seq<u8>) -> bool {
    forall|i: int| 0 <= i < s.len() ==> is_value_byte(#[trigger] s[i])
}

/// Whether every byte of `s` is a token character.
pub fn check_name(s: &[u8]) -> (r: bool)
    ensures
        r == valid_name(s@),
{
    let mut i: usize = 0;
    while i < s.len()
        invariant
            i <= s@.len(),
            forall|j: int| 0 <= j < i ==> is_token_byte(#[trigger] s@[j]),
        decreases s@.len() - i,
    {
        let b = s[i];
        let ok = (0x30 <= b && b <= 0x39) || (0x41 <= b && b <= 0x5a) || (0x61 <= b && b <= 0x7a)
            || b == 0x21 || b == 0x23 || b == 0x24 || b == 0x25 || b == 0x26 || b == 0x27
            || b == 0x2a || b == 0x2b || b == 0x2d || b == 0x2e || b == 0x5e || b == 0x5f
            || b == 0x60 || b == 0x7c || b == 0x7e;
        if !ok {
            return false;
        }
        i = i + 1;
    }
    true
}

/// Whether every byte of `s` is allowed in a field value.
pub fn check_value(s: &[u8]) -> (r: bool)
    ensures
        r == valid_value(s@),
{
    let mut i: usize = 0;
    while i < s.len()
        invariant
            i <= s@.len(),
            forall|j: int| 0 <= j < i ==> is_value_byte(#[trigger] s@[j]),
        decreases s@.len() - i,
    {
        let b = s[i];
        if !(b == 0x09 || (0x20 <= b && b != 0x7f)) {
            return false;
        }
        i = i + 1;
    }
    true
}

/// After a field is set, looking its name up finds the value set.
pub proof fn lemma_insert_then_get(es: Seq<(Seq<u8>, Seq<u8>)>, name: Seq<u8>, value: Seq<u8>)
    ensures
        find_name(inserted(es, name, value), name) is Some,
        inserted(es, name, value)[find_name(inserted(es, name, value), name)->0].1 == value,
{
    let ins = inserted(es, name, value);
    match find_name(es, name) {
        Some(i) => {
            let k = choose|k: int| first_with_name(es, name, k);
            assert(first_with_name(es, name, k));
            assert(first_with_name(ins, name, k));
            lemma_first_unique(ins, name, k);
        },
        None => {
            let n = es.len() as int;
            assert forall|j: int| 0 <= j < n implies (#[trigger] ins[j]).0 != name by {
                if es[j].0 == name {
                    lemma_exists_first(es, name, j);
                }
            }
            assert(first_with_name(ins, name, n));
            lemma_first_unique(ins, name, n);
        },
    }
}

/// After a value is appended under a name, looking the name up finds the
/// earlier value joined with the new one, or the new one alone when the name
/// was absent.
pub proof fn lemma_append_then_get(es: Seq<(Seq<u8>, Seq<u8>)>, name: Seq<u8>, value: Seq<u8>)
    ensures
        find_name(appended(es, name, value), name) is Some,
        appended(es, name, value)[find_name(appended(es, name, value), name)->0].1 == match find_name(es, name) {
            Some(i) => joined(es[i].1, value),
            None => value,
        },
{
    let app = appended(es, name, value);
    match find_name(es, name) {
        Some(i) => {
            let k = choose|k: int| first_with_name(es, name, k);
            assert(first_with_name(app, name, k));
            lemma_first_unique(app, name, k);
        },
        None => {
            let n = es.len() as int;
            assert forall|j: int| 0 <= j < n implies (#[trigger] app[j]).0 != name by {
                if es[j].0 == name {
                    lemma_exists_first(es, name, j);
                }
            }
            assert(first_with_name(app, name, n));
            lemma_first_unique(app, name, n);
        },
    }
}

/// A name present in the list has a first position.
proof fn lemma_exists_first(es: Seq<(Seq<u8>, Seq<u8>)>, name: Seq<u8>, j: int)
    requires
        0 <= j < es.len(),
        es[j].0 == name,
    ensures
        exists|k: int| first_with_name(es, name, k),
    decreases j,
{
    if exists|k: int| 0 <= k < j && es[k].0 == name {
        let k = choose|k: int| 0 <= k < j && es[k].0 == name;
        lemma_exists_first(es, name, k);
    } else {
        assert(first_with_name(es, name, j));
    }
}

/// When `i` is the first position named `name`, the lookup finds it.
proof fn lemma_first_unique(es: Seq<(Seq<u8>, Seq<u8>)>, name: Seq<u8>, i: int)
    requires
        first_with_name(es, name, i),
    ensures
        find_name(es, name) == Some(i),
{
    let k = choose|k: int| first_with_name(es, name, k);
    if k < i {
        assert(es[k].0 != name);
    } else if k > i {
        assert(es[i].0 != name);
    }
}

/// Field lines as written in an HTTP/1.1 message: `name:value` and a line
/// end each.
pub open spec fn lines_text(lines: Seq<(Seq<u8>, Seq<u8>)>) -> Seq<u8>
    decreases lines.len(),
{
    if lines.len() == 0 {
        Seq::empty()
    } else {
        lines_text(lines.drop_last()) + lines.last().0 + seq![0x3au8] + lines.last().1 + seq![0x0du8, 0x0au8]
    }
}

/// Names are unique in a collection of field lines.
pub open spec fn names_unique(es: Seq<(Seq<u8>, Seq<u8>)>) -> bool {
    forall|i: int, j: int| 0 <= i < j < es.len() ==> (#[trigger] es[i]).0 != (#[trigger] es[j]).0
}

/// Setting or appending a field keeps the names of the field lines unique:
/// a name already present is changed in place, a new one is added once.
pub proof fn lemma_names_stay_unique(es: Seq<(Seq<u8>, Seq<u8>)>, name: Seq<u8>, value: Seq<u8>)
    requires
        names_unique(es),
    ensures
        names_unique(inserted(es, name, value)),
        names_unique(appended(es, name, value)),
{
    match find_name(es, name) {
        Some(i) => {
            let k = choose|k: int| first_with_name(es, name, k);
            assert(first_with_name(es, name, k));
            let ins = inserted(es, name, value);
            let app = appended(es, name, value);
            assert forall|a: int, b: int| 0 <= a < b < ins.len() implies (#[trigger] ins[a]).0 != (#[trigger] ins[b]).0 by {
                assert(es[a].0 == ins[a].0 && es[b].0 == ins[b].0);
                assert(es[a].0 != es[b].0);
            }
            assert forall|a: int, b: int| 0 <= a < b < app.len() implies (#[trigger] app[a]).0 != (#[trigger] app[b]).0 by {
                assert(es[a].0 == app[a].0 && es[b].0 == app[b].0);
                assert(es[a].0 != es[b].0);
            }
        },
        None => {
            assert forall|j: int| 0 <= j < es.len() implies (#[trigger] es[j]).0 != name by {
                if es[j].0 == name {
                    lemma_exists_first(es, name, j);
                }
            }
            let ins = inserted(es, name, value);
            assert forall|a: int, b: int| 0 <= a < b < ins.len() implies (#[trigger] ins[a]).0 != (#[trigger] ins[b]).0 by {
                if b < es.len() {
                    assert(es[a].0 != es[b].0);
                } else {
                    assert(es[a].0 != name);
                }
            }
        },
    }
}

impl Headers {
    /// The field lines, in order of first appearance.
    pub closed spec fn lines(&self) -> Seq<(Seq<u8>, Seq<u8>)> {
        Seq::new(self.entries@.len(), |i: int| (self.entries@[i].0@, self.entries@[i].1@))
    }

    /// Creates an empty collection.
    pub fn new() -> (r: Headers)
        ensures
            r.lines() == Seq::<(Seq<u8>, Seq<u8>)>::empty(),
    {
        let r = Headers { entries: Vec::new() };
        assert(r.lines() =~= Seq::<(Seq<u8>, Seq<u8>)>::empty());
        r
    }

    /// Returns a copy of this collection.
    pub fn copy(&self) -> (r: Headers)
        ensures
            r.lines() == self.lines(),
    {
        let mut entries: Vec<(Vec<u8>, Vec<u8>)> = Vec::new();
        let mut i: usize = 0;
        while i < self.entries.len()
            invariant
                i <= self.entries@.len(),
                entries@.len() == i,
                forall|j: int| 0 <= j < i ==> (#[trigger] entries@[j]).0@ == self.entries@[j].0@
                    && entries@[j].1@ == self.entries@[j].1@,
            decreases self.entries@.len() - i,
        {
            let e = &self.entries[i];
            entries.push((copy_bytes(e.0.as_slice()), copy_bytes(e.1.as_slice())));
            i = i + 1;
        }
        let r = Headers { entries };
        assert(r.lines() =~= self.lines());
        r
    }

    /// The name and value at position `i`.
    pub fn line(&self, i: usize) -> (r: (&[u8], &[u8]))
        requires
            i < self.lines().len(),
        ensures
            r.0@ == self.lines()[i as int].0,
            r.1@ == self.lines()[i as int].1,
    {
        (self.entries[i].0.as_slice(), self.entries[i].1.as_slice())
    }

    /// Number of distinct field names.
    pub fn len(&self) -> (r: usize)
        ensures
            r == self.lines().len(),
    {
        self.entries.len()
    }

    /// Whether the collection has no field line.
    pub fn is_empty(&self) -> (r: bool)
        ensures
            r == (self.lines().len() == 0),
    {
        self.entries.len() == 0
    }

    /// Appends a field line; the name is lower-cased, and a value for a name
    /// already present is joined to the existing one with ", ".
    pub fn append(&mut self, name: &[u8], value: &[u8])
        ensures
            final(self).lines() == appended(old(self).lines(), lower_seq(name@), value@),
    {
        let lname = to_lower(name);
        match self.position(lname.as_slice()) {
            Some(i) => {
                let ghost old_lines = self.lines();
                assert(old_lines[i as int].1 == self.entries@[i as int].1@);
                let mut v = copy_bytes(self.entries[i].1.as_slice());
                v.push(0x2c);
                v.push(0x20);
                push_bytes(&mut v, value);
                assert(v@ =~= joined(old_lines[i as int].1, value@));
                self.entries.set(i, (lname, v));
                assert(self.lines() =~= old_lines.update(i as int, (lower_seq(name@), joined(old_lines[i as int].1, value@))));
            },
            None => {
                let ghost old_lines = self.lines();
                let vv = copy_bytes(value);
                self.entries.push((lname, vv));
                assert(self.lines() =~= old_lines.push((lower_seq(name@), value@)));
            },
        }
    }

    /// Sets the field `name` (lower-cased) to `value`, replacing the value of
    /// a line already of that name; a name that is not a token, or a value
    /// with a forbidden byte, is refused and nothing changes.
    pub fn insert(&mut self, name: &[u8], value: &[u8]) -> (r: Result<(), HttpError>)
        ensures
            r is Ok <==> (valid_name(name@) && valid_value(value@)),
            r is Ok ==> final(self).lines() == inserted(old(self).lines(), lower_seq(name@), value@),
            r is Err ==> final(self).lines() == old(self).lines(),
            r matches Err(e) ==> e.kind == ErrorKind::InvalidInput,
    {
        if !check_name(name) || !check_value(value) {
            return Err(HttpError::from_kind(ErrorKind::InvalidInput));
        }
        let lname = to_lower(name);
        let vv = copy_bytes(value);
        let ghost old_lines = self.lines();
        match self.position(lname.as_slice()) {
            Some(i) => {
                self.entries.set(i, (lname, vv));
                assert(self.lines() =~= old_lines.update(i as int, (lower_seq(name@), value@)));
            },
            None => {
                self.entries.push((lname, vv));
                assert(self.lines() =~= old_lines.push((lower_seq(name@), value@)));
            },
        }
        Ok(())
    }

    /// The field lines written as in an HTTP/1.1 message: `name:value` and a
    /// line end each, in order.
    pub fn to_lines(&self) -> (r: Vec<u8>)
        ensures
            r@ == lines_text(self.lines()),
    {
        let mut v: Vec<u8> = Vec::new();
        let mut i: usize = 0;
        while i < self.entries.len()
            invariant
                i <= self.lines().len(),
                v@ == lines_text(self.lines().subrange(0, i as int)),
            decreases self.lines().len() - i,
        {
            let (name, value) = self.line(i);
            push_bytes(&mut v, name);
            v.push(0x3a);
            push_bytes(&mut v, value);
            v.push(0x0d);
            v.push(0x0a);
            proof {
                let ls = self.lines().subrange(0, i + 1);
                assert(ls.drop_last() =~= self.lines().subrange(0, i as int));
                assert(v@ =~= lines_text(ls));
            }
            i = i + 1;
        }
        assert(self.lines().subrange(0, i as int) =~= self.lines());
        v
    }

    /// Gets the value stored under `name` (compared after lower-casing).
    pub fn get(&self, name: &[u8]) -> (r: Option<&Vec<u8>>)
        ensures
            r is Some <==> find_name(self.lines(), lower_seq(name@)) is Some,
            r matches Some(v) ==> v@ == self.lines()[find_name(self.lines(), lower_seq(name@))->0].1,
    {
        let lname = to_lower(name);
        match self.position(lname.as_slice()) {
            Some(i) => {
                assert(self.lines()[i as int].1 == self.entries@[i as int].1@);
                Some(&self.entries[i].1)
            },
            None => None,
        }
    }

    fn position(&self, name: &[u8]) -> (r: Option<usize>)
        ensures
            r matches Some(i) ==> find_name(self.lines(), name@) == Some(i as int),
            r is None ==> find_name(self.lines(), name@) is None,
            r matches Some(i) ==> i < self.lines().len(),
    {
        let mut i: usize = 0;
        while i < self.entries.len()
            invariant
                i <= self.entries@.len(),
                forall|j: int| 0 <= j < i ==> (#[trigger] self.lines()[j]).0 != name@,
            decreases self.entries@.len() - i,
        {
            if bytes_eq(self.entries[i].0.as_slice(), name) {
                proof {
                    assert(first_with_name(self.lines(), name@, i as int));
                    let k = choose|k: int| first_with_name(self.lines(), name@, k);
                    if k < i as int {
                        assert(self.lines()[k].0 != name@);
                    } else if k > i as int {
                        assert(self.lines()[i as int].0 != name@);
                    }
                }
                return Some(i);
            }
            i = i + 1;
        }
        None
    }
}

} // verus!
