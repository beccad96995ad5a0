//! Reading the trailer lines gathered by a chunked-body decoder.
use vstd::prelude::*;
use crate::bytes::lower_seq;
use crate::headers::{inserted, valid_name, valid_value};

verus! {

/// The progress of reading trailer lines.
#[verifier::ext_equal]
pub struct TrailerScan {
    /// Position of the colon of the current line, or 0 when none was seen.
    pub colon: int,
    /// Position of the last line feed, or 0 when none was seen.
    pub lf: int,
    /// The name of the current line, as written.
    pub name: Seq<u8>,
    /// The field lines read so far.
    pub lines: Seq<(Seq<u8>, Seq<u8>)>,
    /// An empty line was met: the rest is ignored.
    pub done: bool,
}

/// A space or a horizontal tab.
pub open spec fn is_blank(b: u8) -> bool {
    b == 0x20 || b == 0x09
}

/// `a` is the position of the first byte of `v` that is not blank.
pub open spec fn first_solid(v: Seq<u8>, a: int) -> bool {
    &&& 0 <= a < v.len()
    &&& !is_blank(v[a])
    &&& forall|j: int| 0 <= j < a ==> is_blank(#[trigger] v[j])
}

/// `b` is the position of the last byte of `v` that is not blank.
pub open spec fn last_solid(v: Seq<u8>, b: int) -> bool {
    &&& 0 <= b < v.len()
    &&& !is_blank(v[b])
    &&& forall|j: int| b < j < v.len() ==> is_blank(#[trigger] v[j])
}

/// `v` without its leading and trailing blanks; a value made of blanks
/// only is kept whole.
pub open spec fn trimmed(v: Seq<u8>) -> Seq<u8> {
    if exists|a: int| first_solid(v, a) {
        let a = choose|a: int| first_solid(v, a);
        let b = choose|b: int| last_solid(v, b);
        v.subrange(a, b + 1)
    } else {
        v
    }
}

/// The state before any trailer byte is read.
pub open spec fn scan_start() -> TrailerScan {
    TrailerScan { colon: 0, lf: 0, name: Seq::empty(), lines: Seq::empty(), done: false }
}

/// Reading the byte at `i`. Spaces are passed over; the first colon of a
/// line ends its name; a line feed ends the line, whose value lies between
/// the colon and the byte before the line feed, blanks trimmed, and is set
/// under the name; a line feed two bytes after the previous one ends the
/// reading. A line feed in the first two bytes, or right after the colon,
/// leaves no room for a line and is refused, as are a name that is not a
/// token and a value with a forbidden byte.
pub open spec fn trailer_step(t: Seq<u8>, st: TrailerScan, i: int) -> Result<TrailerScan, ()> {
    let b = t[i];
    if st.done || b == 0x20 {
        Ok(st)
    } else if b == 0x3a && st.colon == 0 {
        let nm = if st.lf == 0 { t.subrange(0, i) } else { t.subrange(st.lf + 1, i) };
        if valid_name(nm) {
            Ok(TrailerScan { colon: i, name: nm, ..st })
        } else {
            Err(())
        }
    } else if b == 0x0a {
        if i < 2 {
            Err(())
        } else if t[i - 2] == 0x0a {
            Ok(TrailerScan { done: true, ..st })
        } else if st.colon + 1 > i - 1 {
            Err(())
        } else {
            let v = trimmed(t.subrange(st.colon + 1, i - 1));
            if valid_value(v) {
                Ok(TrailerScan { colon: 0, lf: i, lines: inserted(st.lines, lower_seq(st.name), v), ..st })
            } else {
                Err(())
            }
        }
    } else {
        Ok(st)
    }
}

/// The state after reading the first `n` bytes of `t`.
pub open spec fn trailer_scan(t: Seq<u8>, n: int) -> Result<TrailerScan, ()>
    decreases n,
{
    if n <= 0 {
        Ok(scan_start())
    } else {
        match trailer_scan(t, n - 1) {
            Err(()) => Err(()),
            Ok(st) => trailer_step(t, st, n - 1),
        }
    }
}

/// Once refused, the reading stays refused.
pub proof fn lemma_scan_err(t: Seq<u8>, n: int, m: int)
    requires
        0 <= n <= m,
        trailer_scan(t, n) is Err,
    ensures
        trailer_scan(t, m) is Err,
    decreases m - n,
{
    if n < m {
        lemma_scan_err(t, n, m - 1);
    }
}

/// Once an empty line is met, nothing changes.
pub proof fn lemma_scan_done(t: Seq<u8>, n: int, m: int, st: TrailerScan)
    requires
        0 <= n <= m,
        trailer_scan(t, n) == Ok::<TrailerScan, ()>(st),
        st.done,
    ensures
        trailer_scan(t, m) == Ok::<TrailerScan, ()>(st),
    decreases m - n,
{
    if n < m {
        lemma_scan_done(t, n, m - 1, st);
    }
}

/// `v` without its leading and trailing blanks (a value of blanks only is
/// returned whole).
pub fn trim_blanks(v: &[u8]) -> (r: &[u8])
    ensures
        r@ == trimmed(v@),
{
    let mut a: usize = 0;
    while a < v.len() && (v[a] == 0x20 || v[a] == 0x09)
        invariant
            a <= v@.len(),
            forall|j: int| 0 <= j < a ==> is_blank(#[trigger] v@[j]),
        decreases v@.len() - a,
    {
        a = a + 1;
    }
    if a == v.len() {
        assert(!exists|k: int| first_solid(v@, k)) by {
            if exists|k: int| first_solid(v@, k) {
                let k = choose|k: int| first_solid(v@, k);
                assert(is_blank(v@[k]));
            }
        }
        return v;
    }
    let mut b: usize = v.len() - 1;
    while v[b] == 0x20 || v[b] == 0x09
        invariant
            a <= b < v@.len(),
            !is_blank(v@[a as int]),
            forall|j: int| b < j < v@.len() ==> is_blank(#[trigger] v@[j]),
        decreases b,
    {
        b = b - 1;
    }
    proof {
        assert(first_solid(v@, a as int));
        assert(last_solid(v@, b as int));
        let ca = choose|k: int| first_solid(v@, k);
        let cb = choose|k: int| last_solid(v@, k);
        if ca < a as int {
            assert(is_blank(v@[ca]));
        } else if ca > a as int {
            assert(is_blank(v@[a as int]));
        }
        if cb < b as int {
            assert(is_blank(v@[b as int]));
        } else if cb > b as int {
            assert(is_blank(v@[cb]));
        }
    }
    &v[a..b + 1]
}

} // verus!
