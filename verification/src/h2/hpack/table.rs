//! The static and dynamic tables of HPACK (RFC 7541, section 2.3).
use vstd::prelude::*;
use vstd::string::*;
use std::collections::VecDeque;
use crate::bytes::{ascii_bytes, bytes_eq, copy_bytes, lit};

verus! {

broadcast use vstd::string::group_string_axioms;

/// A header name as seen by the tables: one of the pseudo-header names, or
/// any other name given by its bytes.
#[derive(PartialEq, Eq, Debug)]
pub enum Header {
    /// `:authority`
    Authority,
    /// `:method`
    Method,
    /// `:path`
    Path,
    /// `:scheme`
    Scheme,
    /// `:status`
    Status,
    /// A regular field name.
    Other(Vec<u8>),
}

/// The abstract value of a `Header`.
pub enum HName {
    /// `:authority`
    Authority,
    /// `:method`
    Method,
    /// `:path`
    Path,
    /// `:scheme`
    Scheme,
    /// `:status`
    Status,
    /// A regular field name.
    Other(Seq<u8>),
}

impl View for Header {
    type V = HName;

    open spec fn view(&self) -> HName {
        match self {
            Header::Authority => HName::Authority,
            Header::Method => HName::Method,
            Header::Path => HName::Path,
            Header::Scheme => HName::Scheme,
            Header::Status => HName::Status,
            Header::Other(s) => HName::Other(s@),
        }
    }
}

/// The length in octets that a header name counts for in table sizes.
pub open spec fn hname_len(h: HName) -> nat {
    match h {
        HName::Authority => 10,
        HName::Method => 7,
        HName::Path => 5,
        HName::Scheme => 7,
        HName::Status => 7,
        HName::Other(s) => s.len(),
    }
}

/// The textual form of a header name.
pub open spec fn hname_bytes(h: HName) -> Seq<u8> {
    match h {
        HName::Authority => ascii_bytes(":authority"),
        HName::Method => ascii_bytes(":method"),
        HName::Path => ascii_bytes(":path"),
        HName::Scheme => ascii_bytes(":scheme"),
        HName::Status => ascii_bytes(":status"),
        HName::Other(s) => s,
    }
}

impl Header {
    /// The length in octets of this name in table size accounting.
    pub fn len(&self) -> (r: usize)
        ensures
            r == hname_len(self@),
    {
        match self {
            Header::Authority => 10,
            Header::Method => 7,
            Header::Path => 5,
            Header::Scheme => 7,
            Header::Status => 7,
            Header::Other(s) => s.len(),
        }
    }

    /// Returns a copy of this name.
    pub fn copy(&self) -> (r: Header)
        ensures
            r@ == self@,
    {
        match self {
            Header::Authority => Header::Authority,
            Header::Method => Header::Method,
            Header::Path => Header::Path,
            Header::Scheme => Header::Scheme,
            Header::Status => Header::Status,
            Header::Other(s) => Header::Other(copy_bytes(s.as_slice())),
        }
    }

    /// Whether two names are the same.
    pub fn same(&self, other: &Header) -> (r: bool)
        ensures
            r == (self@ == other@),
    {
        match (self, other) {
            (Header::Authority, Header::Authority) => true,
            (Header::Method, Header::Method) => true,
            (Header::Path, Header::Path) => true,
            (Header::Scheme, Header::Scheme) => true,
            (Header::Status, Header::Status) => true,
            (Header::Other(a), Header::Other(b)) => bytes_eq(a.as_slice(), b.as_slice()),
            _ => false,
        }
    }

    /// Converts this name into its textual form.
    pub fn into_string(self) -> (r: Vec<u8>)
        ensures
            r@ == hname_bytes(self@),
    {
        match self {
            Header::Authority => {
                proof { reveal_strlit(":authority"); }
                lit(":authority")
            },
            Header::Method => {
                proof { reveal_strlit(":method"); }
                lit(":method")
            },
            Header::Path => {
                proof { reveal_strlit(":path"); }
                lit(":path")
            },
            Header::Scheme => {
                proof { reveal_strlit(":scheme"); }
                lit(":scheme")
            },
            Header::Status => {
                proof { reveal_strlit(":status"); }
                lit(":status")
            },
            Header::Other(s) => s,
        }
    }
}

/// A position found in the tables: either an entry matching both name and
/// value, or an entry matching the name only.
#[derive(PartialEq, Eq, Debug, Clone, Copy)]
pub enum TableIndex {
    /// Index of an entry with the same name and value.
    Header(usize),
    /// Index of an entry with the same name.
    HeaderName(usize),
}

/// The size an entry counts for: name length, value length and 32 octets of
/// overhead (RFC 7541, section 4.1).
pub open spec fn entry_size(e: (HName, Seq<u8>)) -> nat {
    hname_len(e.0) + e.1.len() + 32
}

/// The total size of a list of entries.
pub open spec fn total_size(es: Seq<(HName, Seq<u8>)>) -> nat
    decreases es.len(),
{
    if es.len() == 0 {
        0
    } else {
        entry_size(es[0]) + total_size(es.drop_first())
    }
}

/// Removes entries from the end (the oldest) until the total size fits
/// `max`.
pub open spec fn evict(es: Seq<(HName, Seq<u8>)>, max: nat) -> Seq<(HName, Seq<u8>)>
    decreases es.len(),
{
    if es.len() == 0 || total_size(es) <= max {
        es
    } else {
        evict(es.drop_last(), max)
    }
}

/// The size of a list is the size of all but its last entry plus the size of
/// the last entry.
pub proof fn lemma_total_drop_last(es: Seq<(HName, Seq<u8>)>)
    requires
        es.len() > 0,
    ensures
        total_size(es) == total_size(es.drop_last()) + entry_size(es.last()),
    decreases es.len(),
{
    if es.len() > 1 {
        lemma_total_drop_last(es.drop_first());
        assert(es.drop_first().drop_last() =~= es.drop_last().drop_first());
        assert(es.drop_last()[0] == es[0]);
        assert(es.drop_first().last() == es.last());
        assert(total_size(es.drop_last()) == entry_size(es.drop_last()[0]) + total_size(es.drop_last().drop_first()));
    } else {
        assert(es.drop_first().len() == 0);
        assert(total_size(es.drop_first()) == 0);
        assert(es.drop_last().len() == 0);
        assert(total_size(es.drop_last()) == 0);
    }
}

/// Every entry counts for at least 32 octets.
pub proof fn lemma_total_len(es: Seq<(HName, Seq<u8>)>)
    ensures
        total_size(es) >= es.len() * 32,
    decreases es.len(),
{
    if es.len() > 0 {
        lemma_total_len(es.drop_first());
    }
}

/// After eviction the table fits its size limit.
pub proof fn lemma_evict_fits(es: Seq<(HName, Seq<u8>)>, max: nat)
    ensures
        total_size(evict(es, max)) <= max,
        evict(es, max).len() <= es.len(),
        forall|i: int| 0 <= i < evict(es, max).len() ==> evict(es, max)[i] == es[i],
    decreases es.len(),
{
    if es.len() == 0 {
    } else if total_size(es) <= max {
    } else {
        lemma_evict_fits(es.drop_last(), max);
        assert forall|i: int| 0 <= i < evict(es, max).len() implies evict(es, max)[i] == es[i] by {
            assert(evict(es, max)[i] == es.drop_last()[i]);
        }
    }
}

/// First index of an entry with this name and value, starting at `i`.
pub open spec fn find_entry(es: Seq<(HName, Seq<u8>)>, h: HName, v: Seq<u8>, i: int) -> Option<int>
    decreases es.len() - i,
{
    if i < 0 || i >= es.len() {
        None
    } else if es[i] == (h, v) {
        Some(i)
    } else {
        find_entry(es, h, v, i + 1)
    }
}

/// First index of an entry with this name, starting at `i`.
pub open spec fn find_hname(es: Seq<(HName, Seq<u8>)>, h: HName, i: int) -> Option<int>
    decreases es.len() - i,
{
    if i < 0 || i >= es.len() {
        None
    } else if es[i].0 == h {
        Some(i)
    } else {
        find_hname(es, h, i + 1)
    }
}

/// Where a name and value pair is found in a list of dynamic entries.
pub open spec fn dynamic_index(es: Seq<(HName, Seq<u8>)>, h: HName, v: Seq<u8>) -> Option<TableIndex> {
    match find_entry(es, h, v, 0) {
        Some(i) => Some(TableIndex::Header(i as usize)),
        None => match find_hname(es, h, 0) {
            Some(i) => Some(TableIndex::HeaderName(i as usize)),
            None => None,
        },
    }
}

/// The dynamic table of HPACK: entries in first-in first-out order, the
/// newest at index 0, bounded by a maximum size.
pub struct DynamicTable {
    queue: VecDeque<(Header, Vec<u8>)>,
    curr_size: usize,
    max_size: usize,
}

impl DynamicTable {
    /// The entries, newest first.
    pub closed spec fn entries(&self) -> Seq<(HName, Seq<u8>)> {
        Seq::new(self.queue@.len(), |i: int| (self.queue@[i].0@, self.queue@[i].1@))
    }

    /// The current size of the table.
    pub closed spec fn size(&self) -> nat {
        self.curr_size as nat
    }

    /// The maximum size of the table.
    pub closed spec fn max(&self) -> nat {
        self.max_size as nat
    }

    /// The table's size is the total size of its entries and within the
    /// maximum.
    pub closed spec fn wf(&self) -> bool {
        &&& self.curr_size == total_size(self.entries())
        &&& self.curr_size <= self.max_size
    }

    /// A well-formed table's size is the total size of its entries, within
    /// its maximum.
    pub proof fn lemma_wf_size(&self)
        requires
            self.wf(),
        ensures
            self.size() == total_size(self.entries()),
            self.size() <= self.max(),
            self.entries().len() * 32 <= self.max(),
            self.max() <= usize::MAX,
    {
        lemma_total_len(self.entries());
    }

    /// Creates an empty table with the given maximum size.
    pub fn with_max_size(max_size: usize) -> (r: DynamicTable)
        ensures
            r.wf(),
            r.entries() == Seq::<(HName, Seq<u8>)>::empty(),
            r.size() == 0,
            r.max() == max_size,
    {
        let r = DynamicTable { queue: VecDeque::new(), curr_size: 0, max_size };
        assert(r.entries() =~= Seq::<(HName, Seq<u8>)>::empty());
        r
    }

    /// The current size.
    pub fn curr_size(&self) -> (r: usize)
        ensures
            r == self.size(),
    {
        self.curr_size
    }

    /// The maximum size.
    pub fn max_size(&self) -> (r: usize)
        ensures
            r == self.max(),
    {
        self.max_size
    }

    /// Number of entries.
    pub fn len(&self) -> (r: usize)
        ensures
            r == self.entries().len(),
    {
        self.queue.len()
    }

    /// Gets the name of the entry at `index`.
    pub fn header_name(&self, index: usize) -> (r: Option<Header>)
        ensures
            r is Some <==> index < self.entries().len(),
            r matches Some(h) ==> h@ == self.entries()[index as int].0,
    {
        if index < self.queue.len() {
            Some(self.queue[index].0.copy())
        } else {
            None
        }
    }

    /// Gets the name and value of the entry at `index`.
    pub fn header(&self, index: usize) -> (r: Option<(Header, Vec<u8>)>)
        ensures
            r is Some <==> index < self.entries().len(),
            r matches Some(p) ==> (p.0@, p.1@) == self.entries()[index as int],
    {
        if index < self.queue.len() {
            let e = &self.queue[index];
            Some((e.0.copy(), copy_bytes(e.1.as_slice())))
        } else {
            None
        }
    }

    /// Inserts an entry as the newest one, then evicts the oldest entries
    /// until the table fits its maximum size.
    pub fn update(&mut self, header: Header, value: Vec<u8>)
        requires
            old(self).wf(),
            old(self).size() + hname_len(header@) + value@.len() + 32 <= usize::MAX,
        ensures
            final(self).wf(),
            final(self).max() == old(self).max(),
            final(self).entries() == evict(seq![(header@, value@)] + old(self).entries(), old(self).max()),
    {
        let ghost old_entries = self.entries();
        let add = header.len() + value.len() + 32;
        self.curr_size = self.curr_size + add;
        let ghost e = (header@, value@);
        self.queue.push_front((header, value));
        assert(self.entries() =~= seq![e] + old_entries);
        assert((seq![e] + old_entries).drop_first() =~= old_entries);
        self.fit_size();
    }

    /// Sets a new maximum size, evicting entries as needed.
    pub fn update_size(&mut self, max_size: usize)
        requires
            old(self).wf(),
        ensures
            final(self).wf(),
            final(self).max() == max_size,
            final(self).entries() == evict(old(self).entries(), max_size as nat),
    {
        self.max_size = max_size;
        self.fit_size();
    }

    fn fit_size(&mut self)
        requires
            old(self).curr_size == total_size(old(self).entries()),
        ensures
            final(self).wf(),
            final(self).max_size == old(self).max_size,
            final(self).entries() == evict(old(self).entries(), old(self).max_size as nat),
    {
        let ghost start = self.entries();
        while self.curr_size > self.max_size && self.queue.len() != 0
            invariant
                self.curr_size == total_size(self.entries()),
                self.max_size == old(self).max_size,
                evict(self.entries(), self.max_size as nat) == evict(start, self.max_size as nat),
            decreases self.queue@.len(),
        {
            let ghost before = self.entries();
            proof {
                lemma_total_drop_last(before);
            }
            let popped = self.queue.pop_back();
            match popped {
                Some(p) => {
                    let (key, string) = p;
                    assert(self.entries() =~= before.drop_last());
                    self.curr_size = self.curr_size - (key.len() + string.len() + 32);
                },
                None => {},
            }
        }
        proof {
            assert(evict(self.entries(), self.max_size as nat) == self.entries());
        }
    }

    /// Finds the first entry with this name and value, or else the first
    /// entry with this name.
    pub fn index(&self, header: &Header, value: &[u8]) -> (r: Option<TableIndex>)
        ensures
            r == dynamic_index(self.entries(), header@, value@),
    {
        let mut index: Option<usize> = None;
        let mut n: usize = 0;
        while n < self.queue.len()
            invariant
                n <= self.entries().len(),
                find_entry(self.entries(), header@, value@, 0) == find_entry(self.entries(), header@, value@, n as int),
                index is None ==> find_hname(self.entries(), header@, 0) == find_hname(self.entries(), header@, n as int),
                index matches Some(k) ==> find_hname(self.entries(), header@, 0) == Some(k as int),
            decreases self.entries().len() - n,
        {
            let e = &self.queue[n];
            let same_name = header.same(&e.0);
            let same_value = bytes_eq(value, e.1.as_slice());
            assert(self.entries()[n as int] == (e.0@, e.1@));
            if same_name && same_value {
                return Some(TableIndex::Header(n));
            }
            if same_name && index.is_none() {
                index = Some(n);
            }
            n = n + 1;
        }
        match index {
            Some(k) => Some(TableIndex::HeaderName(k)),
            None => None,
        }
    }
}

/// Regular field names of the static table, at indices 15 to 61.
pub open spec fn static_other_name(i: int) -> Seq<u8> {
    if i == 15 {
        ascii_bytes("accept-charset")
    } else if i == 16 {
        ascii_bytes("accept-encoding")
    } else if i == 17 {
        ascii_bytes("accept-language")
    } else if i == 18 {
        ascii_bytes("accept-ranges")
    } else if i == 19 {
        ascii_bytes("accept")
    } else if i == 20 {
        ascii_bytes("access-control-allow-origin")
    } else if i == 21 {
        ascii_bytes("age")
    } else if i == 22 {
        ascii_bytes("allow")
    } else if i == 23 {
        ascii_bytes("authorization")
    } else if i == 24 {
        ascii_bytes("cache-control")
    } else if i == 25 {
        ascii_bytes("content-disposition")
    } else if i == 26 {
        ascii_bytes("content-encoding")
    } else if i == 27 {
        ascii_bytes("content-language")
    } else if i == 28 {
        ascii_bytes("content-length")
    } else if i == 29 {
        ascii_bytes("content-location")
    } else if i == 30 {
        ascii_bytes("content-range")
    } else if i == 31 {
        ascii_bytes("content-type")
    } else if i == 32 {
        ascii_bytes("cookie")
    } else if i == 33 {
        ascii_bytes("date")
    } else if i == 34 {
        ascii_bytes("etag")
    } else if i == 35 {
        ascii_bytes("expect")
    } else if i == 36 {
        ascii_bytes("expires")
    } else if i == 37 {
        ascii_bytes("from")
    } else if i == 38 {
        ascii_bytes("host")
    } else if i == 39 {
        ascii_bytes("if-match")
    } else if i == 40 {
        ascii_bytes("if-modified-since")
    } else if i == 41 {
        ascii_bytes("if-none-match")
    } else if i == 42 {
        ascii_bytes("if-range")
    } else if i == 43 {
        ascii_bytes("if-unmodified-since")
    } else if i == 44 {
        ascii_bytes("last-modified")
    } else if i == 45 {
        ascii_bytes("link")
    } else if i == 46 {
        ascii_bytes("location")
    } else if i == 47 {
        ascii_bytes("max-forwards")
    } else if i == 48 {
        ascii_bytes("proxy-authenticate")
    } else if i == 49 {
        ascii_bytes("proxy-authorization")
    } else if i == 50 {
        ascii_bytes("range")
    } else if i == 51 {
        ascii_bytes("referer")
    } else if i == 52 {
        ascii_bytes("refresh")
    } else if i == 53 {
        ascii_bytes("retry-after")
    } else if i == 54 {
        ascii_bytes("server")
    } else if i == 55 {
        ascii_bytes("set-cookie")
    } else if i == 56 {
        ascii_bytes("strict-transport-security")
    } else if i == 57 {
        ascii_bytes("transfer-encoding")
    } else if i == 58 {
        ascii_bytes("user-agent")
    } else if i == 59 {
        ascii_bytes("vary")
    } else if i == 60 {
        ascii_bytes("via")
    } else if i == 61 {
        ascii_bytes("www-authenticate")
    } else {
        Seq::empty()
    }
}

/// The name of a static table entry, for indices 1 to 61.
pub open spec fn static_name(i: int) -> Option<HName> {
    if i == 1 {
        Some(HName::Authority)
    } else if 2 <= i <= 3 {
        Some(HName::Method)
    } else if 4 <= i <= 5 {
        Some(HName::Path)
    } else if 6 <= i <= 7 {
        Some(HName::Scheme)
    } else if 8 <= i <= 14 {
        Some(HName::Status)
    } else if 15 <= i <= 61 {
        Some(HName::Other(static_other_name(i)))
    } else {
        None
    }
}

/// The value of a static table entry that has one.
pub open spec fn static_value(i: int) -> Option<Seq<u8>> {
    if i == 2 {
        Some(ascii_bytes("GET"))
    } else if i == 3 {
        Some(ascii_bytes("POST"))
    } else if i == 4 {
        Some(ascii_bytes("/"))
    } else if i == 5 {
        Some(ascii_bytes("/index.html"))
    } else if i == 6 {
        Some(ascii_bytes("http"))
    } else if i == 7 {
        Some(ascii_bytes("https"))
    } else if i == 8 {
        Some(ascii_bytes("200"))
    } else if i == 9 {
        Some(ascii_bytes("204"))
    } else if i == 10 {
        Some(ascii_bytes("206"))
    } else if i == 11 {
        Some(ascii_bytes("304"))
    } else if i == 12 {
        Some(ascii_bytes("400"))
    } else if i == 13 {
        Some(ascii_bytes("404"))
    } else if i == 14 {
        Some(ascii_bytes("500"))
    } else if i == 16 {
        Some(ascii_bytes("gzip, deflate"))
    } else {
        None
    }
}

/// First static index from `i` on whose regular name is `key`.
pub open spec fn static_find_other(key: Seq<u8>, i: int) -> Option<int>
    decreases 62 - i,
{
    if i < 15 || i > 61 {
        None
    } else if static_other_name(i) == key {
        Some(i)
    } else {
        static_find_other(key, i + 1)
    }
}

/// The static table position for a name and value: a full match where the
/// table has the pair, otherwise the first entry with the name.
pub open spec fn static_index(h: HName, v: Seq<u8>) -> Option<TableIndex> {
    match h {
        HName::Authority => Some(TableIndex::HeaderName(1)),
        HName::Method => if v == ascii_bytes("GET") {
            Some(TableIndex::Header(2))
        } else if v == ascii_bytes("POST") {
            Some(TableIndex::Header(3))
        } else {
            Some(TableIndex::HeaderName(2))
        },
        HName::Path => if v == ascii_bytes("/") {
            Some(TableIndex::Header(4))
        } else if v == ascii_bytes("/index.html") {
            Some(TableIndex::Header(5))
        } else {
            Some(TableIndex::HeaderName(4))
        },
        HName::Scheme => if v == ascii_bytes("http") {
            Some(TableIndex::Header(6))
        } else if v == ascii_bytes("https") {
            Some(TableIndex::Header(7))
        } else {
            Some(TableIndex::HeaderName(6))
        },
        HName::Status => if v == ascii_bytes("200") {
            Some(TableIndex::Header(8))
        } else if v == ascii_bytes("204") {
            Some(TableIndex::Header(9))
        } else if v == ascii_bytes("206") {
            Some(TableIndex::Header(10))
        } else if v == ascii_bytes("304") {
            Some(TableIndex::Header(11))
        } else if v == ascii_bytes("400") {
            Some(TableIndex::Header(12))
        } else if v == ascii_bytes("404") {
            Some(TableIndex::Header(13))
        } else if v == ascii_bytes("500") {
            Some(TableIndex::Header(14))
        } else {
            Some(TableIndex::HeaderName(8))
        },
        HName::Other(key) => match static_find_other(key, 15) {
            Some(i) => if i == 16 && v == ascii_bytes("gzip, deflate") {
                Some(TableIndex::Header(16))
            } else {
                Some(TableIndex::HeaderName(i as usize))
            },
            None => None,
        },
    }
}

/// Compares bytes with an ASCII string.
fn eq_str(a: &[u8], s: &str) -> (r: bool)
    requires
        is_ascii(s),
    ensures
        r == (a@ == ascii_bytes(s)),
{
    let v = lit(s);
    bytes_eq(a, v.as_slice())
}

fn static_other_name_exec(i: usize) -> (r: Vec<u8>)
    requires
        15 <= i <= 61,
    ensures
        r@ == static_other_name(i as int),
{
    match i {
        15 => {
            proof { reveal_strlit("accept-charset"); }
            lit("accept-charset")
        },
        16 => {
            proof { reveal_strlit("accept-encoding"); }
            lit("accept-encoding")
        },
        17 => {
            proof { reveal_strlit("accept-language"); }
            lit("accept-language")
        },
        18 => {
            proof { reveal_strlit("accept-ranges"); }
            lit("accept-ranges")
        },
        19 => {
            proof { reveal_strlit("accept"); }
            lit("accept")
        },
        20 => {
            proof { reveal_strlit("access-control-allow-origin"); }
            lit("access-control-allow-origin")
        },
        21 => {
            proof { reveal_strlit("age"); }
            lit("age")
        },
        22 => {
            proof { reveal_strlit("allow"); }
            lit("allow")
        },
        23 => {
            proof { reveal_strlit("authorization"); }
            lit("authorization")
        },
        24 => {
            proof { reveal_strlit("cache-control"); }
            lit("cache-control")
        },
        25 => {
            proof { reveal_strlit("content-disposition"); }
            lit("content-disposition")
        },
        26 => {
            proof { reveal_strlit("content-encoding"); }
            lit("content-encoding")
        },
        27 => {
            proof { reveal_strlit("content-language"); }
            lit("content-language")
        },
        28 => {
            proof { reveal_strlit("content-length"); }
            lit("content-length")
        },
        29 => {
            proof { reveal_strlit("content-location"); }
            lit("content-location")
        },
        30 => {
            proof { reveal_strlit("content-range"); }
            lit("content-range")
        },
        31 => {
            proof { reveal_strlit("content-type"); }
            lit("content-type")
        },
        32 => {
            proof { reveal_strlit("cookie"); }
            lit("cookie")
        },
        33 => {
            proof { reveal_strlit("date"); }
            lit("date")
        },
        34 => {
            proof { reveal_strlit("etag"); }
            lit("etag")
        },
        35 => {
            proof { reveal_strlit("expect"); }
            lit("expect")
        },
        36 => {
            proof { reveal_strlit("expires"); }
            lit("expires")
        },
        37 => {
            proof { reveal_strlit("from"); }
            lit("from")
        },
        38 => {
            proof { reveal_strlit("host"); }
            lit("host")
        },
        39 => {
            proof { reveal_strlit("if-match"); }
            lit("if-match")
        },
        40 => {
            proof { reveal_strlit("if-modified-since"); }
            lit("if-modified-since")
        },
        41 => {
            proof { reveal_strlit("if-none-match"); }
            lit("if-none-match")
        },
        42 => {
            proof { reveal_strlit("if-range"); }
            lit("if-range")
        },
        43 => {
            proof { reveal_strlit("if-unmodified-since"); }
            lit("if-unmodified-since")
        },
        44 => {
            proof { reveal_strlit("last-modified"); }
            lit("last-modified")
        },
        45 => {
            proof { reveal_strlit("link"); }
            lit("link")
        },
        46 => {
            proof { reveal_strlit("location"); }
            lit("location")
        },
        47 => {
            proof { reveal_strlit("max-forwards"); }
            lit("max-forwards")
        },
        48 => {
            proof { reveal_strlit("proxy-authenticate"); }
            lit("proxy-authenticate")
        },
        49 => {
            proof { reveal_strlit("proxy-authorization"); }
            lit("proxy-authorization")
        },
        50 => {
            proof { reveal_strlit("range"); }
            lit("range")
        },
        51 => {
            proof { reveal_strlit("referer"); }
            lit("referer")
        },
        52 => {
            proof { reveal_strlit("refresh"); }
            lit("refresh")
        },
        53 => {
            proof { reveal_strlit("retry-after"); }
            lit("retry-after")
        },
        54 => {
            proof { reveal_strlit("server"); }
            lit("server")
        },
        55 => {
            proof { reveal_strlit("set-cookie"); }
            lit("set-cookie")
        },
        56 => {
            proof { reveal_strlit("strict-transport-security"); }
            lit("strict-transport-security")
        },
        57 => {
            proof { reveal_strlit("transfer-encoding"); }
            lit("transfer-encoding")
        },
        58 => {
            proof { reveal_strlit("user-agent"); }
            lit("user-agent")
        },
        59 => {
            proof { reveal_strlit("vary"); }
            lit("vary")
        },
        60 => {
            proof { reveal_strlit("via"); }
            lit("via")
        },
        61 => {
            proof { reveal_strlit("www-authenticate"); }
            lit("www-authenticate")
        },
        _ => Vec::new(),
    }
}

/// The static table of HPACK (RFC 7541, appendix A).
pub struct StaticTable;

impl StaticTable {
    /// Gets the name of the static entry at `index`.
    pub fn header_name(index: usize) -> (r: Option<Header>)
        ensures
            r is Some <==> static_name(index as int) is Some,
            r matches Some(h) ==> h@ == static_name(index as int)->0,
    {
        if index == 1 {
            Some(Header::Authority)
        } else if 2 <= index && index <= 3 {
            Some(Header::Method)
        } else if 4 <= index && index <= 5 {
            Some(Header::Path)
        } else if 6 <= index && index <= 7 {
            Some(Header::Scheme)
        } else if 8 <= index && index <= 14 {
            Some(Header::Status)
        } else if 15 <= index && index <= 61 {
            Some(Header::Other(static_other_name_exec(index)))
        } else {
            None
        }
    }

    /// Gets the name and value of the static entry at `index`, for the
    /// entries that carry a value.
    pub fn header(index: usize) -> (r: Option<(Header, Vec<u8>)>)
        ensures
            r is Some <==> static_value(index as int) is Some,
            r matches Some(p) ==> Some(p.0@) == static_name(index as int)
                && Some(p.1@) == static_value(index as int),
    {
        proof {
            reveal_strlit("GET");
            reveal_strlit("POST");
            reveal_strlit("/");
            reveal_strlit("/index.html");
            reveal_strlit("http");
            reveal_strlit("https");
            reveal_strlit("200");
            reveal_strlit("204");
            reveal_strlit("206");
            reveal_strlit("304");
            reveal_strlit("400");
            reveal_strlit("404");
            reveal_strlit("500");
            reveal_strlit("gzip, deflate");
        }
        match index {
            2 => Some((Header::Method, lit("GET"))),
            3 => Some((Header::Method, lit("POST"))),
            4 => Some((Header::Path, lit("/"))),
            5 => Some((Header::Path, lit("/index.html"))),
            6 => Some((Header::Scheme, lit("http"))),
            7 => Some((Header::Scheme, lit("https"))),
            8 => Some((Header::Status, lit("200"))),
            9 => Some((Header::Status, lit("204"))),
            10 => Some((Header::Status, lit("206"))),
            11 => Some((Header::Status, lit("304"))),
            12 => Some((Header::Status, lit("400"))),
            13 => Some((Header::Status, lit("404"))),
            14 => Some((Header::Status, lit("500"))),
            16 => Some((Header::Other(static_other_name_exec(16)), lit("gzip, deflate"))),
            _ => None,
        }
    }

    /// Finds the static table position for a name and value.
    pub fn index(header: &Header, value: &[u8]) -> (r: Option<TableIndex>)
        ensures
            r == static_index(header@, value@),
    {
        proof {
            reveal_strlit("GET");
            reveal_strlit("POST");
            reveal_strlit("/");
            reveal_strlit("/index.html");
            reveal_strlit("http");
            reveal_strlit("https");
            reveal_strlit("200");
            reveal_strlit("204");
            reveal_strlit("206");
            reveal_strlit("304");
            reveal_strlit("400");
            reveal_strlit("404");
            reveal_strlit("500");
        }
        match header {
            Header::Authority => Some(TableIndex::HeaderName(1)),
            Header::Method => if eq_str(value, "GET") {
                Some(TableIndex::Header(2))
            } else if eq_str(value, "POST") {
                Some(TableIndex::Header(3))
            } else {
                Some(TableIndex::HeaderName(2))
            },
            Header::Path => if eq_str(value, "/") {
                Some(TableIndex::Header(4))
            } else if eq_str(value, "/index.html") {
                Some(TableIndex::Header(5))
            } else {
                Some(TableIndex::HeaderName(4))
            },
            Header::Scheme => if eq_str(value, "http") {
                Some(TableIndex::Header(6))
            } else if eq_str(value, "https") {
                Some(TableIndex::Header(7))
            } else {
                Some(TableIndex::HeaderName(6))
            },
            Header::Status => if eq_str(value, "200") {
                Some(TableIndex::Header(8))
            } else if eq_str(value, "204") {
                Some(TableIndex::Header(9))
            } else if eq_str(value, "206") {
                Some(TableIndex::Header(10))
            } else if eq_str(value, "304") {
                Some(TableIndex::Header(11))
            } else if eq_str(value, "400") {
                Some(TableIndex::Header(12))
            } else if eq_str(value, "404") {
                Some(TableIndex::Header(13))
            } else if eq_str(value, "500") {
                Some(TableIndex::Header(14))
            } else {
                Some(TableIndex::HeaderName(8))
            },
            Header::Other(key) => Self::index_headers(key.as_slice(), value),
        }
    }

    fn index_headers(key: &[u8], value: &[u8]) -> (r: Option<TableIndex>)
        ensures
            r == static_index(HName::Other(key@), value@),
    {
        let mut i: usize = 15;
        while i <= 61
            invariant
                15 <= i <= 62,
                static_find_other(key@, 15) == static_find_other(key@, i as int),
            decreases 62 - i,
        {
            let name = static_other_name_exec(i);
            if bytes_eq(key, name.as_slice()) {
                if i == 16 {
                    proof { reveal_strlit("gzip, deflate"); }
                    if eq_str(value, "gzip, deflate") {
                        return Some(TableIndex::Header(16));
                    }
                }
                return Some(TableIndex::HeaderName(i));
            }
            i = i + 1;
        }
        None
    }
}

/// Searches both tables: static indices are 1 to 61, dynamic entries follow
/// from 62 on.
pub struct TableSearcher<'a> {
    dynamic: &'a DynamicTable,
}

/// The name at a combined table index.
pub open spec fn search_name(dynamic: Seq<(HName, Seq<u8>)>, index: int) -> Option<HName> {
    if index <= 61 {
        static_name(index)
    } else if index - 62 < dynamic.len() {
        Some(dynamic[index - 62].0)
    } else {
        None
    }
}

/// The name and value at a combined table index.
pub open spec fn search_pair(dynamic: Seq<(HName, Seq<u8>)>, index: int) -> Option<(HName, Seq<u8>)> {
    if index <= 61 {
        match static_value(index) {
            Some(v) => Some((static_name(index)->0, v)),
            None => None,
        }
    } else if index - 62 < dynamic.len() {
        Some(dynamic[index - 62])
    } else {
        None
    }
}

/// The combined table position for a name and value.
pub open spec fn combined_index(dynamic: Seq<(HName, Seq<u8>)>, h: HName, v: Seq<u8>) -> Option<TableIndex> {
    let s = static_index(h, v);
    let d = dynamic_index(dynamic, h, v);
    match (s, d) {
        (Some(TableIndex::Header(x)), _) => Some(TableIndex::Header(x)),
        (_, Some(TableIndex::Header(i))) => Some(TableIndex::Header((i + 62) as usize)),
        (Some(TableIndex::HeaderName(x)), _) => Some(TableIndex::HeaderName(x)),
        (_, Some(TableIndex::HeaderName(i))) => Some(TableIndex::HeaderName((i + 62) as usize)),
        _ => None,
    }
}

impl<'a> TableSearcher<'a> {
    /// The dynamic table searched.
    pub closed spec fn table(&self) -> &'a DynamicTable {
        self.dynamic
    }

    /// Creates a searcher over the static table and `dynamic`.
    pub fn new(dynamic: &'a DynamicTable) -> (r: TableSearcher<'a>)
        ensures
            r.table() == dynamic,
    {
        TableSearcher { dynamic }
    }

    /// Gets the name at a combined index.
    pub fn search_header_name(&self, index: usize) -> (r: Option<Header>)
        ensures
            r is Some <==> search_name(self.table().entries(), index as int) is Some,
            r matches Some(h) ==> h@ == search_name(self.table().entries(), index as int)->0,
    {
        if index <= 61 {
            StaticTable::header_name(index)
        } else {
            self.dynamic.header_name(index - 62)
        }
    }

    /// Gets the name and value at a combined index.
    pub fn search_header(&self, index: usize) -> (r: Option<(Header, Vec<u8>)>)
        ensures
            r is Some <==> search_pair(self.table().entries(), index as int) is Some,
            r matches Some(p) ==> (p.0@, p.1@) == search_pair(self.table().entries(), index as int)->0,
    {
        if index <= 61 {
            StaticTable::header(index)
        } else {
            self.dynamic.header(index - 62)
        }
    }

    /// Finds the combined position for a name and value.
    pub fn index(&self, header: &Header, value: &[u8]) -> (r: Option<TableIndex>)
        requires
            self.table().entries().len() + 62 <= usize::MAX,
        ensures
            r == combined_index(self.table().entries(), header@, value@),
    {
        let s = StaticTable::index(header, value);
        let d = self.dynamic.index(header, value);
        proof {
            lemma_find_bounds(self.table().entries(), header@, value@);
        }
        match (s, d) {
            (Some(TableIndex::Header(x)), _) => Some(TableIndex::Header(x)),
            (_, Some(TableIndex::Header(i))) => Some(TableIndex::Header(i + 62)),
            (Some(TableIndex::HeaderName(x)), _) => Some(TableIndex::HeaderName(x)),
            (_, Some(TableIndex::HeaderName(i))) => Some(TableIndex::HeaderName(i + 62)),
            _ => None,
        }
    }
}

/// Found positions lie within the list.
pub proof fn lemma_find_bounds(es: Seq<(HName, Seq<u8>)>, h: HName, v: Seq<u8>)
    ensures
        dynamic_index(es, h, v) matches Some(TableIndex::Header(i)) ==> i < es.len(),
        dynamic_index(es, h, v) matches Some(TableIndex::HeaderName(i)) ==> i < es.len(),
{
    lemma_find_entry_bounds(es, h, v, 0);
    lemma_find_hname_bounds(es, h, 0);
}

proof fn lemma_find_entry_bounds(es: Seq<(HName, Seq<u8>)>, h: HName, v: Seq<u8>, i: int)
    ensures
        find_entry(es, h, v, i) matches Some(k) ==> i <= k < es.len(),
    decreases es.len() - i,
{
    if 0 <= i < es.len() && es[i] != (h, v) {
        lemma_find_entry_bounds(es, h, v, i + 1);
    }
}

proof fn lemma_find_hname_bounds(es: Seq<(HName, Seq<u8>)>, h: HName, i: int)
    ensures
        find_hname(es, h, i) matches Some(k) ==> i <= k < es.len(),
    decreases es.len() - i,
{
    if 0 <= i < es.len() && es[i].0 != h {
        lemma_find_hname_bounds(es, h, i + 1);
    }
}


/// The static table is the one of RFC 7541, Appendix A: for each index from
/// 1 to 61 its name, and its value where it has one; and the encoder finds
/// each entry with a value at its index.
pub proof fn lemma_static_table_rfc()
    ensures
        static_name(1) == Some(HName::Authority),
        static_name(2) == Some(HName::Method),
        static_name(3) == Some(HName::Method),
        static_name(4) == Some(HName::Path),
        static_name(5) == Some(HName::Path),
        static_name(6) == Some(HName::Scheme),
        static_name(7) == Some(HName::Scheme),
        static_name(8) == Some(HName::Status),
        static_name(9) == Some(HName::Status),
        static_name(10) == Some(HName::Status),
        static_name(11) == Some(HName::Status),
        static_name(12) == Some(HName::Status),
        static_name(13) == Some(HName::Status),
        static_name(14) == Some(HName::Status),
        static_name(15) == Some(HName::Other(ascii_bytes("accept-charset"))),
        static_name(16) == Some(HName::Other(ascii_bytes("accept-encoding"))),
        static_name(17) == Some(HName::Other(ascii_bytes("accept-language"))),
        static_name(18) == Some(HName::Other(ascii_bytes("accept-ranges"))),
        static_name(19) == Some(HName::Other(ascii_bytes("accept"))),
        static_name(20) == Some(HName::Other(ascii_bytes("access-control-allow-origin"))),
        static_name(21) == Some(HName::Other(ascii_bytes("age"))),
        static_name(22) == Some(HName::Other(ascii_bytes("allow"))),
        static_name(23) == Some(HName::Other(ascii_bytes("authorization"))),
        static_name(24) == Some(HName::Other(ascii_bytes("cache-control"))),
        static_name(25) == Some(HName::Other(ascii_bytes("content-disposition"))),
        static_name(26) == Some(HName::Other(ascii_bytes("content-encoding"))),
        static_name(27) == Some(HName::Other(ascii_bytes("content-language"))),
        static_name(28) == Some(HName::Other(ascii_bytes("content-length"))),
        static_name(29) == Some(HName::Other(ascii_bytes("content-location"))),
        static_name(30) == Some(HName::Other(ascii_bytes("content-range"))),
        static_name(31) == Some(HName::Other(ascii_bytes("content-type"))),
        static_name(32) == Some(HName::Other(ascii_bytes("cookie"))),
        static_name(33) == Some(HName::Other(ascii_bytes("date"))),
        static_name(34) == Some(HName::Other(ascii_bytes("etag"))),
        static_name(35) == Some(HName::Other(ascii_bytes("expect"))),
        static_name(36) == Some(HName::Other(ascii_bytes("expires"))),
        static_name(37) == Some(HName::Other(ascii_bytes("from"))),
        static_name(38) == Some(HName::Other(ascii_bytes("host"))),
        static_name(39) == Some(HName::Other(ascii_bytes("if-match"))),
        static_name(40) == Some(HName::Other(ascii_bytes("if-modified-since"))),
        static_name(41) == Some(HName::Other(ascii_bytes("if-none-match"))),
        static_name(42) == Some(HName::Other(ascii_bytes("if-range"))),
        static_name(43) == Some(HName::Other(ascii_bytes("if-unmodified-since"))),
        static_name(44) == Some(HName::Other(ascii_bytes("last-modified"))),
        static_name(45) == Some(HName::Other(ascii_bytes("link"))),
        static_name(46) == Some(HName::Other(ascii_bytes("location"))),
        static_name(47) == Some(HName::Other(ascii_bytes("max-forwards"))),
        static_name(48) == Some(HName::Other(ascii_bytes("proxy-authenticate"))),
        static_name(49) == Some(HName::Other(ascii_bytes("proxy-authorization"))),
        static_name(50) == Some(HName::Other(ascii_bytes("range"))),
        static_name(51) == Some(HName::Other(ascii_bytes("referer"))),
        static_name(52) == Some(HName::Other(ascii_bytes("refresh"))),
        static_name(53) == Some(HName::Other(ascii_bytes("retry-after"))),
        static_name(54) == Some(HName::Other(ascii_bytes("server"))),
        static_name(55) == Some(HName::Other(ascii_bytes("set-cookie"))),
        static_name(56) == Some(HName::Other(ascii_bytes("strict-transport-security"))),
        static_name(57) == Some(HName::Other(ascii_bytes("transfer-encoding"))),
        static_name(58) == Some(HName::Other(ascii_bytes("user-agent"))),
        static_name(59) == Some(HName::Other(ascii_bytes("vary"))),
        static_name(60) == Some(HName::Other(ascii_bytes("via"))),
        static_name(61) == Some(HName::Other(ascii_bytes("www-authenticate"))),
        static_value(1) is None,
        static_value(2) == Some(ascii_bytes("GET")),
        static_value(3) == Some(ascii_bytes("POST")),
        static_value(4) == Some(ascii_bytes("/")),
        static_value(5) == Some(ascii_bytes("/index.html")),
        static_value(6) == Some(ascii_bytes("http")),
        static_value(7) == Some(ascii_bytes("https")),
        static_value(8) == Some(ascii_bytes("200")),
        static_value(9) == Some(ascii_bytes("204")),
        static_value(10) == Some(ascii_bytes("206")),
        static_value(11) == Some(ascii_bytes("304")),
        static_value(12) == Some(ascii_bytes("400")),
        static_value(13) == Some(ascii_bytes("404")),
        static_value(14) == Some(ascii_bytes("500")),
        static_value(15) is None,
        static_value(16) == Some(ascii_bytes("gzip, deflate")),
        static_value(17) is None,
        static_value(18) is None,
        static_value(19) is None,
        static_value(20) is None,
        static_value(21) is None,
        static_value(22) is None,
        static_value(23) is None,
        static_value(24) is None,
        static_value(25) is None,
        static_value(26) is None,
        static_value(27) is None,
        static_value(28) is None,
        static_value(29) is None,
        static_value(30) is None,
        static_value(31) is None,
        static_value(32) is None,
        static_value(33) is None,
        static_value(34) is None,
        static_value(35) is None,
        static_value(36) is None,
        static_value(37) is None,
        static_value(38) is None,
        static_value(39) is None,
        static_value(40) is None,
        static_value(41) is None,
        static_value(42) is None,
        static_value(43) is None,
        static_value(44) is None,
        static_value(45) is None,
        static_value(46) is None,
        static_value(47) is None,
        static_value(48) is None,
        static_value(49) is None,
        static_value(50) is None,
        static_value(51) is None,
        static_value(52) is None,
        static_value(53) is None,
        static_value(54) is None,
        static_value(55) is None,
        static_value(56) is None,
        static_value(57) is None,
        static_value(58) is None,
        static_value(59) is None,
        static_value(60) is None,
        static_value(61) is None,
        static_index(HName::Method, ascii_bytes("GET")) == Some(TableIndex::Header(2)),
        static_index(HName::Method, ascii_bytes("POST")) == Some(TableIndex::Header(3)),
        static_index(HName::Path, ascii_bytes("/")) == Some(TableIndex::Header(4)),
        static_index(HName::Path, ascii_bytes("/index.html")) == Some(TableIndex::Header(5)),
        static_index(HName::Scheme, ascii_bytes("http")) == Some(TableIndex::Header(6)),
        static_index(HName::Scheme, ascii_bytes("https")) == Some(TableIndex::Header(7)),
        static_index(HName::Status, ascii_bytes("200")) == Some(TableIndex::Header(8)),
        static_index(HName::Status, ascii_bytes("204")) == Some(TableIndex::Header(9)),
        static_index(HName::Status, ascii_bytes("206")) == Some(TableIndex::Header(10)),
        static_index(HName::Status, ascii_bytes("304")) == Some(TableIndex::Header(11)),
        static_index(HName::Status, ascii_bytes("400")) == Some(TableIndex::Header(12)),
        static_index(HName::Status, ascii_bytes("404")) == Some(TableIndex::Header(13)),
        static_index(HName::Status, ascii_bytes("500")) == Some(TableIndex::Header(14)),
        static_index(HName::Other(ascii_bytes("accept-encoding")), ascii_bytes("gzip, deflate")) == Some(TableIndex::Header(16)),
{
    reveal_strlit("/");
    reveal_strlit("/index.html");
    reveal_strlit("200");
    reveal_strlit("204");
    reveal_strlit("206");
    reveal_strlit("304");
    reveal_strlit("400");
    reveal_strlit("404");
    reveal_strlit("500");
    reveal_strlit("GET");
    reveal_strlit("POST");
    reveal_strlit("accept");
    reveal_strlit("accept-charset");
    reveal_strlit("accept-encoding");
    reveal_strlit("accept-language");
    reveal_strlit("accept-ranges");
    reveal_strlit("access-control-allow-origin");
    reveal_strlit("age");
    reveal_strlit("allow");
    reveal_strlit("authorization");
    reveal_strlit("cache-control");
    reveal_strlit("content-disposition");
    reveal_strlit("content-encoding");
    reveal_strlit("content-language");
    reveal_strlit("content-length");
    reveal_strlit("content-location");
    reveal_strlit("content-range");
    reveal_strlit("content-type");
    reveal_strlit("cookie");
    reveal_strlit("date");
    reveal_strlit("etag");
    reveal_strlit("expect");
    reveal_strlit("expires");
    reveal_strlit("from");
    reveal_strlit("gzip, deflate");
    reveal_strlit("host");
    reveal_strlit("http");
    reveal_strlit("https");
    reveal_strlit("if-match");
    reveal_strlit("if-modified-since");
    reveal_strlit("if-none-match");
    reveal_strlit("if-range");
    reveal_strlit("if-unmodified-since");
    reveal_strlit("last-modified");
    reveal_strlit("link");
    reveal_strlit("location");
    reveal_strlit("max-forwards");
    reveal_strlit("proxy-authenticate");
    reveal_strlit("proxy-authorization");
    reveal_strlit("range");
    reveal_strlit("referer");
    reveal_strlit("refresh");
    reveal_strlit("retry-after");
    reveal_strlit("server");
    reveal_strlit("set-cookie");
    reveal_strlit("strict-transport-security");
    reveal_strlit("transfer-encoding");
    reveal_strlit("user-agent");
    reveal_strlit("vary");
    reveal_strlit("via");
    reveal_strlit("www-authenticate");
    assert(ascii_bytes("POST")[0] != ascii_bytes("GET")[0]);
    assert(ascii_bytes("/index.html")[1] != ascii_bytes("/")[0] || ascii_bytes("/index.html").len() != ascii_bytes("/").len());
    assert(ascii_bytes("https").len() != ascii_bytes("http").len());
    assert(ascii_bytes("accept-charset").len() != ascii_bytes("accept-encoding").len());
    assert(static_find_other(ascii_bytes("accept-encoding"), 16) == Some(16int));
    assert(static_find_other(ascii_bytes("accept-encoding"), 15) == Some(16int));
    assert(ascii_bytes("204")[2] != ascii_bytes("200")[2]);
    assert(ascii_bytes("206")[2] != ascii_bytes("200")[2]);
    assert(ascii_bytes("206")[2] != ascii_bytes("204")[2]);
    assert(ascii_bytes("304")[0] != ascii_bytes("200")[0]);
    assert(ascii_bytes("304")[0] != ascii_bytes("204")[0]);
    assert(ascii_bytes("304")[0] != ascii_bytes("206")[0]);
    assert(ascii_bytes("400")[0] != ascii_bytes("200")[0]);
    assert(ascii_bytes("400")[0] != ascii_bytes("204")[0]);
    assert(ascii_bytes("400")[0] != ascii_bytes("206")[0]);
    assert(ascii_bytes("400")[0] != ascii_bytes("304")[0]);
    assert(ascii_bytes("404")[0] != ascii_bytes("200")[0]);
    assert(ascii_bytes("404")[0] != ascii_bytes("204")[0]);
    assert(ascii_bytes("404")[0] != ascii_bytes("206")[0]);
    assert(ascii_bytes("404")[0] != ascii_bytes("304")[0]);
    assert(ascii_bytes("404")[2] != ascii_bytes("400")[2]);
    assert(ascii_bytes("500")[0] != ascii_bytes("200")[0]);
    assert(ascii_bytes("500")[0] != ascii_bytes("204")[0]);
    assert(ascii_bytes("500")[0] != ascii_bytes("206")[0]);
    assert(ascii_bytes("500")[0] != ascii_bytes("304")[0]);
    assert(ascii_bytes("500")[0] != ascii_bytes("400")[0]);
    assert(ascii_bytes("500")[0] != ascii_bytes("404")[0]);
}

/// The first static entry from `i` on with a regular name `key`, and none
/// before it.
proof fn lemma_find_other(key: Seq<u8>, i: int)
    requires
        15 <= i,
    ensures
        static_find_other(key, i) matches Some(k) ==> (i <= k <= 61 && static_other_name(k) == key
            && forall|j: int| i <= j < k ==> static_other_name(j) != key),
        static_find_other(key, i) is None ==> forall|j: int| i <= j <= 61 ==> static_other_name(j) != key,
    decreases 62 - i,
{
    if i <= 61 {
        lemma_find_other(key, i + 1);
    }
}

/// A static table lookup points at an entry that holds the field: a full
/// match at an entry with its name and value, a name match at the first
/// entry with its name; nothing is found only where no entry has the name.
pub proof fn lemma_static_index_entries(h: HName, v: Seq<u8>)
    ensures
        static_index(h, v) matches Some(TableIndex::Header(i)) ==> (static_name(i as int) == Some(h)
            && static_value(i as int) == Some(v)),
        static_index(h, v) matches Some(TableIndex::HeaderName(i)) ==> (static_name(i as int) == Some(h)
            && forall|j: int| 1 <= j < i ==> static_name(j) != Some(h)),
        static_index(h, v) is None ==> forall|j: int| 1 <= j <= 61 ==> static_name(j) != Some(h),
{
    if let HName::Other(key) = h {
        lemma_find_other(key, 15);
        assert forall|j: int| 15 <= j <= 61 && static_other_name(j) != key implies static_name(j) != Some(h) by {
            assert(static_name(j) == Some(HName::Other(static_other_name(j))));
        }
    }
}

} // verus!
