//! Media types (RFC 6838): parsing `type/subtype`, and the type of a file
//! extension.
use vstd::prelude::*;
use vstd::string::*;
use vstd::utf8::valid_utf8;
use crate::bytes::{bytes_eq, lower_byte};
use crate::error::{ErrorKind, HttpError};
use std::path::Path;

verus! {

/// Index of the last octet `c` of `s`, or -1 when it has none.
pub open spec fn last_of(s: Seq<u8>, c: u8) -> int
    decreases s.len(),
{
    if s.len() == 0 {
        -1
    } else if s.last() == c {
        s.len() - 1
    } else {
        last_of(s.drop_last(), c)
    }
}

/// Index of the last `.` of `s`, or -1 when it has none.
pub open spec fn last_dot(s: Seq<u8>) -> int {
    last_of(s, 0x2eu8)
}

/// A path that every platform splits at `/` alone: no `\` or `:` in it,
/// and it does not start with `//` (which Windows reads as a network
/// prefix).
pub open spec fn plain_path(s: Seq<u8>) -> bool {
    &&& !s.contains(0x5cu8)
    &&& !s.contains(0x3au8)
    &&& !(s.len() >= 2 && s[0] == 0x2fu8 && s[1] == 0x2fu8)
}

/// The file name of a path split at `/`: its last component, empty and
/// `.` components at its end skipped; none when there is no such
/// component, or when it is `..`.
pub open spec fn file_name(p: Seq<u8>) -> Option<Seq<u8>>
    decreases p.len(),
{
    if p.len() == 0 {
        None
    } else {
        let i = last_of(p, 0x2fu8);
        let seg = p.subrange(i + 1, p.len() as int);
        if seg.len() == 0 || seg == seq![0x2eu8] {
            if i < 0 {
                None
            } else {
                proof {
                    lemma_last_of_bounds(p, 0x2fu8);
                }
                file_name(p.subrange(0, i))
            }
        } else if seg == seq![0x2eu8, 0x2eu8] {
            None
        } else {
            Some(seg)
        }
    }
}

/// The last index of an octet lies within the sequence.
pub proof fn lemma_last_of_bounds(s: Seq<u8>, c: u8)
    ensures
        -1 <= last_of(s, c) < s.len(),
        last_of(s, c) >= 0 ==> s[last_of(s, c)] == c,
    decreases s.len(),
{
    if s.len() > 0 && s.last() != c {
        lemma_last_of_bounds(s.drop_last(), c);
    }
}

/// The extension of a file name: what follows its last `.`, when that dot
/// is not its first octet and the name is not `..`.
pub open spec fn ext_of_name(n: Seq<u8>) -> Option<Seq<u8>> {
    if n == seq![0x2eu8, 0x2eu8] || last_dot(n) <= 0 {
        None
    } else {
        Some(n.subrange(last_dot(n) + 1, n.len() as int))
    }
}

/// The extension of a path split at `/`: that of its file name.
pub open spec fn path_ext(p: Seq<u8>) -> Option<Seq<u8>> {
    match file_name(p) {
        Some(n) => ext_of_name(n),
        None => None,
    }
}

/// `m` is the media type that the extension `ext` stands for: its entry
/// in the extension table, or `application/octet-stream`.
pub open spec fn ext_type(m: MimeType, ext: Seq<u8>) -> bool {
    match extension_entry(ext) {
        Some((b, sl, t)) => m.bytes_spec() == b && m.slash_spec() == sl && m.tag_spec() == t,
        None => m.bytes_spec() == "application/octet-stream".spec_bytes() && m.slash_spec() == 11
            && m.tag_spec() == MimeTypeTag::Application,
    }
}

/// `Path::extension` of the path written `path`, read back as a `&str`.
/// The standard library documents the extension as the part of the file
/// name after its last `.`, and none when the path has no file name, when
/// the name has no `.`, or when its only `.` is its first character; and
/// the file name as the last component of the path, none when the path
/// ends in `..`, where `.` components and repeated or trailing separators
/// are not components. So an extension follows a `.` of the path and holds
/// no `.`; a path without a `.` has none; and for a path that every
/// platform splits at `/` alone ([`plain_path`]) it is [`path_ext`].
#[verifier::external_body]
fn path_extension(path: &str) -> (r: Option<&str>)
    ensures
        r matches Some(ext) ==> !ext.spec_bytes().contains(0x2eu8),
        r matches Some(ext) ==> exists|i: int|
            0 <= i && i + 1 + ext.spec_bytes().len() <= path.spec_bytes().len() && path.spec_bytes()[i] == 0x2eu8
                && #[trigger] path.spec_bytes().subrange(i + 1, i + 1 + ext.spec_bytes().len()) == ext.spec_bytes(),
        !path.spec_bytes().contains(0x2eu8) ==> r is None,
        plain_path(path.spec_bytes()) ==> match r {
            Some(ext) => path_ext(path.spec_bytes()) == Some(ext.spec_bytes()),
            None => path_ext(path.spec_bytes()) is None,
        },
{
    Path::new(path).extension().and_then(|e| e.to_str())
}

/// `std::str::from_utf8`: the text that `bytes` encode, borrowing them,
/// when they are valid UTF-8, and nothing otherwise (the standard library
/// documents that it fails exactly on invalid UTF-8).
#[verifier::external_body]
fn str_from_utf8(bytes: &[u8]) -> (r: Option<&str>)
    ensures
        r is Some <==> valid_utf8(bytes@),
        r matches Some(s) ==> s.spec_bytes() == bytes@,
{
    std::str::from_utf8(bytes).ok()
}

/// The text of octets that are valid UTF-8; empty otherwise.
fn text_of(bytes: &[u8]) -> (r: &str)
    ensures
        valid_utf8(bytes@) ==> r.spec_bytes() == bytes@,
{
    match str_from_utf8(bytes) {
        Some(s) => s,
        None => "",
    }
}

/// The top-level type of a media type.
#[derive(Debug, PartialEq, Eq, Structural, Clone, Copy)]
pub enum MimeTypeTag {
    /// `application`
    Application,
    /// `audio`
    Audio,
    /// `font`
    Font,
    /// `image`
    Image,
    /// `message`
    Message,
    /// `model`
    Model,
    /// `multipart`
    Multipart,
    /// `text`
    Text,
    /// `video`
    Video,
    /// A type outside the standard ones, beginning with `x-`.
    Xnew,
}

/// A media type: its top-level type, its octets, and where its `/` is.
#[derive(Debug, PartialEq, Eq)]
pub struct MimeType<'a> {
    tag: MimeTypeTag,
    bytes: &'a [u8],
    slash: usize,
}

/// A byte allowed in a type or subtype name: letters, digits and
/// `! # $ & + - . ^ _`.
pub open spec fn valid_byte(b: u8) -> bool {
    ||| 0x30 <= b <= 0x39
    ||| 0x41 <= b <= 0x5a
    ||| 0x61 <= b <= 0x7a
    ||| b == 0x21 || b == 0x23 || b == 0x24 || b == 0x26 || b == 0x2b || b == 0x2d || b == 0x2e || b == 0x5e || b == 0x5f
}

/// All bytes are allowed in a type or subtype name.
pub open spec fn all_valid(s: Seq<u8>) -> bool {
    forall|i: int| 0 <= i < s.len() ==> valid_byte(#[trigger] s[i])
}

/// Equal but for the case of ASCII letters.
pub open spec fn eq_ignore_case(a: Seq<u8>, b: Seq<u8>) -> bool {
    &&& a.len() == b.len()
    &&& forall|i: int| 0 <= i < a.len() ==> lower_byte(#[trigger] a[i]) == lower_byte(b[i])
}

/// The top-level type named by `b`, if it is one.
pub open spec fn tag_of(b: Seq<u8>) -> Option<MimeTypeTag> {
    if b.len() > 64 || b.len() < 2 {
        None
    } else {
        let c = lower_byte(b[0]);
        let t = b.subrange(1, b.len() as int);
        if c == 0x78 {
            if b[1] == 0x2d && all_valid(b.subrange(2, b.len() as int)) {
                Some(MimeTypeTag::Xnew)
            } else {
                None
            }
        } else if c == 0x61 {
            if eq_ignore_case(t, "pplication".spec_bytes()) {
                Some(MimeTypeTag::Application)
            } else if eq_ignore_case(t, "udio".spec_bytes()) {
                Some(MimeTypeTag::Audio)
            } else {
                None
            }
        } else if c == 0x66 {
            if eq_ignore_case(t, "ont".spec_bytes()) {
                Some(MimeTypeTag::Font)
            } else {
                None
            }
        } else if c == 0x69 {
            if eq_ignore_case(t, "mage".spec_bytes()) {
                Some(MimeTypeTag::Image)
            } else {
                None
            }
        } else if c == 0x6d {
            if eq_ignore_case(t, "essage".spec_bytes()) {
                Some(MimeTypeTag::Message)
            } else if eq_ignore_case(t, "odel".spec_bytes()) {
                Some(MimeTypeTag::Model)
            } else if eq_ignore_case(t, "ultipart".spec_bytes()) {
                Some(MimeTypeTag::Multipart)
            } else {
                None
            }
        } else if c == 0x74 {
            if eq_ignore_case(t, "ext".spec_bytes()) {
                Some(MimeTypeTag::Text)
            } else {
                None
            }
        } else if c == 0x76 {
            if eq_ignore_case(t, "ideo".spec_bytes()) {
                Some(MimeTypeTag::Video)
            } else {
                None
            }
        } else {
            None
        }
    }
}

/// Index of the first `/` in `b`.
pub open spec fn first_slash(b: Seq<u8>) -> Option<int> {
    if exists|i: int| 0 <= i < b.len() && b[i] == 0x2f && forall|j: int| 0 <= j < i ==> b[j] != 0x2f {
        Some(choose|i: int| 0 <= i < b.len() && b[i] == 0x2f && forall|j: int| 0 <= j < i ==> b[j] != 0x2f)
    } else {
        None
    }
}

/// Every octet is ASCII.
#[verifier::opaque]
pub open spec fn ascii_bytes(s: Seq<u8>) -> bool {
    forall|i: int| 0 <= i < s.len() ==> #[trigger] s[i] < 128
}

/// ASCII octets are valid UTF-8.
pub proof fn lemma_ascii_valid_utf8(s: Seq<u8>)
    requires
        ascii_bytes(s),
    ensures
        valid_utf8(s),
    decreases s.len(),
{
    reveal(ascii_bytes);
    if s.len() > 0 {
        let r = s.subrange(1, s.len() as int);
        assert(s[0] < 128);
        assert(ascii_bytes(r)) by {
            assert forall|i: int| 0 <= i < r.len() implies #[trigger] r[i] < 128 by {
                assert(r[i] == s[i + 1]);
            }
        }
        lemma_ascii_valid_utf8(r);
    }
}

/// A subrange of ASCII octets is ASCII.
proof fn lemma_ascii_sub(s: Seq<u8>, a: int, b: int)
    requires
        ascii_bytes(s),
        0 <= a <= b <= s.len(),
    ensures
        ascii_bytes(s.subrange(a, b)),
{
    reveal(ascii_bytes);
    assert forall|i: int| 0 <= i < b - a implies #[trigger] s.subrange(a, b)[i] < 128 by {
        assert(s.subrange(a, b)[i] == s[a + i]);
    }
}

/// Octets equal to ASCII octets but for the case of letters are ASCII.
proof fn lemma_ignore_case_ascii(t: Seq<u8>, l: Seq<u8>)
    requires
        eq_ignore_case(t, l),
        ascii_bytes(l),
    ensures
        ascii_bytes(t),
{
    reveal(ascii_bytes);
    assert forall|i: int| 0 <= i < t.len() implies #[trigger] t[i] < 128 by {
        assert(lower_byte(t[i]) == lower_byte(l[i]));
        assert(l[i] < 128);
    }
}

/// The names of the top-level types are ASCII.
proof fn lemma_tag_names_ascii()
    ensures
        ascii_bytes("pplication".spec_bytes()),
        ascii_bytes("udio".spec_bytes()),
        ascii_bytes("ont".spec_bytes()),
        ascii_bytes("mage".spec_bytes()),
        ascii_bytes("essage".spec_bytes()),
        ascii_bytes("odel".spec_bytes()),
        ascii_bytes("ultipart".spec_bytes()),
        ascii_bytes("ext".spec_bytes()),
        ascii_bytes("ideo".spec_bytes()),
{
    reveal(ascii_bytes);
    broadcast use vstd::string::is_ascii_spec_bytes;
    reveal_strlit("pplication");
    reveal_strlit("udio");
    reveal_strlit("ont");
    reveal_strlit("mage");
    reveal_strlit("essage");
    reveal_strlit("odel");
    reveal_strlit("ultipart");
    reveal_strlit("ext");
    reveal_strlit("ideo");
    assert(is_ascii("pplication"));
    assert(is_ascii("udio"));
    assert(is_ascii("ont"));
    assert(is_ascii("mage"));
    assert(is_ascii("essage"));
    assert(is_ascii("odel"));
    assert(is_ascii("ultipart"));
    assert(is_ascii("ext"));
    assert(is_ascii("ideo"));
}

/// A top-level type name that parses is ASCII.
proof fn lemma_tag_ascii(b: Seq<u8>)
    requires
        tag_of(b) is Some,
    ensures
        ascii_bytes(b),
{
    reveal(ascii_bytes);
    lemma_tag_names_ascii();
    let t = b.subrange(1, b.len() as int);
    let c = lower_byte(b[0]);
    assert(b[0] < 128);
    if c == 0x78 {
        let r = b.subrange(2, b.len() as int);
        assert forall|i: int| 0 <= i < b.len() implies #[trigger] b[i] < 128 by {
            if i >= 2 {
                assert(b[i] == r[i - 2]);
                assert(valid_byte(r[i - 2]));
            }
        }
    } else {
        if c == 0x61 {
            if eq_ignore_case(t, "pplication".spec_bytes()) {
                lemma_ignore_case_ascii(t, "pplication".spec_bytes());
            } else {
                lemma_ignore_case_ascii(t, "udio".spec_bytes());
            }
        } else if c == 0x66 {
            lemma_ignore_case_ascii(t, "ont".spec_bytes());
        } else if c == 0x69 {
            lemma_ignore_case_ascii(t, "mage".spec_bytes());
        } else if c == 0x6d {
            if eq_ignore_case(t, "essage".spec_bytes()) {
                lemma_ignore_case_ascii(t, "essage".spec_bytes());
            } else if eq_ignore_case(t, "odel".spec_bytes()) {
                lemma_ignore_case_ascii(t, "odel".spec_bytes());
            } else {
                lemma_ignore_case_ascii(t, "ultipart".spec_bytes());
            }
        } else if c == 0x74 {
            lemma_ignore_case_ascii(t, "ext".spec_bytes());
        } else {
            lemma_ignore_case_ascii(t, "ideo".spec_bytes());
        }
        assert forall|i: int| 0 <= i < b.len() implies #[trigger] b[i] < 128 by {
            if i >= 1 {
                assert(b[i] == t[i - 1]);
            }
        }
    }
}

/// A media type that parses is ASCII, so valid UTF-8, and so are its
/// top-level type and subtype around its first `/`.
pub proof fn lemma_parsed_mime_ascii(b: Seq<u8>)
    requires
        mime_of(b) is Some,
    ensures
        ascii_bytes(b),
        mime_of(b)->Some_0.1 < b.len(),
        valid_utf8(b),
        valid_utf8(b.subrange(0, mime_of(b)->Some_0.1 as int)),
        valid_utf8(b.subrange(mime_of(b)->Some_0.1 + 1int, b.len() as int)),
{
    reveal(ascii_bytes);
    let s = first_slash(b)->Some_0;
    let head = b.subrange(0, s);
    let sub = b.subrange(s + 1, b.len() as int);
    lemma_tag_ascii(head);
    assert forall|i: int| 0 <= i < b.len() implies #[trigger] b[i] < 128 by {
        if i < s {
            assert(b[i] == head[i]);
        } else if i > s {
            assert(b[i] == sub[i - s - 1]);
            assert(valid_byte(sub[i - s - 1]));
        }
    }
    lemma_ascii_valid_utf8(b);
    lemma_ascii_sub(b, 0, s);
    lemma_ascii_valid_utf8(head);
    lemma_ascii_sub(b, s + 1, b.len() as int);
    lemma_ascii_valid_utf8(sub);
}

/// The media types of the extension table are ASCII.
proof fn lemma_table_types_ascii()
    ensures
        ascii_bytes("application/envoy".spec_bytes()) && "application/envoy".spec_bytes().len() == 17,
        ascii_bytes("application/fractals".spec_bytes()) && "application/fractals".spec_bytes().len() == 20,
        ascii_bytes("application/futuresplash".spec_bytes()) && "application/futuresplash".spec_bytes().len() == 24,
        ascii_bytes("application/hta".spec_bytes()) && "application/hta".spec_bytes().len() == 15,
        ascii_bytes("application/internet-property-stream".spec_bytes()) && "application/internet-property-stream".spec_bytes().len() == 36,
        ascii_bytes("application/mac-binhex40".spec_bytes()) && "application/mac-binhex40".spec_bytes().len() == 24,
        ascii_bytes("application/msword".spec_bytes()) && "application/msword".spec_bytes().len() == 18,
        ascii_bytes("application/octet-stream".spec_bytes()) && "application/octet-stream".spec_bytes().len() == 24,
        ascii_bytes("application/oda".spec_bytes()) && "application/oda".spec_bytes().len() == 15,
        ascii_bytes("application/olescript".spec_bytes()) && "application/olescript".spec_bytes().len() == 21,
        ascii_bytes("application/pdf".spec_bytes()) && "application/pdf".spec_bytes().len() == 15,
        ascii_bytes("application/pics-rules".spec_bytes()) && "application/pics-rules".spec_bytes().len() == 22,
        ascii_bytes("application/pkcs10".spec_bytes()) && "application/pkcs10".spec_bytes().len() == 18,
        ascii_bytes("application/pkix-crl".spec_bytes()) && "application/pkix-crl".spec_bytes().len() == 20,
        ascii_bytes("application/postscript".spec_bytes()) && "application/postscript".spec_bytes().len() == 22,
        ascii_bytes("application/rtf".spec_bytes()) && "application/rtf".spec_bytes().len() == 15,
        ascii_bytes("application/set-payment-initiation".spec_bytes()) && "application/set-payment-initiation".spec_bytes().len() == 34,
        ascii_bytes("application/set-registration-initiation".spec_bytes()) && "application/set-registration-initiation".spec_bytes().len() == 39,
        ascii_bytes("application/vnd.ms-excel".spec_bytes()) && "application/vnd.ms-excel".spec_bytes().len() == 24,
        ascii_bytes("application/vnd.ms-outlook".spec_bytes()) && "application/vnd.ms-outlook".spec_bytes().len() == 26,
        ascii_bytes("application/vnd.ms-pkicertstore".spec_bytes()) && "application/vnd.ms-pkicertstore".spec_bytes().len() == 31,
        ascii_bytes("application/vnd.ms-pkiseccat".spec_bytes()) && "application/vnd.ms-pkiseccat".spec_bytes().len() == 28,
        ascii_bytes("application/vnd.ms-pkistl".spec_bytes()) && "application/vnd.ms-pkistl".spec_bytes().len() == 25,
        ascii_bytes("application/vnd.ms-powerpoint".spec_bytes()) && "application/vnd.ms-powerpoint".spec_bytes().len() == 29,
        ascii_bytes("application/vnd.ms-project".spec_bytes()) && "application/vnd.ms-project".spec_bytes().len() == 26,
        ascii_bytes("application/vnd.ms-works".spec_bytes()) && "application/vnd.ms-works".spec_bytes().len() == 24,
        ascii_bytes("application/winhlp".spec_bytes()) && "application/winhlp".spec_bytes().len() == 18,
        ascii_bytes("application/x-bcpio".spec_bytes()) && "application/x-bcpio".spec_bytes().len() == 19,
        ascii_bytes("application/x-cdf".spec_bytes()) && "application/x-cdf".spec_bytes().len() == 17,
        ascii_bytes("application/x-compress".spec_bytes()) && "application/x-compress".spec_bytes().len() == 22,
        ascii_bytes("application/x-compressed".spec_bytes()) && "application/x-compressed".spec_bytes().len() == 24,
        ascii_bytes("application/x-cpio".spec_bytes()) && "application/x-cpio".spec_bytes().len() == 18,
        ascii_bytes("application/x-csh".spec_bytes()) && "application/x-csh".spec_bytes().len() == 17,
        ascii_bytes("application/x-director".spec_bytes()) && "application/x-director".spec_bytes().len() == 22,
        ascii_bytes("application/x-dvi".spec_bytes()) && "application/x-dvi".spec_bytes().len() == 17,
        ascii_bytes("application/x-gtar".spec_bytes()) && "application/x-gtar".spec_bytes().len() == 18,
        ascii_bytes("application/x-gzip".spec_bytes()) && "application/x-gzip".spec_bytes().len() == 18,
        ascii_bytes("application/x-hdf".spec_bytes()) && "application/x-hdf".spec_bytes().len() == 17,
        ascii_bytes("application/x-internet-signup".spec_bytes()) && "application/x-internet-signup".spec_bytes().len() == 29,
        ascii_bytes("application/x-iphone".spec_bytes()) && "application/x-iphone".spec_bytes().len() == 20,
        ascii_bytes("application/x-javascript".spec_bytes()) && "application/x-javascript".spec_bytes().len() == 24,
        ascii_bytes("application/x-latex".spec_bytes()) && "application/x-latex".spec_bytes().len() == 19,
        ascii_bytes("application/x-msaccess".spec_bytes()) && "application/x-msaccess".spec_bytes().len() == 22,
        ascii_bytes("application/x-mscardfile".spec_bytes()) && "application/x-mscardfile".spec_bytes().len() == 24,
        ascii_bytes("application/x-msclip".spec_bytes()) && "application/x-msclip".spec_bytes().len() == 20,
        ascii_bytes("application/x-msdownload".spec_bytes()) && "application/x-msdownload".spec_bytes().len() == 24,
        ascii_bytes("application/x-msmediaview".spec_bytes()) && "application/x-msmediaview".spec_bytes().len() == 25,
        ascii_bytes("application/x-msmetafile".spec_bytes()) && "application/x-msmetafile".spec_bytes().len() == 24,
        ascii_bytes("application/x-msmoney".spec_bytes()) && "application/x-msmoney".spec_bytes().len() == 21,
        ascii_bytes("application/x-mspublisher".spec_bytes()) && "application/x-mspublisher".spec_bytes().len() == 25,
        ascii_bytes("application/x-msschedule".spec_bytes()) && "application/x-msschedule".spec_bytes().len() == 24,
        ascii_bytes("application/x-msterminal".spec_bytes()) && "application/x-msterminal".spec_bytes().len() == 24,
        ascii_bytes("application/x-mswrite".spec_bytes()) && "application/x-mswrite".spec_bytes().len() == 21,
        ascii_bytes("application/x-netcdf".spec_bytes()) && "application/x-netcdf".spec_bytes().len() == 20,
        ascii_bytes("application/x-perfmon".spec_bytes()) && "application/x-perfmon".spec_bytes().len() == 21,
        ascii_bytes("application/x-pkcs12".spec_bytes()) && "application/x-pkcs12".spec_bytes().len() == 20,
        ascii_bytes("application/x-pkcs7-certificates".spec_bytes()) && "application/x-pkcs7-certificates".spec_bytes().len() == 32,
        ascii_bytes("application/x-pkcs7-mime".spec_bytes()) && "application/x-pkcs7-mime".spec_bytes().len() == 24,
        ascii_bytes("application/x-pkcs7-signature".spec_bytes()) && "application/x-pkcs7-signature".spec_bytes().len() == 29,
        ascii_bytes("application/x-sh".spec_bytes()) && "application/x-sh".spec_bytes().len() == 16,
        ascii_bytes("application/x-shar".spec_bytes()) && "application/x-shar".spec_bytes().len() == 18,
        ascii_bytes("application/x-shockwave-flash".spec_bytes()) && "application/x-shockwave-flash".spec_bytes().len() == 29,
        ascii_bytes("application/x-stuffit".spec_bytes()) && "application/x-stuffit".spec_bytes().len() == 21,
        ascii_bytes("application/x-sv4cpio".spec_bytes()) && "application/x-sv4cpio".spec_bytes().len() == 21,
        ascii_bytes("application/x-sv4crc".spec_bytes()) && "application/x-sv4crc".spec_bytes().len() == 20,
        ascii_bytes("application/x-tar".spec_bytes()) && "application/x-tar".spec_bytes().len() == 17,
        ascii_bytes("application/x-tcl".spec_bytes()) && "application/x-tcl".spec_bytes().len() == 17,
        ascii_bytes("application/x-tex".spec_bytes()) && "application/x-tex".spec_bytes().len() == 17,
        ascii_bytes("application/x-texinfo".spec_bytes()) && "application/x-texinfo".spec_bytes().len() == 21,
        ascii_bytes("application/x-troff".spec_bytes()) && "application/x-troff".spec_bytes().len() == 19,
        ascii_bytes("application/x-troff-man".spec_bytes()) && "application/x-troff-man".spec_bytes().len() == 23,
        ascii_bytes("application/x-troff-me".spec_bytes()) && "application/x-troff-me".spec_bytes().len() == 22,
        ascii_bytes("application/x-troff-ms".spec_bytes()) && "application/x-troff-ms".spec_bytes().len() == 22,
        ascii_bytes("application/x-ustar".spec_bytes()) && "application/x-ustar".spec_bytes().len() == 19,
        ascii_bytes("application/x-wais-source".spec_bytes()) && "application/x-wais-source".spec_bytes().len() == 25,
        ascii_bytes("application/x-x509-ca-cert".spec_bytes()) && "application/x-x509-ca-cert".spec_bytes().len() == 26,
        ascii_bytes("application/ynd.ms-pkipko".spec_bytes()) && "application/ynd.ms-pkipko".spec_bytes().len() == 25,
        ascii_bytes("application/zip".spec_bytes()) && "application/zip".spec_bytes().len() == 15,
        ascii_bytes("audio/basic".spec_bytes()) && "audio/basic".spec_bytes().len() == 11,
        ascii_bytes("audio/mid".spec_bytes()) && "audio/mid".spec_bytes().len() == 9,
        ascii_bytes("audio/mpeg".spec_bytes()) && "audio/mpeg".spec_bytes().len() == 10,
        ascii_bytes("audio/x-aiff".spec_bytes()) && "audio/x-aiff".spec_bytes().len() == 12,
        ascii_bytes("audio/x-mpegurl".spec_bytes()) && "audio/x-mpegurl".spec_bytes().len() == 15,
        ascii_bytes("audio/x-pn-realaudio".spec_bytes()) && "audio/x-pn-realaudio".spec_bytes().len() == 20,
        ascii_bytes("audio/x-wav".spec_bytes()) && "audio/x-wav".spec_bytes().len() == 11,
        ascii_bytes("image/bmp".spec_bytes()) && "image/bmp".spec_bytes().len() == 9,
        ascii_bytes("image/cis-cod".spec_bytes()) && "image/cis-cod".spec_bytes().len() == 13,
        ascii_bytes("image/gif".spec_bytes()) && "image/gif".spec_bytes().len() == 9,
        ascii_bytes("image/ief".spec_bytes()) && "image/ief".spec_bytes().len() == 9,
        ascii_bytes("image/jpeg".spec_bytes()) && "image/jpeg".spec_bytes().len() == 10,
        ascii_bytes("image/pipeg".spec_bytes()) && "image/pipeg".spec_bytes().len() == 11,
        ascii_bytes("image/svg+xml".spec_bytes()) && "image/svg+xml".spec_bytes().len() == 13,
        ascii_bytes("image/tiff".spec_bytes()) && "image/tiff".spec_bytes().len() == 10,
        ascii_bytes("image/x-cmu-raster".spec_bytes()) && "image/x-cmu-raster".spec_bytes().len() == 18,
        ascii_bytes("image/x-cmx".spec_bytes()) && "image/x-cmx".spec_bytes().len() == 11,
        ascii_bytes("image/x-icon".spec_bytes()) && "image/x-icon".spec_bytes().len() == 12,
        ascii_bytes("image/x-portable-anymap".spec_bytes()) && "image/x-portable-anymap".spec_bytes().len() == 23,
        ascii_bytes("image/x-portable-bitmap".spec_bytes()) && "image/x-portable-bitmap".spec_bytes().len() == 23,
        ascii_bytes("image/x-portable-graymap".spec_bytes()) && "image/x-portable-graymap".spec_bytes().len() == 24,
        ascii_bytes("image/x-portable-pixmap".spec_bytes()) && "image/x-portable-pixmap".spec_bytes().len() == 23,
        ascii_bytes("image/x-rgb".spec_bytes()) && "image/x-rgb".spec_bytes().len() == 11,
        ascii_bytes("image/x-xbitmap".spec_bytes()) && "image/x-xbitmap".spec_bytes().len() == 15,
        ascii_bytes("image/x-xpixmap".spec_bytes()) && "image/x-xpixmap".spec_bytes().len() == 15,
        ascii_bytes("image/x-xwindowdump".spec_bytes()) && "image/x-xwindowdump".spec_bytes().len() == 19,
        ascii_bytes("message/rfc822".spec_bytes()) && "message/rfc822".spec_bytes().len() == 14,
        ascii_bytes("text/css".spec_bytes()) && "text/css".spec_bytes().len() == 8,
        ascii_bytes("text/h323".spec_bytes()) && "text/h323".spec_bytes().len() == 9,
        ascii_bytes("text/html".spec_bytes()) && "text/html".spec_bytes().len() == 9,
        ascii_bytes("text/iuls".spec_bytes()) && "text/iuls".spec_bytes().len() == 9,
        ascii_bytes("text/plain".spec_bytes()) && "text/plain".spec_bytes().len() == 10,
        ascii_bytes("text/richtext".spec_bytes()) && "text/richtext".spec_bytes().len() == 13,
        ascii_bytes("text/scriptlet".spec_bytes()) && "text/scriptlet".spec_bytes().len() == 14,
        ascii_bytes("text/tab-separated-values".spec_bytes()) && "text/tab-separated-values".spec_bytes().len() == 25,
        ascii_bytes("text/webviewhtml".spec_bytes()) && "text/webviewhtml".spec_bytes().len() == 16,
        ascii_bytes("text/x-component".spec_bytes()) && "text/x-component".spec_bytes().len() == 16,
        ascii_bytes("text/x-setext".spec_bytes()) && "text/x-setext".spec_bytes().len() == 13,
        ascii_bytes("text/x-vcard".spec_bytes()) && "text/x-vcard".spec_bytes().len() == 12,
        ascii_bytes("video/mpeg".spec_bytes()) && "video/mpeg".spec_bytes().len() == 10,
        ascii_bytes("video/quicktime".spec_bytes()) && "video/quicktime".spec_bytes().len() == 15,
        ascii_bytes("video/x-la-asf".spec_bytes()) && "video/x-la-asf".spec_bytes().len() == 14,
        ascii_bytes("video/x-ms-asf".spec_bytes()) && "video/x-ms-asf".spec_bytes().len() == 14,
        ascii_bytes("video/x-msvideo".spec_bytes()) && "video/x-msvideo".spec_bytes().len() == 15,
        ascii_bytes("video/x-sgi-movie".spec_bytes()) && "video/x-sgi-movie".spec_bytes().len() == 17,
        ascii_bytes("x-world/x-vrml".spec_bytes()) && "x-world/x-vrml".spec_bytes().len() == 14,
{
    reveal(ascii_bytes);
    broadcast use vstd::string::is_ascii_spec_bytes;
    reveal_strlit("application/envoy");
    assert(is_ascii("application/envoy"));
    reveal_strlit("application/fractals");
    assert(is_ascii("application/fractals"));
    reveal_strlit("application/futuresplash");
    assert(is_ascii("application/futuresplash"));
    reveal_strlit("application/hta");
    assert(is_ascii("application/hta"));
    reveal_strlit("application/internet-property-stream");
    assert(is_ascii("application/internet-property-stream"));
    reveal_strlit("application/mac-binhex40");
    assert(is_ascii("application/mac-binhex40"));
    reveal_strlit("application/msword");
    assert(is_ascii("application/msword"));
    reveal_strlit("application/octet-stream");
    assert(is_ascii("application/octet-stream"));
    reveal_strlit("application/oda");
    assert(is_ascii("application/oda"));
    reveal_strlit("application/olescript");
    assert(is_ascii("application/olescript"));
    reveal_strlit("application/pdf");
    assert(is_ascii("application/pdf"));
    reveal_strlit("application/pics-rules");
    assert(is_ascii("application/pics-rules"));
    reveal_strlit("application/pkcs10");
    assert(is_ascii("application/pkcs10"));
    reveal_strlit("application/pkix-crl");
    assert(is_ascii("application/pkix-crl"));
    reveal_strlit("application/postscript");
    assert(is_ascii("application/postscript"));
    reveal_strlit("application/rtf");
    assert(is_ascii("application/rtf"));
    reveal_strlit("application/set-payment-initiation");
    assert(is_ascii("application/set-payment-initiation"));
    reveal_strlit("application/set-registration-initiation");
    assert(is_ascii("application/set-registration-initiation"));
    reveal_strlit("application/vnd.ms-excel");
    assert(is_ascii("application/vnd.ms-excel"));
    reveal_strlit("application/vnd.ms-outlook");
    assert(is_ascii("application/vnd.ms-outlook"));
    reveal_strlit("application/vnd.ms-pkicertstore");
    assert(is_ascii("application/vnd.ms-pkicertstore"));
    reveal_strlit("application/vnd.ms-pkiseccat");
    assert(is_ascii("application/vnd.ms-pkiseccat"));
    reveal_strlit("application/vnd.ms-pkistl");
    assert(is_ascii("application/vnd.ms-pkistl"));
    reveal_strlit("application/vnd.ms-powerpoint");
    assert(is_ascii("application/vnd.ms-powerpoint"));
    reveal_strlit("application/vnd.ms-project");
    assert(is_ascii("application/vnd.ms-project"));
    reveal_strlit("application/vnd.ms-works");
    assert(is_ascii("application/vnd.ms-works"));
    reveal_strlit("application/winhlp");
    assert(is_ascii("application/winhlp"));
    reveal_strlit("application/x-bcpio");
    assert(is_ascii("application/x-bcpio"));
    reveal_strlit("application/x-cdf");
    assert(is_ascii("application/x-cdf"));
    reveal_strlit("application/x-compress");
    assert(is_ascii("application/x-compress"));
    reveal_strlit("application/x-compressed");
    assert(is_ascii("application/x-compressed"));
    reveal_strlit("application/x-cpio");
    assert(is_ascii("application/x-cpio"));
    reveal_strlit("application/x-csh");
    assert(is_ascii("application/x-csh"));
    reveal_strlit("application/x-director");
    assert(is_ascii("application/x-director"));
    reveal_strlit("application/x-dvi");
    assert(is_ascii("application/x-dvi"));
    reveal_strlit("application/x-gtar");
    assert(is_ascii("application/x-gtar"));
    reveal_strlit("application/x-gzip");
    assert(is_ascii("application/x-gzip"));
    reveal_strlit("application/x-hdf");
    assert(is_ascii("application/x-hdf"));
    reveal_strlit("application/x-internet-signup");
    assert(is_ascii("application/x-internet-signup"));
    reveal_strlit("application/x-iphone");
    assert(is_ascii("application/x-iphone"));
    reveal_strlit("application/x-javascript");
    assert(is_ascii("application/x-javascript"));
    reveal_strlit("application/x-latex");
    assert(is_ascii("application/x-latex"));
    reveal_strlit("application/x-msaccess");
    assert(is_ascii("application/x-msaccess"));
    reveal_strlit("application/x-mscardfile");
    assert(is_ascii("application/x-mscardfile"));
    reveal_strlit("application/x-msclip");
    assert(is_ascii("application/x-msclip"));
    reveal_strlit("application/x-msdownload");
    assert(is_ascii("application/x-msdownload"));
    reveal_strlit("application/x-msmediaview");
    assert(is_ascii("application/x-msmediaview"));
    reveal_strlit("application/x-msmetafile");
    assert(is_ascii("application/x-msmetafile"));
    reveal_strlit("application/x-msmoney");
    assert(is_ascii("application/x-msmoney"));
    reveal_strlit("application/x-mspublisher");
    assert(is_ascii("application/x-mspublisher"));
    reveal_strlit("application/x-msschedule");
    assert(is_ascii("application/x-msschedule"));
    reveal_strlit("application/x-msterminal");
    assert(is_ascii("application/x-msterminal"));
    reveal_strlit("application/x-mswrite");
    assert(is_ascii("application/x-mswrite"));
    reveal_strlit("application/x-netcdf");
    assert(is_ascii("application/x-netcdf"));
    reveal_strlit("application/x-perfmon");
    assert(is_ascii("application/x-perfmon"));
    reveal_strlit("application/x-pkcs12");
    assert(is_ascii("application/x-pkcs12"));
    reveal_strlit("application/x-pkcs7-certificates");
    assert(is_ascii("application/x-pkcs7-certificates"));
    reveal_strlit("application/x-pkcs7-mime");
    assert(is_ascii("application/x-pkcs7-mime"));
    reveal_strlit("application/x-pkcs7-signature");
    assert(is_ascii("application/x-pkcs7-signature"));
    reveal_strlit("application/x-sh");
    assert(is_ascii("application/x-sh"));
    reveal_strlit("application/x-shar");
    assert(is_ascii("application/x-shar"));
    reveal_strlit("application/x-shockwave-flash");
    assert(is_ascii("application/x-shockwave-flash"));
    reveal_strlit("application/x-stuffit");
    assert(is_ascii("application/x-stuffit"));
    reveal_strlit("application/x-sv4cpio");
    assert(is_ascii("application/x-sv4cpio"));
    reveal_strlit("application/x-sv4crc");
    assert(is_ascii("application/x-sv4crc"));
    reveal_strlit("application/x-tar");
    assert(is_ascii("application/x-tar"));
    reveal_strlit("application/x-tcl");
    assert(is_ascii("application/x-tcl"));
    reveal_strlit("application/x-tex");
    assert(is_ascii("application/x-tex"));
    reveal_strlit("application/x-texinfo");
    assert(is_ascii("application/x-texinfo"));
    reveal_strlit("application/x-troff");
    assert(is_ascii("application/x-troff"));
    reveal_strlit("application/x-troff-man");
    assert(is_ascii("application/x-troff-man"));
    reveal_strlit("application/x-troff-me");
    assert(is_ascii("application/x-troff-me"));
    reveal_strlit("application/x-troff-ms");
    assert(is_ascii("application/x-troff-ms"));
    reveal_strlit("application/x-ustar");
    assert(is_ascii("application/x-ustar"));
    reveal_strlit("application/x-wais-source");
    assert(is_ascii("application/x-wais-source"));
    reveal_strlit("application/x-x509-ca-cert");
    assert(is_ascii("application/x-x509-ca-cert"));
    reveal_strlit("application/ynd.ms-pkipko");
    assert(is_ascii("application/ynd.ms-pkipko"));
    reveal_strlit("application/zip");
    assert(is_ascii("application/zip"));
    reveal_strlit("audio/basic");
    assert(is_ascii("audio/basic"));
    reveal_strlit("audio/mid");
    assert(is_ascii("audio/mid"));
    reveal_strlit("audio/mpeg");
    assert(is_ascii("audio/mpeg"));
    reveal_strlit("audio/x-aiff");
    assert(is_ascii("audio/x-aiff"));
    reveal_strlit("audio/x-mpegurl");
    assert(is_ascii("audio/x-mpegurl"));
    reveal_strlit("audio/x-pn-realaudio");
    assert(is_ascii("audio/x-pn-realaudio"));
    reveal_strlit("audio/x-wav");
    assert(is_ascii("audio/x-wav"));
    reveal_strlit("image/bmp");
    assert(is_ascii("image/bmp"));
    reveal_strlit("image/cis-cod");
    assert(is_ascii("image/cis-cod"));
    reveal_strlit("image/gif");
    assert(is_ascii("image/gif"));
    reveal_strlit("image/ief");
    assert(is_ascii("image/ief"));
    reveal_strlit("image/jpeg");
    assert(is_ascii("image/jpeg"));
    reveal_strlit("image/pipeg");
    assert(is_ascii("image/pipeg"));
    reveal_strlit("image/svg+xml");
    assert(is_ascii("image/svg+xml"));
    reveal_strlit("image/tiff");
    assert(is_ascii("image/tiff"));
    reveal_strlit("image/x-cmu-raster");
    assert(is_ascii("image/x-cmu-raster"));
    reveal_strlit("image/x-cmx");
    assert(is_ascii("image/x-cmx"));
    reveal_strlit("image/x-icon");
    assert(is_ascii("image/x-icon"));
    reveal_strlit("image/x-portable-anymap");
    assert(is_ascii("image/x-portable-anymap"));
    reveal_strlit("image/x-portable-bitmap");
    assert(is_ascii("image/x-portable-bitmap"));
    reveal_strlit("image/x-portable-graymap");
    assert(is_ascii("image/x-portable-graymap"));
    reveal_strlit("image/x-portable-pixmap");
    assert(is_ascii("image/x-portable-pixmap"));
    reveal_strlit("image/x-rgb");
    assert(is_ascii("image/x-rgb"));
    reveal_strlit("image/x-xbitmap");
    assert(is_ascii("image/x-xbitmap"));
    reveal_strlit("image/x-xpixmap");
    assert(is_ascii("image/x-xpixmap"));
    reveal_strlit("image/x-xwindowdump");
    assert(is_ascii("image/x-xwindowdump"));
    reveal_strlit("message/rfc822");
    assert(is_ascii("message/rfc822"));
    reveal_strlit("text/css");
    assert(is_ascii("text/css"));
    reveal_strlit("text/h323");
    assert(is_ascii("text/h323"));
    reveal_strlit("text/html");
    assert(is_ascii("text/html"));
    reveal_strlit("text/iuls");
    assert(is_ascii("text/iuls"));
    reveal_strlit("text/plain");
    assert(is_ascii("text/plain"));
    reveal_strlit("text/richtext");
    assert(is_ascii("text/richtext"));
    reveal_strlit("text/scriptlet");
    assert(is_ascii("text/scriptlet"));
    reveal_strlit("text/tab-separated-values");
    assert(is_ascii("text/tab-separated-values"));
    reveal_strlit("text/webviewhtml");
    assert(is_ascii("text/webviewhtml"));
    reveal_strlit("text/x-component");
    assert(is_ascii("text/x-component"));
    reveal_strlit("text/x-setext");
    assert(is_ascii("text/x-setext"));
    reveal_strlit("text/x-vcard");
    assert(is_ascii("text/x-vcard"));
    reveal_strlit("video/mpeg");
    assert(is_ascii("video/mpeg"));
    reveal_strlit("video/quicktime");
    assert(is_ascii("video/quicktime"));
    reveal_strlit("video/x-la-asf");
    assert(is_ascii("video/x-la-asf"));
    reveal_strlit("video/x-ms-asf");
    assert(is_ascii("video/x-ms-asf"));
    reveal_strlit("video/x-msvideo");
    assert(is_ascii("video/x-msvideo"));
    reveal_strlit("video/x-sgi-movie");
    assert(is_ascii("video/x-sgi-movie"));
    reveal_strlit("x-world/x-vrml");
    assert(is_ascii("x-world/x-vrml"));
}

/// The media type of an extension is ASCII, with its `/` inside it.
#[verifier::spinoff_prover]
#[verifier::rlimit(100)]
pub proof fn lemma_extension_type_ascii(e: Seq<u8>)
    ensures
        extension_entry(e) matches Some((b, sl, t)) ==> ascii_bytes(b) && sl < b.len(),
        ascii_bytes("application/octet-stream".spec_bytes()) && "application/octet-stream".spec_bytes().len() == 24,
{
    lemma_table_types_ascii();
}

/// The media type parsed from `b`: its top-level type and the index of its
/// first `/`; the subtype after it has at most 64 allowed bytes.
pub open spec fn mime_of(b: Seq<u8>) -> Option<(MimeTypeTag, nat)> {
    match first_slash(b) {
        None => None,
        Some(s) => match tag_of(b.subrange(0, s)) {
            None => None,
            Some(t) => {
                let sub = b.subrange(s + 1, b.len() as int);
                if sub.len() > 64 || !all_valid(sub) {
                    None
                } else {
                    Some((t, s as nat))
                }
            },
        },
    }
}

/// The media type of a file extension: its octets, the index of its `/`,
/// its top-level type. The table is kept in groups by the length and the
/// first octet of the extension.
pub open spec fn extension_entry(e: Seq<u8>) -> Option<(Seq<u8>, nat, MimeTypeTag)> {
    if e.len() == 1 {
        if e[0] == 0x2a {
            if e == "*".spec_bytes() {
                Some(("application/octet-stream".spec_bytes(), 11nat, MimeTypeTag::Application))
            } else {
                None
            }
        } else if e[0] == 0x7a {
            if e == "z".spec_bytes() {
                Some(("application/x-compress".spec_bytes(), 11nat, MimeTypeTag::Application))
            } else {
                None
            }
        } else if e[0] == 0x74 {
            if e == "t".spec_bytes() {
                Some(("application/x-troff".spec_bytes(), 11nat, MimeTypeTag::Application))
            } else {
                None
            }
        } else if e[0] == 0x63 {
            if e == "c".spec_bytes() {
                Some(("text/plain".spec_bytes(), 4nat, MimeTypeTag::Text))
            } else {
                None
            }
        } else if e[0] == 0x68 {
            if e == "h".spec_bytes() {
                Some(("text/plain".spec_bytes(), 4nat, MimeTypeTag::Text))
            } else {
                None
            }
        } else {
            None
        }
    } else if e.len() == 2 {
        if e[0] == 0x61 {
            if e == "ai".spec_bytes() {
                Some(("application/postscript".spec_bytes(), 11nat, MimeTypeTag::Application))
            } else if e == "au".spec_bytes() {
                Some(("audio/basic".spec_bytes(), 5nat, MimeTypeTag::Audio))
            } else {
                None
            }
        } else if e[0] == 0x70 {
            if e == "ps".spec_bytes() {
                Some(("application/postscript".spec_bytes(), 11nat, MimeTypeTag::Application))
            } else {
                None
            }
        } else if e[0] == 0x67 {
            if e == "gz".spec_bytes() {
                Some(("application/x-gzip".spec_bytes(), 11nat, MimeTypeTag::Application))
            } else {
                None
            }
        } else if e[0] == 0x6a {
            if e == "js".spec_bytes() {
                Some(("application/x-javascript".spec_bytes(), 11nat, MimeTypeTag::Application))
            } else {
                None
            }
        } else if e[0] == 0x6e {
            if e == "nc".spec_bytes() {
                Some(("application/x-netcdf".spec_bytes(), 11nat, MimeTypeTag::Application))
            } else {
                None
            }
        } else if e[0] == 0x73 {
            if e == "sh".spec_bytes() {
                Some(("application/x-sh".spec_bytes(), 11nat, MimeTypeTag::Application))
            } else {
                None
            }
        } else if e[0] == 0x74 {
            if e == "tr".spec_bytes() {
                Some(("application/x-troff".spec_bytes(), 11nat, MimeTypeTag::Application))
            } else {
                None
            }
        } else if e[0] == 0x6d {
            if e == "me".spec_bytes() {
                Some(("application/x-troff-me".spec_bytes(), 11nat, MimeTypeTag::Application))
            } else if e == "ms".spec_bytes() {
                Some(("application/x-troff-ms".spec_bytes(), 11nat, MimeTypeTag::Application))
            } else {
                None
            }
        } else if e[0] == 0x72 {
            if e == "ra".spec_bytes() {
                Some(("audio/x-pn-realaudio".spec_bytes(), 5nat, MimeTypeTag::Audio))
            } else {
                None
            }
        } else if e[0] == 0x71 {
            if e == "qt".spec_bytes() {
                Some(("video/quicktime".spec_bytes(), 5nat, MimeTypeTag::Video))
            } else {
                None
            }
        } else {
            None
        }
    } else if e.len() == 3 {
        if e[0] == 0x65 {
            if e == "evy".spec_bytes() {
                Some(("application/envoy".spec_bytes(), 11nat, MimeTypeTag::Application))
            } else if e == "exe".spec_bytes() {
                Some(("application/octet-stream".spec_bytes(), 11nat, MimeTypeTag::Application))
            } else if e == "eps".spec_bytes() {
                Some(("application/postscript".spec_bytes(), 11nat, MimeTypeTag::Application))
            } else if e == "etx".spec_bytes() {
                Some(("text/x-setext".spec_bytes(), 4nat, MimeTypeTag::Text))
            } else {
                None
            }
        } else if e[0] == 0x66 {
            if e == "fif".spec_bytes() {
                Some(("application/fractals".spec_bytes(), 11nat, MimeTypeTag::Application))
            } else if e == "flr".spec_bytes() {
                Some(("x-world/x-vrml".spec_bytes(), 7nat, MimeTypeTag::Xnew))
            } else {
                None
            }
        } else if e[0] == 0x73 {
            if e == "spl".spec_bytes() {
                Some(("application/futuresplash".spec_bytes(), 11nat, MimeTypeTag::Application))
            } else if e == "sst".spec_bytes() {
                Some(("application/vnd.ms-pkicertstore".spec_bytes(), 11nat, MimeTypeTag::Application))
            } else if e == "stl".spec_bytes() {
                Some(("application/vnd.ms-pkistl".spec_bytes(), 11nat, MimeTypeTag::Application))
            } else if e == "scd".spec_bytes() {
                Some(("application/x-msschedule".spec_bytes(), 11nat, MimeTypeTag::Application))
            } else if e == "spc".spec_bytes() {
                Some(("application/x-pkcs7-certificates".spec_bytes(), 11nat, MimeTypeTag::Application))
            } else if e == "swf".spec_bytes() {
                Some(("application/x-shockwave-flash".spec_bytes(), 11nat, MimeTypeTag::Application))
            } else if e == "sit".spec_bytes() {
                Some(("application/x-stuffit".spec_bytes(), 11nat, MimeTypeTag::Application))
            } else if e == "src".spec_bytes() {
                Some(("application/x-wais-source".spec_bytes(), 11nat, MimeTypeTag::Application))
            } else if e == "snd".spec_bytes() {
                Some(("audio/basic".spec_bytes(), 5nat, MimeTypeTag::Audio))
            } else if e == "svg".spec_bytes() {
                Some(("image/svg+xml".spec_bytes(), 5nat, MimeTypeTag::Image))
            } else if e == "stm".spec_bytes() {
                Some(("text/html".spec_bytes(), 4nat, MimeTypeTag::Text))
            } else if e == "sct".spec_bytes() {
                Some(("text/scriptlet".spec_bytes(), 4nat, MimeTypeTag::Text))
            } else {
                None
            }
        } else if e[0] == 0x68 {
            if e == "hta".spec_bytes() {
                Some(("application/hta".spec_bytes(), 11nat, MimeTypeTag::Application))
            } else if e == "hqx".spec_bytes() {
                Some(("application/mac-binhex40".spec_bytes(), 11nat, MimeTypeTag::Application))
            } else if e == "hlp".spec_bytes() {
                Some(("application/winhlp".spec_bytes(), 11nat, MimeTypeTag::Application))
            } else if e == "hdf".spec_bytes() {
                Some(("application/x-hdf".spec_bytes(), 11nat, MimeTypeTag::Application))
            } else if e == "htm".spec_bytes() {
                Some(("text/html".spec_bytes(), 4nat, MimeTypeTag::Text))
            } else if e == "htt".spec_bytes() {
                Some(("text/webviewhtml".spec_bytes(), 4nat, MimeTypeTag::Text))
            } else if e == "htc".spec_bytes() {
                Some(("text/x-component".spec_bytes(), 4nat, MimeTypeTag::Text))
            } else {
                None
            }
        } else if e[0] == 0x61 {
            if e == "acx".spec_bytes() {
                Some(("application/internet-property-stream".spec_bytes(), 11nat, MimeTypeTag::Application))
            } else if e == "axs".spec_bytes() {
                Some(("application/olescript".spec_bytes(), 11nat, MimeTypeTag::Application))
            } else if e == "aif".spec_bytes() {
                Some(("audio/x-aiff".spec_bytes(), 5nat, MimeTypeTag::Audio))
            } else if e == "asf".spec_bytes() {
                Some(("video/x-ms-asf".spec_bytes(), 5nat, MimeTypeTag::Video))
            } else if e == "asr".spec_bytes() {
                Some(("video/x-ms-asf".spec_bytes(), 5nat, MimeTypeTag::Video))
            } else if e == "asx".spec_bytes() {
                Some(("video/x-ms-asf".spec_bytes(), 5nat, MimeTypeTag::Video))
            } else if e == "avi".spec_bytes() {
                Some(("video/x-msvideo".spec_bytes(), 5nat, MimeTypeTag::Video))
            } else {
                None
            }
        } else if e[0] == 0x64 {
            if e == "doc".spec_bytes() {
                Some(("application/msword".spec_bytes(), 11nat, MimeTypeTag::Application))
            } else if e == "dot".spec_bytes() {
                Some(("application/msword".spec_bytes(), 11nat, MimeTypeTag::Application))
            } else if e == "dms".spec_bytes() {
                Some(("application/octet-stream".spec_bytes(), 11nat, MimeTypeTag::Application))
            } else if e == "dcr".spec_bytes() {
                Some(("application/x-director".spec_bytes(), 11nat, MimeTypeTag::Application))
            } else if e == "dir".spec_bytes() {
                Some(("application/x-director".spec_bytes(), 11nat, MimeTypeTag::Application))
            } else if e == "dxr".spec_bytes() {
                Some(("application/x-director".spec_bytes(), 11nat, MimeTypeTag::Application))
            } else if e == "dvi".spec_bytes() {
                Some(("application/x-dvi".spec_bytes(), 11nat, MimeTypeTag::Application))
            } else if e == "dll".spec_bytes() {
                Some(("application/x-msdownload".spec_bytes(), 11nat, MimeTypeTag::Application))
            } else if e == "der".spec_bytes() {
                Some(("application/x-x509-ca-cert".spec_bytes(), 11nat, MimeTypeTag::Application))
            } else {
                None
            }
        } else if e[0] == 0x62 {
            if e == "bin".spec_bytes() {
                Some(("application/octet-stream".spec_bytes(), 11nat, MimeTypeTag::Application))
            } else if e == "bmp".spec_bytes() {
                Some(("image/bmp".spec_bytes(), 5nat, MimeTypeTag::Image))
            } else if e == "bas".spec_bytes() {
                Some(("text/plain".spec_bytes(), 4nat, MimeTypeTag::Text))
            } else {
                None
            }
        } else if e[0] == 0x6c {
            if e == "lha".spec_bytes() {
                Some(("application/octet-stream".spec_bytes(), 11nat, MimeTypeTag::Application))
            } else if e == "lzh".spec_bytes() {
                Some(("application/octet-stream".spec_bytes(), 11nat, MimeTypeTag::Application))
            } else if e == "lsf".spec_bytes() {
                Some(("video/x-la-asf".spec_bytes(), 5nat, MimeTypeTag::Video))
            } else if e == "lsx".spec_bytes() {
                Some(("video/x-la-asf".spec_bytes(), 5nat, MimeTypeTag::Video))
            } else {
                None
            }
        } else if e[0] == 0x6f {
            if e == "oda".spec_bytes() {
                Some(("application/oda".spec_bytes(), 11nat, MimeTypeTag::Application))
            } else {
                None
            }
        } else if e[0] == 0x70 {
            if e == "pdf".spec_bytes() {
                Some(("application/pdf".spec_bytes(), 11nat, MimeTypeTag::Application))
            } else if e == "prf".spec_bytes() {
                Some(("application/pics-rules".spec_bytes(), 11nat, MimeTypeTag::Application))
            } else if e == "p10".spec_bytes() {
                Some(("application/pkcs10".spec_bytes(), 11nat, MimeTypeTag::Application))
            } else if e == "pot".spec_bytes() {
                Some(("application/vnd.ms-powerpoint".spec_bytes(), 11nat, MimeTypeTag::Application))
            } else if e == "pps".spec_bytes() {
                Some(("application/vnd.ms-powerpoint".spec_bytes(), 11nat, MimeTypeTag::Application))
            } else if e == "ppt".spec_bytes() {
                Some(("application/vnd.ms-powerpoint".spec_bytes(), 11nat, MimeTypeTag::Application))
            } else if e == "pub".spec_bytes() {
                Some(("application/x-mspublisher".spec_bytes(), 11nat, MimeTypeTag::Application))
            } else if e == "pma".spec_bytes() {
                Some(("application/x-perfmon".spec_bytes(), 11nat, MimeTypeTag::Application))
            } else if e == "pmc".spec_bytes() {
                Some(("application/x-perfmon".spec_bytes(), 11nat, MimeTypeTag::Application))
            } else if e == "pml".spec_bytes() {
                Some(("application/x-perfmon".spec_bytes(), 11nat, MimeTypeTag::Application))
            } else if e == "pmr".spec_bytes() {
                Some(("application/x-perfmon".spec_bytes(), 11nat, MimeTypeTag::Application))
            } else if e == "pmw".spec_bytes() {
                Some(("application/x-perfmon".spec_bytes(), 11nat, MimeTypeTag::Application))
            } else if e == "p12".spec_bytes() {
                Some(("application/x-pkcs12".spec_bytes(), 11nat, MimeTypeTag::Application))
            } else if e == "pfx".spec_bytes() {
                Some(("application/x-pkcs12".spec_bytes(), 11nat, MimeTypeTag::Application))
            } else if e == "p7b".spec_bytes() {
                Some(("application/x-pkcs7-certificates".spec_bytes(), 11nat, MimeTypeTag::Application))
            } else if e == "p7r".spec_bytes() {
                Some(("application/x-pkcs7-certificates".spec_bytes(), 11nat, MimeTypeTag::Application))
            } else if e == "p7c".spec_bytes() {
                Some(("application/x-pkcs7-mime".spec_bytes(), 11nat, MimeTypeTag::Application))
            } else if e == "p7m".spec_bytes() {
                Some(("application/x-pkcs7-mime".spec_bytes(), 11nat, MimeTypeTag::Application))
            } else if e == "p7s".spec_bytes() {
                Some(("application/x-pkcs7-signature".spec_bytes(), 11nat, MimeTypeTag::Application))
            } else if e == "pko".spec_bytes() {
                Some(("application/ynd.ms-pkipko".spec_bytes(), 11nat, MimeTypeTag::Application))
            } else if e == "pnm".spec_bytes() {
                Some(("image/x-portable-anymap".spec_bytes(), 5nat, MimeTypeTag::Image))
            } else if e == "pbm".spec_bytes() {
                Some(("image/x-portable-bitmap".spec_bytes(), 5nat, MimeTypeTag::Image))
            } else if e == "pgm".spec_bytes() {
                Some(("image/x-portable-graymap".spec_bytes(), 5nat, MimeTypeTag::Image))
            } else if e == "ppm".spec_bytes() {
                Some(("image/x-portable-pixmap".spec_bytes(), 5nat, MimeTypeTag::Image))
            } else {
                None
            }
        } else if e[0] == 0x63 {
            if e == "crl".spec_bytes() {
                Some(("application/pkix-crl".spec_bytes(), 11nat, MimeTypeTag::Application))
            } else if e == "cat".spec_bytes() {
                Some(("application/vnd.ms-pkiseccat".spec_bytes(), 11nat, MimeTypeTag::Application))
            } else if e == "cdf".spec_bytes() {
                Some(("application/x-cdf".spec_bytes(), 11nat, MimeTypeTag::Application))
            } else if e == "csh".spec_bytes() {
                Some(("application/x-csh".spec_bytes(), 11nat, MimeTypeTag::Application))
            } else if e == "crd".spec_bytes() {
                Some(("application/x-mscardfile".spec_bytes(), 11nat, MimeTypeTag::Application))
            } else if e == "clp".spec_bytes() {
                Some(("application/x-msclip".spec_bytes(), 11nat, MimeTypeTag::Application))
            } else if e == "cer".spec_bytes() {
                Some(("application/x-x509-ca-cert".spec_bytes(), 11nat, MimeTypeTag::Application))
            } else if e == "crt".spec_bytes() {
                Some(("application/x-x509-ca-cert".spec_bytes(), 11nat, MimeTypeTag::Application))
            } else if e == "cod".spec_bytes() {
                Some(("image/cis-cod".spec_bytes(), 5nat, MimeTypeTag::Image))
            } else if e == "cmx".spec_bytes() {
                Some(("image/x-cmx".spec_bytes(), 5nat, MimeTypeTag::Image))
            } else if e == "css".spec_bytes() {
                Some(("text/css".spec_bytes(), 4nat, MimeTypeTag::Text))
            } else {
                None
            }
        } else if e[0] == 0x72 {
            if e == "rtf".spec_bytes() {
                Some(("application/rtf".spec_bytes(), 11nat, MimeTypeTag::Application))
            } else if e == "rmi".spec_bytes() {
                Some(("audio/mid".spec_bytes(), 5nat, MimeTypeTag::Audio))
            } else if e == "ram".spec_bytes() {
                Some(("audio/x-pn-realaudio".spec_bytes(), 5nat, MimeTypeTag::Audio))
            } else if e == "ras".spec_bytes() {
                Some(("image/x-cmu-raster".spec_bytes(), 5nat, MimeTypeTag::Image))
            } else if e == "rgb".spec_bytes() {
                Some(("image/x-rgb".spec_bytes(), 5nat, MimeTypeTag::Image))
            } else if e == "rtx".spec_bytes() {
                Some(("text/richtext".spec_bytes(), 4nat, MimeTypeTag::Text))
            } else {
                None
            }
        } else if e[0] == 0x78 {
            if e == "xla".spec_bytes() {
                Some(("application/vnd.ms-excel".spec_bytes(), 11nat, MimeTypeTag::Application))
            } else if e == "xlc".spec_bytes() {
                Some(("application/vnd.ms-excel".spec_bytes(), 11nat, MimeTypeTag::Application))
            } else if e == "xlm".spec_bytes() {
                Some(("application/vnd.ms-excel".spec_bytes(), 11nat, MimeTypeTag::Application))
            } else if e == "xls".spec_bytes() {
                Some(("application/vnd.ms-excel".spec_bytes(), 11nat, MimeTypeTag::Application))
            } else if e == "xlt".spec_bytes() {
                Some(("application/vnd.ms-excel".spec_bytes(), 11nat, MimeTypeTag::Application))
            } else if e == "xlw".spec_bytes() {
                Some(("application/vnd.ms-excel".spec_bytes(), 11nat, MimeTypeTag::Application))
            } else if e == "xbm".spec_bytes() {
                Some(("image/x-xbitmap".spec_bytes(), 5nat, MimeTypeTag::Image))
            } else if e == "xpm".spec_bytes() {
                Some(("image/x-xpixmap".spec_bytes(), 5nat, MimeTypeTag::Image))
            } else if e == "xwd".spec_bytes() {
                Some(("image/x-xwindowdump".spec_bytes(), 5nat, MimeTypeTag::Image))
            } else if e == "xaf".spec_bytes() {
                Some(("x-world/x-vrml".spec_bytes(), 7nat, MimeTypeTag::Xnew))
            } else if e == "xof".spec_bytes() {
                Some(("x-world/x-vrml".spec_bytes(), 7nat, MimeTypeTag::Xnew))
            } else {
                None
            }
        } else if e[0] == 0x6d {
            if e == "msg".spec_bytes() {
                Some(("application/vnd.ms-outlook".spec_bytes(), 11nat, MimeTypeTag::Application))
            } else if e == "mpp".spec_bytes() {
                Some(("application/vnd.ms-project".spec_bytes(), 11nat, MimeTypeTag::Application))
            } else if e == "mdb".spec_bytes() {
                Some(("application/x-msaccess".spec_bytes(), 11nat, MimeTypeTag::Application))
            } else if e == "m13".spec_bytes() {
                Some(("application/x-msmediaview".spec_bytes(), 11nat, MimeTypeTag::Application))
            } else if e == "m14".spec_bytes() {
                Some(("application/x-msmediaview".spec_bytes(), 11nat, MimeTypeTag::Application))
            } else if e == "mvb".spec_bytes() {
                Some(("application/x-msmediaview".spec_bytes(), 11nat, MimeTypeTag::Application))
            } else if e == "mny".spec_bytes() {
                Some(("application/x-msmoney".spec_bytes(), 11nat, MimeTypeTag::Application))
            } else if e == "man".spec_bytes() {
                Some(("application/x-troff-man".spec_bytes(), 11nat, MimeTypeTag::Application))
            } else if e == "mid".spec_bytes() {
                Some(("audio/mid".spec_bytes(), 5nat, MimeTypeTag::Audio))
            } else if e == "mp3".spec_bytes() {
                Some(("audio/mpeg".spec_bytes(), 5nat, MimeTypeTag::Audio))
            } else if e == "m3u".spec_bytes() {
                Some(("audio/x-mpegurl".spec_bytes(), 5nat, MimeTypeTag::Audio))
            } else if e == "mht".spec_bytes() {
                Some(("message/rfc822".spec_bytes(), 7nat, MimeTypeTag::Message))
            } else if e == "mp2".spec_bytes() {
                Some(("video/mpeg".spec_bytes(), 5nat, MimeTypeTag::Video))
            } else if e == "mpa".spec_bytes() {
                Some(("video/mpeg".spec_bytes(), 5nat, MimeTypeTag::Video))
            } else if e == "mpe".spec_bytes() {
                Some(("video/mpeg".spec_bytes(), 5nat, MimeTypeTag::Video))
            } else if e == "mpg".spec_bytes() {
                Some(("video/mpeg".spec_bytes(), 5nat, MimeTypeTag::Video))
            } else if e == "mov".spec_bytes() {
                Some(("video/quicktime".spec_bytes(), 5nat, MimeTypeTag::Video))
            } else {
                None
            }
        } else if e[0] == 0x77 {
            if e == "wcm".spec_bytes() {
                Some(("application/vnd.ms-works".spec_bytes(), 11nat, MimeTypeTag::Application))
            } else if e == "wdb".spec_bytes() {
                Some(("application/vnd.ms-works".spec_bytes(), 11nat, MimeTypeTag::Application))
            } else if e == "wks".spec_bytes() {
                Some(("application/vnd.ms-works".spec_bytes(), 11nat, MimeTypeTag::Application))
            } else if e == "wps".spec_bytes() {
                Some(("application/vnd.ms-works".spec_bytes(), 11nat, MimeTypeTag::Application))
            } else if e == "wmf".spec_bytes() {
                Some(("application/x-msmetafile".spec_bytes(), 11nat, MimeTypeTag::Application))
            } else if e == "wri".spec_bytes() {
                Some(("application/x-mswrite".spec_bytes(), 11nat, MimeTypeTag::Application))
            } else if e == "wav".spec_bytes() {
                Some(("audio/x-wav".spec_bytes(), 5nat, MimeTypeTag::Audio))
            } else if e == "wrl".spec_bytes() {
                Some(("x-world/x-vrml".spec_bytes(), 7nat, MimeTypeTag::Xnew))
            } else if e == "wrz".spec_bytes() {
                Some(("x-world/x-vrml".spec_bytes(), 7nat, MimeTypeTag::Xnew))
            } else {
                None
            }
        } else if e[0] == 0x74 {
            if e == "tgz".spec_bytes() {
                Some(("application/x-compressed".spec_bytes(), 11nat, MimeTypeTag::Application))
            } else if e == "trm".spec_bytes() {
                Some(("application/x-msterminal".spec_bytes(), 11nat, MimeTypeTag::Application))
            } else if e == "tar".spec_bytes() {
                Some(("application/x-tar".spec_bytes(), 11nat, MimeTypeTag::Application))
            } else if e == "tcl".spec_bytes() {
                Some(("application/x-tcl".spec_bytes(), 11nat, MimeTypeTag::Application))
            } else if e == "tex".spec_bytes() {
                Some(("application/x-tex".spec_bytes(), 11nat, MimeTypeTag::Application))
            } else if e == "tif".spec_bytes() {
                Some(("image/tiff".spec_bytes(), 5nat, MimeTypeTag::Image))
            } else if e == "txt".spec_bytes() {
                Some(("text/plain".spec_bytes(), 4nat, MimeTypeTag::Text))
            } else if e == "tsv".spec_bytes() {
                Some(("text/tab-separated-values".spec_bytes(), 4nat, MimeTypeTag::Text))
            } else {
                None
            }
        } else if e[0] == 0x69 {
            if e == "ins".spec_bytes() {
                Some(("application/x-internet-signup".spec_bytes(), 11nat, MimeTypeTag::Application))
            } else if e == "isp".spec_bytes() {
                Some(("application/x-internet-signup".spec_bytes(), 11nat, MimeTypeTag::Application))
            } else if e == "iii".spec_bytes() {
                Some(("application/x-iphone".spec_bytes(), 11nat, MimeTypeTag::Application))
            } else if e == "ief".spec_bytes() {
                Some(("image/ief".spec_bytes(), 5nat, MimeTypeTag::Image))
            } else if e == "ico".spec_bytes() {
                Some(("image/x-icon".spec_bytes(), 5nat, MimeTypeTag::Image))
            } else {
                None
            }
        } else if e[0] == 0x7a {
            if e == "zip".spec_bytes() {
                Some(("application/zip".spec_bytes(), 11nat, MimeTypeTag::Application))
            } else {
                None
            }
        } else if e[0] == 0x67 {
            if e == "gif".spec_bytes() {
                Some(("image/gif".spec_bytes(), 5nat, MimeTypeTag::Image))
            } else {
                None
            }
        } else if e[0] == 0x6a {
            if e == "jpe".spec_bytes() {
                Some(("image/jpeg".spec_bytes(), 5nat, MimeTypeTag::Image))
            } else if e == "jpg".spec_bytes() {
                Some(("image/jpeg".spec_bytes(), 5nat, MimeTypeTag::Image))
            } else {
                None
            }
        } else if e[0] == 0x6e {
            if e == "nws".spec_bytes() {
                Some(("message/rfc822".spec_bytes(), 7nat, MimeTypeTag::Message))
            } else {
                None
            }
        } else if e[0] == 0x33 {
            if e == "323".spec_bytes() {
                Some(("text/h323".spec_bytes(), 4nat, MimeTypeTag::Text))
            } else {
                None
            }
        } else if e[0] == 0x75 {
            if e == "uls".spec_bytes() {
                Some(("text/iuls".spec_bytes(), 4nat, MimeTypeTag::Text))
            } else {
                None
            }
        } else if e[0] == 0x76 {
            if e == "vcf".spec_bytes() {
                Some(("text/x-vcard".spec_bytes(), 4nat, MimeTypeTag::Text))
            } else {
                None
            }
        } else {
            None
        }
    } else if e.len() == 4 {
        if e[0] == 0x63 {
            if e == "cpio".spec_bytes() {
                Some(("application/x-cpio".spec_bytes(), 11nat, MimeTypeTag::Application))
            } else {
                None
            }
        } else if e[0] == 0x67 {
            if e == "gtar".spec_bytes() {
                Some(("application/x-gtar".spec_bytes(), 11nat, MimeTypeTag::Application))
            } else {
                None
            }
        } else if e[0] == 0x73 {
            if e == "shar".spec_bytes() {
                Some(("application/x-shar".spec_bytes(), 11nat, MimeTypeTag::Application))
            } else {
                None
            }
        } else if e[0] == 0x74 {
            if e == "texi".spec_bytes() {
                Some(("application/x-texinfo".spec_bytes(), 11nat, MimeTypeTag::Application))
            } else if e == "tiff".spec_bytes() {
                Some(("image/tiff".spec_bytes(), 5nat, MimeTypeTag::Image))
            } else {
                None
            }
        } else if e[0] == 0x72 {
            if e == "roff".spec_bytes() {
                Some(("application/x-troff".spec_bytes(), 11nat, MimeTypeTag::Application))
            } else {
                None
            }
        } else if e[0] == 0x61 {
            if e == "aifc".spec_bytes() {
                Some(("audio/x-aiff".spec_bytes(), 5nat, MimeTypeTag::Audio))
            } else if e == "aiff".spec_bytes() {
                Some(("audio/x-aiff".spec_bytes(), 5nat, MimeTypeTag::Audio))
            } else {
                None
            }
        } else if e[0] == 0x6a {
            if e == "jpeg".spec_bytes() {
                Some(("image/jpeg".spec_bytes(), 5nat, MimeTypeTag::Image))
            } else if e == "jfif".spec_bytes() {
                Some(("image/pipeg".spec_bytes(), 5nat, MimeTypeTag::Image))
            } else {
                None
            }
        } else if e[0] == 0x68 {
            if e == "html".spec_bytes() {
                Some(("text/html".spec_bytes(), 4nat, MimeTypeTag::Text))
            } else {
                None
            }
        } else if e[0] == 0x6d {
            if e == "mpeg".spec_bytes() {
                Some(("video/mpeg".spec_bytes(), 5nat, MimeTypeTag::Video))
            } else if e == "mpv2".spec_bytes() {
                Some(("video/mpeg".spec_bytes(), 5nat, MimeTypeTag::Video))
            } else {
                None
            }
        } else if e[0] == 0x76 {
            if e == "vrml".spec_bytes() {
                Some(("x-world/x-vrml".spec_bytes(), 7nat, MimeTypeTag::Xnew))
            } else {
                None
            }
        } else {
            None
        }
    } else if e.len() == 5 {
        if e[0] == 0x63 {
            if e == "class".spec_bytes() {
                Some(("application/octet-stream".spec_bytes(), 11nat, MimeTypeTag::Application))
            } else {
                None
            }
        } else if e[0] == 0x62 {
            if e == "bcpio".spec_bytes() {
                Some(("application/x-bcpio".spec_bytes(), 11nat, MimeTypeTag::Application))
            } else {
                None
            }
        } else if e[0] == 0x6c {
            if e == "latex".spec_bytes() {
                Some(("application/x-latex".spec_bytes(), 11nat, MimeTypeTag::Application))
            } else {
                None
            }
        } else if e[0] == 0x75 {
            if e == "ustar".spec_bytes() {
                Some(("application/x-ustar".spec_bytes(), 11nat, MimeTypeTag::Application))
            } else {
                None
            }
        } else if e[0] == 0x6d {
            if e == "mhtml".spec_bytes() {
                Some(("message/rfc822".spec_bytes(), 7nat, MimeTypeTag::Message))
            } else if e == "movie".spec_bytes() {
                Some(("video/x-sgi-movie".spec_bytes(), 5nat, MimeTypeTag::Video))
            } else {
                None
            }
        } else {
            None
        }
    } else if e.len() == 6 {
        if e[0] == 0x73 {
            if e == "setpay".spec_bytes() {
                Some(("application/set-payment-initiation".spec_bytes(), 11nat, MimeTypeTag::Application))
            } else if e == "setreg".spec_bytes() {
                Some(("application/set-registration-initiation".spec_bytes(), 11nat, MimeTypeTag::Application))
            } else if e == "sv4crc".spec_bytes() {
                Some(("application/x-sv4crc".spec_bytes(), 11nat, MimeTypeTag::Application))
            } else {
                None
            }
        } else {
            None
        }
    } else if e.len() == 7 {
        if e[0] == 0x73 {
            if e == "sv4cpio".spec_bytes() {
                Some(("application/x-sv4cpio".spec_bytes(), 11nat, MimeTypeTag::Application))
            } else {
                None
            }
        } else if e[0] == 0x74 {
            if e == "texinfo".spec_bytes() {
                Some(("application/x-texinfo".spec_bytes(), 11nat, MimeTypeTag::Application))
            } else {
                None
            }
        } else {
            None
        }
    } else {
        None
    }
}

fn is_valid_byte(b: u8) -> (r: bool)
    ensures
        r == valid_byte(b),
{
    (0x30 <= b && b <= 0x39) || (0x41 <= b && b <= 0x5a) || (0x61 <= b && b <= 0x7a) || b == 0x21 || b == 0x23
        || b == 0x24 || b == 0x26 || b == 0x2b || b == 0x2d || b == 0x2e || b == 0x5e || b == 0x5f
}

fn is_valid(v: &[u8]) -> (r: bool)
    ensures
        r == all_valid(v@),
{
    let mut i: usize = 0;
    while i < v.len()
        invariant
            i <= v@.len(),
            forall|j: int| 0 <= j < i ==> valid_byte(#[trigger] v@[j]),
        decreases v@.len() - i,
    {
        if !is_valid_byte(v[i]) {
            return false;
        }
        i = i + 1;
    }
    true
}

fn to_lower(b: u8) -> (r: u8)
    ensures
        r == lower_byte(b),
{
    if 0x41 <= b && b <= 0x5a { b + 0x20 } else { b }
}

fn eq_ignore_ascii_case(a: &[u8], b: &[u8]) -> (r: bool)
    ensures
        r == eq_ignore_case(a@, b@),
{
    if a.len() != b.len() {
        return false;
    }
    let mut i: usize = 0;
    while i < a.len()
        invariant
            i <= a@.len(),
            a@.len() == b@.len(),
            forall|j: int| 0 <= j < i ==> lower_byte(#[trigger] a@[j]) == lower_byte(b@[j]),
        decreases a@.len() - i,
    {
        if to_lower(a[i]) != to_lower(b[i]) {
            return false;
        }
        i = i + 1;
    }
    true
}

fn invalid() -> (r: HttpError)
    ensures
        r.kind == ErrorKind::InvalidInput,
{
    HttpError::from_kind(ErrorKind::InvalidInput)
}

impl MimeTypeTag {
    /// Parses a top-level type name, ignoring case; `x-` followed by allowed
    /// bytes is `Xnew`; at most 64 bytes.
    pub fn from_bytes(b: &[u8]) -> (r: Result<MimeTypeTag, HttpError>)
        ensures
            match tag_of(b@) {
                Some(t) => r == Ok::<MimeTypeTag, HttpError>(t),
                None => r matches Err(e) && e.kind == ErrorKind::InvalidInput,
            },
    {
        if b.len() > 64 || b.len() < 2 {
            return Err(invalid());
        }
        let c = to_lower(b[0]);
        let t = &b[1..b.len()];
        if c == 0x78 {
            if b[1] == 0x2d && is_valid(&b[2..b.len()]) {
                return Ok(MimeTypeTag::Xnew);
            }
        } else if c == 0x61 {
            return Self::mime_byte_a(b);
        } else if c == 0x66 {
            if eq_ignore_ascii_case(t, "ont".as_bytes()) {
                return Ok(MimeTypeTag::Font);
            }
        } else if c == 0x69 {
            if eq_ignore_ascii_case(t, "mage".as_bytes()) {
                return Ok(MimeTypeTag::Image);
            }
        } else if c == 0x6d {
            return Self::mime_byte_m(b);
        } else if c == 0x74 {
            if eq_ignore_ascii_case(t, "ext".as_bytes()) {
                return Ok(MimeTypeTag::Text);
            }
        } else if c == 0x76 {
            if eq_ignore_ascii_case(t, "ideo".as_bytes()) {
                return Ok(MimeTypeTag::Video);
            }
        } else {
            return Err(invalid());
        }
        Err(invalid())
    }

    fn mime_byte_a(b: &[u8]) -> (r: Result<MimeTypeTag, HttpError>)
        requires
            2 <= b@.len() <= 64,
            lower_byte(b@[0]) == 0x61,
        ensures
            match tag_of(b@) {
                Some(t) => r == Ok::<MimeTypeTag, HttpError>(t),
                None => r matches Err(e) && e.kind == ErrorKind::InvalidInput,
            },
    {
        let t = &b[1..b.len()];
        if eq_ignore_ascii_case(t, "pplication".as_bytes()) {
            Ok(MimeTypeTag::Application)
        } else if eq_ignore_ascii_case(t, "udio".as_bytes()) {
            Ok(MimeTypeTag::Audio)
        } else {
            Err(invalid())
        }
    }

    fn mime_byte_m(b: &[u8]) -> (r: Result<MimeTypeTag, HttpError>)
        requires
            2 <= b@.len() <= 64,
            lower_byte(b@[0]) == 0x6d,
        ensures
            match tag_of(b@) {
                Some(t) => r == Ok::<MimeTypeTag, HttpError>(t),
                None => r matches Err(e) && e.kind == ErrorKind::InvalidInput,
            },
    {
        let t = &b[1..b.len()];
        if eq_ignore_ascii_case(t, "essage".as_bytes()) {
            Ok(MimeTypeTag::Message)
        } else if eq_ignore_ascii_case(t, "odel".as_bytes()) {
            Ok(MimeTypeTag::Model)
        } else if eq_ignore_ascii_case(t, "ultipart".as_bytes()) {
            Ok(MimeTypeTag::Multipart)
        } else {
            Err(invalid())
        }
    }
}

/// The media type of a file extension in the table, if it has one.
fn extension_find(e: &[u8]) -> (r: Option<(&'static [u8], usize, MimeTypeTag)>)
    ensures
        match extension_entry(e@) {
            Some((m, s, t)) => r matches Some(x) && x.0@ == m && x.1 == s && x.2 == t,
            None => r is None,
        },
{
    let n: usize = e.len();
    if n == 1 {
        let c: u8 = e[0];
        if c == 0x2a {
            if bytes_eq(e, "*".as_bytes()) {
                Some(("application/octet-stream".as_bytes(), 11, MimeTypeTag::Application))
            } else {
                None
            }
        } else if c == 0x7a {
            if bytes_eq(e, "z".as_bytes()) {
                Some(("application/x-compress".as_bytes(), 11, MimeTypeTag::Application))
            } else {
                None
            }
        } else if c == 0x74 {
            if bytes_eq(e, "t".as_bytes()) {
                Some(("application/x-troff".as_bytes(), 11, MimeTypeTag::Application))
            } else {
                None
            }
        } else if c == 0x63 {
            if bytes_eq(e, "c".as_bytes()) {
                Some(("text/plain".as_bytes(), 4, MimeTypeTag::Text))
            } else {
                None
            }
        } else if c == 0x68 {
            if bytes_eq(e, "h".as_bytes()) {
                Some(("text/plain".as_bytes(), 4, MimeTypeTag::Text))
            } else {
                None
            }
        } else {
            None
        }
    } else if n == 2 {
        let c: u8 = e[0];
        if c == 0x61 {
            if bytes_eq(e, "ai".as_bytes()) {
                Some(("application/postscript".as_bytes(), 11, MimeTypeTag::Application))
            } else if bytes_eq(e, "au".as_bytes()) {
                Some(("audio/basic".as_bytes(), 5, MimeTypeTag::Audio))
            } else {
                None
            }
        } else if c == 0x70 {
            if bytes_eq(e, "ps".as_bytes()) {
                Some(("application/postscript".as_bytes(), 11, MimeTypeTag::Application))
            } else {
                None
            }
        } else if c == 0x67 {
            if bytes_eq(e, "gz".as_bytes()) {
                Some(("application/x-gzip".as_bytes(), 11, MimeTypeTag::Application))
            } else {
                None
            }
        } else if c == 0x6a {
            if bytes_eq(e, "js".as_bytes()) {
                Some(("application/x-javascript".as_bytes(), 11, MimeTypeTag::Application))
            } else {
                None
            }
        } else if c == 0x6e {
            if bytes_eq(e, "nc".as_bytes()) {
                Some(("application/x-netcdf".as_bytes(), 11, MimeTypeTag::Application))
            } else {
                None
            }
        } else if c == 0x73 {
            if bytes_eq(e, "sh".as_bytes()) {
                Some(("application/x-sh".as_bytes(), 11, MimeTypeTag::Application))
            } else {
                None
            }
        } else if c == 0x74 {
            if bytes_eq(e, "tr".as_bytes()) {
                Some(("application/x-troff".as_bytes(), 11, MimeTypeTag::Application))
            } else {
                None
            }
        } else if c == 0x6d {
            if bytes_eq(e, "me".as_bytes()) {
                Some(("application/x-troff-me".as_bytes(), 11, MimeTypeTag::Application))
            } else if bytes_eq(e, "ms".as_bytes()) {
                Some(("application/x-troff-ms".as_bytes(), 11, MimeTypeTag::Application))
            } else {
                None
            }
        } else if c == 0x72 {
            if bytes_eq(e, "ra".as_bytes()) {
                Some(("audio/x-pn-realaudio".as_bytes(), 5, MimeTypeTag::Audio))
            } else {
                None
            }
        } else if c == 0x71 {
            if bytes_eq(e, "qt".as_bytes()) {
                Some(("video/quicktime".as_bytes(), 5, MimeTypeTag::Video))
            } else {
                None
            }
        } else {
            None
        }
    } else if n == 3 {
        let c: u8 = e[0];
        if c == 0x65 {
            if bytes_eq(e, "evy".as_bytes()) {
                Some(("application/envoy".as_bytes(), 11, MimeTypeTag::Application))
            } else if bytes_eq(e, "exe".as_bytes()) {
                Some(("application/octet-stream".as_bytes(), 11, MimeTypeTag::Application))
            } else if bytes_eq(e, "eps".as_bytes()) {
                Some(("application/postscript".as_bytes(), 11, MimeTypeTag::Application))
            } else if bytes_eq(e, "etx".as_bytes()) {
                Some(("text/x-setext".as_bytes(), 4, MimeTypeTag::Text))
            } else {
                None
            }
        } else if c == 0x66 {
            if bytes_eq(e, "fif".as_bytes()) {
                Some(("application/fractals".as_bytes(), 11, MimeTypeTag::Application))
            } else if bytes_eq(e, "flr".as_bytes()) {
                Some(("x-world/x-vrml".as_bytes(), 7, MimeTypeTag::Xnew))
            } else {
                None
            }
        } else if c == 0x73 {
            if bytes_eq(e, "spl".as_bytes()) {
                Some(("application/futuresplash".as_bytes(), 11, MimeTypeTag::Application))
            } else if bytes_eq(e, "sst".as_bytes()) {
                Some(("application/vnd.ms-pkicertstore".as_bytes(), 11, MimeTypeTag::Application))
            } else if bytes_eq(e, "stl".as_bytes()) {
                Some(("application/vnd.ms-pkistl".as_bytes(), 11, MimeTypeTag::Application))
            } else if bytes_eq(e, "scd".as_bytes()) {
                Some(("application/x-msschedule".as_bytes(), 11, MimeTypeTag::Application))
            } else if bytes_eq(e, "spc".as_bytes()) {
                Some(("application/x-pkcs7-certificates".as_bytes(), 11, MimeTypeTag::Application))
            } else if bytes_eq(e, "swf".as_bytes()) {
                Some(("application/x-shockwave-flash".as_bytes(), 11, MimeTypeTag::Application))
            } else if bytes_eq(e, "sit".as_bytes()) {
                Some(("application/x-stuffit".as_bytes(), 11, MimeTypeTag::Application))
            } else if bytes_eq(e, "src".as_bytes()) {
                Some(("application/x-wais-source".as_bytes(), 11, MimeTypeTag::Application))
            } else if bytes_eq(e, "snd".as_bytes()) {
                Some(("audio/basic".as_bytes(), 5, MimeTypeTag::Audio))
            } else if bytes_eq(e, "svg".as_bytes()) {
                Some(("image/svg+xml".as_bytes(), 5, MimeTypeTag::Image))
            } else if bytes_eq(e, "stm".as_bytes()) {
                Some(("text/html".as_bytes(), 4, MimeTypeTag::Text))
            } else if bytes_eq(e, "sct".as_bytes()) {
                Some(("text/scriptlet".as_bytes(), 4, MimeTypeTag::Text))
            } else {
                None
            }
        } else if c == 0x68 {
            if bytes_eq(e, "hta".as_bytes()) {
                Some(("application/hta".as_bytes(), 11, MimeTypeTag::Application))
            } else if bytes_eq(e, "hqx".as_bytes()) {
                Some(("application/mac-binhex40".as_bytes(), 11, MimeTypeTag::Application))
            } else if bytes_eq(e, "hlp".as_bytes()) {
                Some(("application/winhlp".as_bytes(), 11, MimeTypeTag::Application))
            } else if bytes_eq(e, "hdf".as_bytes()) {
                Some(("application/x-hdf".as_bytes(), 11, MimeTypeTag::Application))
            } else if bytes_eq(e, "htm".as_bytes()) {
                Some(("text/html".as_bytes(), 4, MimeTypeTag::Text))
            } else if bytes_eq(e, "htt".as_bytes()) {
                Some(("text/webviewhtml".as_bytes(), 4, MimeTypeTag::Text))
            } else if bytes_eq(e, "htc".as_bytes()) {
                Some(("text/x-component".as_bytes(), 4, MimeTypeTag::Text))
            } else {
                None
            }
        } else if c == 0x61 {
            if bytes_eq(e, "acx".as_bytes()) {
                Some(("application/internet-property-stream".as_bytes(), 11, MimeTypeTag::Application))
            } else if bytes_eq(e, "axs".as_bytes()) {
                Some(("application/olescript".as_bytes(), 11, MimeTypeTag::Application))
            } else if bytes_eq(e, "aif".as_bytes()) {
                Some(("audio/x-aiff".as_bytes(), 5, MimeTypeTag::Audio))
            } else if bytes_eq(e, "asf".as_bytes()) {
                Some(("video/x-ms-asf".as_bytes(), 5, MimeTypeTag::Video))
            } else if bytes_eq(e, "asr".as_bytes()) {
                Some(("video/x-ms-asf".as_bytes(), 5, MimeTypeTag::Video))
            } else if bytes_eq(e, "asx".as_bytes()) {
                Some(("video/x-ms-asf".as_bytes(), 5, MimeTypeTag::Video))
            } else if bytes_eq(e, "avi".as_bytes()) {
                Some(("video/x-msvideo".as_bytes(), 5, MimeTypeTag::Video))
            } else {
                None
            }
        } else if c == 0x64 {
            if bytes_eq(e, "doc".as_bytes()) {
                Some(("application/msword".as_bytes(), 11, MimeTypeTag::Application))
            } else if bytes_eq(e, "dot".as_bytes()) {
                Some(("application/msword".as_bytes(), 11, MimeTypeTag::Application))
            } else if bytes_eq(e, "dms".as_bytes()) {
                Some(("application/octet-stream".as_bytes(), 11, MimeTypeTag::Application))
            } else if bytes_eq(e, "dcr".as_bytes()) {
                Some(("application/x-director".as_bytes(), 11, MimeTypeTag::Application))
            } else if bytes_eq(e, "dir".as_bytes()) {
                Some(("application/x-director".as_bytes(), 11, MimeTypeTag::Application))
            } else if bytes_eq(e, "dxr".as_bytes()) {
                Some(("application/x-director".as_bytes(), 11, MimeTypeTag::Application))
            } else if bytes_eq(e, "dvi".as_bytes()) {
                Some(("application/x-dvi".as_bytes(), 11, MimeTypeTag::Application))
            } else if bytes_eq(e, "dll".as_bytes()) {
                Some(("application/x-msdownload".as_bytes(), 11, MimeTypeTag::Application))
            } else if bytes_eq(e, "der".as_bytes()) {
                Some(("application/x-x509-ca-cert".as_bytes(), 11, MimeTypeTag::Application))
            } else {
                None
            }
        } else if c == 0x62 {
            if bytes_eq(e, "bin".as_bytes()) {
                Some(("application/octet-stream".as_bytes(), 11, MimeTypeTag::Application))
            } else if bytes_eq(e, "bmp".as_bytes()) {
                Some(("image/bmp".as_bytes(), 5, MimeTypeTag::Image))
            } else if bytes_eq(e, "bas".as_bytes()) {
                Some(("text/plain".as_bytes(), 4, MimeTypeTag::Text))
            } else {
                None
            }
        } else if c == 0x6c {
            if bytes_eq(e, "lha".as_bytes()) {
                Some(("application/octet-stream".as_bytes(), 11, MimeTypeTag::Application))
            } else if bytes_eq(e, "lzh".as_bytes()) {
                Some(("application/octet-stream".as_bytes(), 11, MimeTypeTag::Application))
            } else if bytes_eq(e, "lsf".as_bytes()) {
                Some(("video/x-la-asf".as_bytes(), 5, MimeTypeTag::Video))
            } else if bytes_eq(e, "lsx".as_bytes()) {
                Some(("video/x-la-asf".as_bytes(), 5, MimeTypeTag::Video))
            } else {
                None
            }
        } else if c == 0x6f {
            if bytes_eq(e, "oda".as_bytes()) {
                Some(("application/oda".as_bytes(), 11, MimeTypeTag::Application))
            } else {
                None
            }
        } else if c == 0x70 {
            if bytes_eq(e, "pdf".as_bytes()) {
                Some(("application/pdf".as_bytes(), 11, MimeTypeTag::Application))
            } else if bytes_eq(e, "prf".as_bytes()) {
                Some(("application/pics-rules".as_bytes(), 11, MimeTypeTag::Application))
            } else if bytes_eq(e, "p10".as_bytes()) {
                Some(("application/pkcs10".as_bytes(), 11, MimeTypeTag::Application))
            } else if bytes_eq(e, "pot".as_bytes()) {
                Some(("application/vnd.ms-powerpoint".as_bytes(), 11, MimeTypeTag::Application))
            } else if bytes_eq(e, "pps".as_bytes()) {
                Some(("application/vnd.ms-powerpoint".as_bytes(), 11, MimeTypeTag::Application))
            } else if bytes_eq(e, "ppt".as_bytes()) {
                Some(("application/vnd.ms-powerpoint".as_bytes(), 11, MimeTypeTag::Application))
            } else if bytes_eq(e, "pub".as_bytes()) {
                Some(("application/x-mspublisher".as_bytes(), 11, MimeTypeTag::Application))
            } else if bytes_eq(e, "pma".as_bytes()) {
                Some(("application/x-perfmon".as_bytes(), 11, MimeTypeTag::Application))
            } else if bytes_eq(e, "pmc".as_bytes()) {
                Some(("application/x-perfmon".as_bytes(), 11, MimeTypeTag::Application))
            } else if bytes_eq(e, "pml".as_bytes()) {
                Some(("application/x-perfmon".as_bytes(), 11, MimeTypeTag::Application))
            } else if bytes_eq(e, "pmr".as_bytes()) {
                Some(("application/x-perfmon".as_bytes(), 11, MimeTypeTag::Application))
            } else if bytes_eq(e, "pmw".as_bytes()) {
                Some(("application/x-perfmon".as_bytes(), 11, MimeTypeTag::Application))
            } else if bytes_eq(e, "p12".as_bytes()) {
                Some(("application/x-pkcs12".as_bytes(), 11, MimeTypeTag::Application))
            } else if bytes_eq(e, "pfx".as_bytes()) {
                Some(("application/x-pkcs12".as_bytes(), 11, MimeTypeTag::Application))
            } else if bytes_eq(e, "p7b".as_bytes()) {
                Some(("application/x-pkcs7-certificates".as_bytes(), 11, MimeTypeTag::Application))
            } else if bytes_eq(e, "p7r".as_bytes()) {
                Some(("application/x-pkcs7-certificates".as_bytes(), 11, MimeTypeTag::Application))
            } else if bytes_eq(e, "p7c".as_bytes()) {
                Some(("application/x-pkcs7-mime".as_bytes(), 11, MimeTypeTag::Application))
            } else if bytes_eq(e, "p7m".as_bytes()) {
                Some(("application/x-pkcs7-mime".as_bytes(), 11, MimeTypeTag::Application))
            } else if bytes_eq(e, "p7s".as_bytes()) {
                Some(("application/x-pkcs7-signature".as_bytes(), 11, MimeTypeTag::Application))
            } else if bytes_eq(e, "pko".as_bytes()) {
                Some(("application/ynd.ms-pkipko".as_bytes(), 11, MimeTypeTag::Application))
            } else if bytes_eq(e, "pnm".as_bytes()) {
                Some(("image/x-portable-anymap".as_bytes(), 5, MimeTypeTag::Image))
            } else if bytes_eq(e, "pbm".as_bytes()) {
                Some(("image/x-portable-bitmap".as_bytes(), 5, MimeTypeTag::Image))
            } else if bytes_eq(e, "pgm".as_bytes()) {
                Some(("image/x-portable-graymap".as_bytes(), 5, MimeTypeTag::Image))
            } else if bytes_eq(e, "ppm".as_bytes()) {
                Some(("image/x-portable-pixmap".as_bytes(), 5, MimeTypeTag::Image))
            } else {
                None
            }
        } else if c == 0x63 {
            if bytes_eq(e, "crl".as_bytes()) {
                Some(("application/pkix-crl".as_bytes(), 11, MimeTypeTag::Application))
            } else if bytes_eq(e, "cat".as_bytes()) {
                Some(("application/vnd.ms-pkiseccat".as_bytes(), 11, MimeTypeTag::Application))
            } else if bytes_eq(e, "cdf".as_bytes()) {
                Some(("application/x-cdf".as_bytes(), 11, MimeTypeTag::Application))
            } else if bytes_eq(e, "csh".as_bytes()) {
                Some(("application/x-csh".as_bytes(), 11, MimeTypeTag::Application))
            } else if bytes_eq(e, "crd".as_bytes()) {
                Some(("application/x-mscardfile".as_bytes(), 11, MimeTypeTag::Application))
            } else if bytes_eq(e, "clp".as_bytes()) {
                Some(("application/x-msclip".as_bytes(), 11, MimeTypeTag::Application))
            } else if bytes_eq(e, "cer".as_bytes()) {
                Some(("application/x-x509-ca-cert".as_bytes(), 11, MimeTypeTag::Application))
            } else if bytes_eq(e, "crt".as_bytes()) {
                Some(("application/x-x509-ca-cert".as_bytes(), 11, MimeTypeTag::Application))
            } else if bytes_eq(e, "cod".as_bytes()) {
                Some(("image/cis-cod".as_bytes(), 5, MimeTypeTag::Image))
            } else if bytes_eq(e, "cmx".as_bytes()) {
                Some(("image/x-cmx".as_bytes(), 5, MimeTypeTag::Image))
            } else if bytes_eq(e, "css".as_bytes()) {
                Some(("text/css".as_bytes(), 4, MimeTypeTag::Text))
            } else {
                None
            }
        } else if c == 0x72 {
            if bytes_eq(e, "rtf".as_bytes()) {
                Some(("application/rtf".as_bytes(), 11, MimeTypeTag::Application))
            } else if bytes_eq(e, "rmi".as_bytes()) {
                Some(("audio/mid".as_bytes(), 5, MimeTypeTag::Audio))
            } else if bytes_eq(e, "ram".as_bytes()) {
                Some(("audio/x-pn-realaudio".as_bytes(), 5, MimeTypeTag::Audio))
            } else if bytes_eq(e, "ras".as_bytes()) {
                Some(("image/x-cmu-raster".as_bytes(), 5, MimeTypeTag::Image))
            } else if bytes_eq(e, "rgb".as_bytes()) {
                Some(("image/x-rgb".as_bytes(), 5, MimeTypeTag::Image))
            } else if bytes_eq(e, "rtx".as_bytes()) {
                Some(("text/richtext".as_bytes(), 4, MimeTypeTag::Text))
            } else {
                None
            }
        } else if c == 0x78 {
            if bytes_eq(e, "xla".as_bytes()) {
                Some(("application/vnd.ms-excel".as_bytes(), 11, MimeTypeTag::Application))
            } else if bytes_eq(e, "xlc".as_bytes()) {
                Some(("application/vnd.ms-excel".as_bytes(), 11, MimeTypeTag::Application))
            } else if bytes_eq(e, "xlm".as_bytes()) {
                Some(("application/vnd.ms-excel".as_bytes(), 11, MimeTypeTag::Application))
            } else if bytes_eq(e, "xls".as_bytes()) {
                Some(("application/vnd.ms-excel".as_bytes(), 11, MimeTypeTag::Application))
            } else if bytes_eq(e, "xlt".as_bytes()) {
                Some(("application/vnd.ms-excel".as_bytes(), 11, MimeTypeTag::Application))
            } else if bytes_eq(e, "xlw".as_bytes()) {
                Some(("application/vnd.ms-excel".as_bytes(), 11, MimeTypeTag::Application))
            } else if bytes_eq(e, "xbm".as_bytes()) {
                Some(("image/x-xbitmap".as_bytes(), 5, MimeTypeTag::Image))
            } else if bytes_eq(e, "xpm".as_bytes()) {
                Some(("image/x-xpixmap".as_bytes(), 5, MimeTypeTag::Image))
            } else if bytes_eq(e, "xwd".as_bytes()) {
                Some(("image/x-xwindowdump".as_bytes(), 5, MimeTypeTag::Image))
            } else if bytes_eq(e, "xaf".as_bytes()) {
                Some(("x-world/x-vrml".as_bytes(), 7, MimeTypeTag::Xnew))
            } else if bytes_eq(e, "xof".as_bytes()) {
                Some(("x-world/x-vrml".as_bytes(), 7, MimeTypeTag::Xnew))
            } else {
                None
            }
        } else if c == 0x6d {
            if bytes_eq(e, "msg".as_bytes()) {
                Some(("application/vnd.ms-outlook".as_bytes(), 11, MimeTypeTag::Application))
            } else if bytes_eq(e, "mpp".as_bytes()) {
                Some(("application/vnd.ms-project".as_bytes(), 11, MimeTypeTag::Application))
            } else if bytes_eq(e, "mdb".as_bytes()) {
                Some(("application/x-msaccess".as_bytes(), 11, MimeTypeTag::Application))
            } else if bytes_eq(e, "m13".as_bytes()) {
                Some(("application/x-msmediaview".as_bytes(), 11, MimeTypeTag::Application))
            } else if bytes_eq(e, "m14".as_bytes()) {
                Some(("application/x-msmediaview".as_bytes(), 11, MimeTypeTag::Application))
            } else if bytes_eq(e, "mvb".as_bytes()) {
                Some(("application/x-msmediaview".as_bytes(), 11, MimeTypeTag::Application))
            } else if bytes_eq(e, "mny".as_bytes()) {
                Some(("application/x-msmoney".as_bytes(), 11, MimeTypeTag::Application))
            } else if bytes_eq(e, "man".as_bytes()) {
                Some(("application/x-troff-man".as_bytes(), 11, MimeTypeTag::Application))
            } else if bytes_eq(e, "mid".as_bytes()) {
                Some(("audio/mid".as_bytes(), 5, MimeTypeTag::Audio))
            } else if bytes_eq(e, "mp3".as_bytes()) {
                Some(("audio/mpeg".as_bytes(), 5, MimeTypeTag::Audio))
            } else if bytes_eq(e, "m3u".as_bytes()) {
                Some(("audio/x-mpegurl".as_bytes(), 5, MimeTypeTag::Audio))
            } else if bytes_eq(e, "mht".as_bytes()) {
                Some(("message/rfc822".as_bytes(), 7, MimeTypeTag::Message))
            } else if bytes_eq(e, "mp2".as_bytes()) {
                Some(("video/mpeg".as_bytes(), 5, MimeTypeTag::Video))
            } else if bytes_eq(e, "mpa".as_bytes()) {
                Some(("video/mpeg".as_bytes(), 5, MimeTypeTag::Video))
            } else if bytes_eq(e, "mpe".as_bytes()) {
                Some(("video/mpeg".as_bytes(), 5, MimeTypeTag::Video))
            } else if bytes_eq(e, "mpg".as_bytes()) {
                Some(("video/mpeg".as_bytes(), 5, MimeTypeTag::Video))
            } else if bytes_eq(e, "mov".as_bytes()) {
                Some(("video/quicktime".as_bytes(), 5, MimeTypeTag::Video))
            } else {
                None
            }
        } else if c == 0x77 {
            if bytes_eq(e, "wcm".as_bytes()) {
                Some(("application/vnd.ms-works".as_bytes(), 11, MimeTypeTag::Application))
            } else if bytes_eq(e, "wdb".as_bytes()) {
                Some(("application/vnd.ms-works".as_bytes(), 11, MimeTypeTag::Application))
            } else if bytes_eq(e, "wks".as_bytes()) {
                Some(("application/vnd.ms-works".as_bytes(), 11, MimeTypeTag::Application))
            } else if bytes_eq(e, "wps".as_bytes()) {
                Some(("application/vnd.ms-works".as_bytes(), 11, MimeTypeTag::Application))
            } else if bytes_eq(e, "wmf".as_bytes()) {
                Some(("application/x-msmetafile".as_bytes(), 11, MimeTypeTag::Application))
            } else if bytes_eq(e, "wri".as_bytes()) {
                Some(("application/x-mswrite".as_bytes(), 11, MimeTypeTag::Application))
            } else if bytes_eq(e, "wav".as_bytes()) {
                Some(("audio/x-wav".as_bytes(), 5, MimeTypeTag::Audio))
            } else if bytes_eq(e, "wrl".as_bytes()) {
                Some(("x-world/x-vrml".as_bytes(), 7, MimeTypeTag::Xnew))
            } else if bytes_eq(e, "wrz".as_bytes()) {
                Some(("x-world/x-vrml".as_bytes(), 7, MimeTypeTag::Xnew))
            } else {
                None
            }
        } else if c == 0x74 {
            if bytes_eq(e, "tgz".as_bytes()) {
                Some(("application/x-compressed".as_bytes(), 11, MimeTypeTag::Application))
            } else if bytes_eq(e, "trm".as_bytes()) {
                Some(("application/x-msterminal".as_bytes(), 11, MimeTypeTag::Application))
            } else if bytes_eq(e, "tar".as_bytes()) {
                Some(("application/x-tar".as_bytes(), 11, MimeTypeTag::Application))
            } else if bytes_eq(e, "tcl".as_bytes()) {
                Some(("application/x-tcl".as_bytes(), 11, MimeTypeTag::Application))
            } else if bytes_eq(e, "tex".as_bytes()) {
                Some(("application/x-tex".as_bytes(), 11, MimeTypeTag::Application))
            } else if bytes_eq(e, "tif".as_bytes()) {
                Some(("image/tiff".as_bytes(), 5, MimeTypeTag::Image))
            } else if bytes_eq(e, "txt".as_bytes()) {
                Some(("text/plain".as_bytes(), 4, MimeTypeTag::Text))
            } else if bytes_eq(e, "tsv".as_bytes()) {
                Some(("text/tab-separated-values".as_bytes(), 4, MimeTypeTag::Text))
            } else {
                None
            }
        } else if c == 0x69 {
            if bytes_eq(e, "ins".as_bytes()) {
                Some(("application/x-internet-signup".as_bytes(), 11, MimeTypeTag::Application))
            } else if bytes_eq(e, "isp".as_bytes()) {
                Some(("application/x-internet-signup".as_bytes(), 11, MimeTypeTag::Application))
            } else if bytes_eq(e, "iii".as_bytes()) {
                Some(("application/x-iphone".as_bytes(), 11, MimeTypeTag::Application))
            } else if bytes_eq(e, "ief".as_bytes()) {
                Some(("image/ief".as_bytes(), 5, MimeTypeTag::Image))
            } else if bytes_eq(e, "ico".as_bytes()) {
                Some(("image/x-icon".as_bytes(), 5, MimeTypeTag::Image))
            } else {
                None
            }
        } else if c == 0x7a {
            if bytes_eq(e, "zip".as_bytes()) {
                Some(("application/zip".as_bytes(), 11, MimeTypeTag::Application))
            } else {
                None
            }
        } else if c == 0x67 {
            if bytes_eq(e, "gif".as_bytes()) {
                Some(("image/gif".as_bytes(), 5, MimeTypeTag::Image))
            } else {
                None
            }
        } else if c == 0x6a {
            if bytes_eq(e, "jpe".as_bytes()) {
                Some(("image/jpeg".as_bytes(), 5, MimeTypeTag::Image))
            } else if bytes_eq(e, "jpg".as_bytes()) {
                Some(("image/jpeg".as_bytes(), 5, MimeTypeTag::Image))
            } else {
                None
            }
        } else if c == 0x6e {
            if bytes_eq(e, "nws".as_bytes()) {
                Some(("message/rfc822".as_bytes(), 7, MimeTypeTag::Message))
            } else {
                None
            }
        } else if c == 0x33 {
            if bytes_eq(e, "323".as_bytes()) {
                Some(("text/h323".as_bytes(), 4, MimeTypeTag::Text))
            } else {
                None
            }
        } else if c == 0x75 {
            if bytes_eq(e, "uls".as_bytes()) {
                Some(("text/iuls".as_bytes(), 4, MimeTypeTag::Text))
            } else {
                None
            }
        } else if c == 0x76 {
            if bytes_eq(e, "vcf".as_bytes()) {
                Some(("text/x-vcard".as_bytes(), 4, MimeTypeTag::Text))
            } else {
                None
            }
        } else {
            None
        }
    } else if n == 4 {
        let c: u8 = e[0];
        if c == 0x63 {
            if bytes_eq(e, "cpio".as_bytes()) {
                Some(("application/x-cpio".as_bytes(), 11, MimeTypeTag::Application))
            } else {
                None
            }
        } else if c == 0x67 {
            if bytes_eq(e, "gtar".as_bytes()) {
                Some(("application/x-gtar".as_bytes(), 11, MimeTypeTag::Application))
            } else {
                None
            }
        } else if c == 0x73 {
            if bytes_eq(e, "shar".as_bytes()) {
                Some(("application/x-shar".as_bytes(), 11, MimeTypeTag::Application))
            } else {
                None
            }
        } else if c == 0x74 {
            if bytes_eq(e, "texi".as_bytes()) {
                Some(("application/x-texinfo".as_bytes(), 11, MimeTypeTag::Application))
            } else if bytes_eq(e, "tiff".as_bytes()) {
                Some(("image/tiff".as_bytes(), 5, MimeTypeTag::Image))
            } else {
                None
            }
        } else if c == 0x72 {
            if bytes_eq(e, "roff".as_bytes()) {
                Some(("application/x-troff".as_bytes(), 11, MimeTypeTag::Application))
            } else {
                None
            }
        } else if c == 0x61 {
            if bytes_eq(e, "aifc".as_bytes()) {
                Some(("audio/x-aiff".as_bytes(), 5, MimeTypeTag::Audio))
            } else if bytes_eq(e, "aiff".as_bytes()) {
                Some(("audio/x-aiff".as_bytes(), 5, MimeTypeTag::Audio))
            } else {
                None
            }
        } else if c == 0x6a {
            if bytes_eq(e, "jpeg".as_bytes()) {
                Some(("image/jpeg".as_bytes(), 5, MimeTypeTag::Image))
            } else if bytes_eq(e, "jfif".as_bytes()) {
                Some(("image/pipeg".as_bytes(), 5, MimeTypeTag::Image))
            } else {
                None
            }
        } else if c == 0x68 {
            if bytes_eq(e, "html".as_bytes()) {
                Some(("text/html".as_bytes(), 4, MimeTypeTag::Text))
            } else {
                None
            }
        } else if c == 0x6d {
            if bytes_eq(e, "mpeg".as_bytes()) {
                Some(("video/mpeg".as_bytes(), 5, MimeTypeTag::Video))
            } else if bytes_eq(e, "mpv2".as_bytes()) {
                Some(("video/mpeg".as_bytes(), 5, MimeTypeTag::Video))
            } else {
                None
            }
        } else if c == 0x76 {
            if bytes_eq(e, "vrml".as_bytes()) {
                Some(("x-world/x-vrml".as_bytes(), 7, MimeTypeTag::Xnew))
            } else {
                None
            }
        } else {
            None
        }
    } else if n == 5 {
        let c: u8 = e[0];
        if c == 0x63 {
            if bytes_eq(e, "class".as_bytes()) {
                Some(("application/octet-stream".as_bytes(), 11, MimeTypeTag::Application))
            } else {
                None
            }
        } else if c == 0x62 {
            if bytes_eq(e, "bcpio".as_bytes()) {
                Some(("application/x-bcpio".as_bytes(), 11, MimeTypeTag::Application))
            } else {
                None
            }
        } else if c == 0x6c {
            if bytes_eq(e, "latex".as_bytes()) {
                Some(("application/x-latex".as_bytes(), 11, MimeTypeTag::Application))
            } else {
                None
            }
        } else if c == 0x75 {
            if bytes_eq(e, "ustar".as_bytes()) {
                Some(("application/x-ustar".as_bytes(), 11, MimeTypeTag::Application))
            } else {
                None
            }
        } else if c == 0x6d {
            if bytes_eq(e, "mhtml".as_bytes()) {
                Some(("message/rfc822".as_bytes(), 7, MimeTypeTag::Message))
            } else if bytes_eq(e, "movie".as_bytes()) {
                Some(("video/x-sgi-movie".as_bytes(), 5, MimeTypeTag::Video))
            } else {
                None
            }
        } else {
            None
        }
    } else if n == 6 {
        let c: u8 = e[0];
        if c == 0x73 {
            if bytes_eq(e, "setpay".as_bytes()) {
                Some(("application/set-payment-initiation".as_bytes(), 11, MimeTypeTag::Application))
            } else if bytes_eq(e, "setreg".as_bytes()) {
                Some(("application/set-registration-initiation".as_bytes(), 11, MimeTypeTag::Application))
            } else if bytes_eq(e, "sv4crc".as_bytes()) {
                Some(("application/x-sv4crc".as_bytes(), 11, MimeTypeTag::Application))
            } else {
                None
            }
        } else {
            None
        }
    } else if n == 7 {
        let c: u8 = e[0];
        if c == 0x73 {
            if bytes_eq(e, "sv4cpio".as_bytes()) {
                Some(("application/x-sv4cpio".as_bytes(), 11, MimeTypeTag::Application))
            } else {
                None
            }
        } else if c == 0x74 {
            if bytes_eq(e, "texinfo".as_bytes()) {
                Some(("application/x-texinfo".as_bytes(), 11, MimeTypeTag::Application))
            } else {
                None
            }
        } else {
            None
        }
    } else {
        None
    }
}

fn extension_lookup(e: &[u8]) -> (r: (&'static [u8], usize, MimeTypeTag))
    ensures
        match extension_entry(e@) {
            Some((m, s, t)) => r.0@ == m && r.1 == s && r.2 == t,
            None => r.0@ == "application/octet-stream".spec_bytes() && r.1 == 11 && r.2 == MimeTypeTag::Application,
        },
{
    match extension_find(e) {
        Some(x) => x,
        None => ("application/octet-stream".as_bytes(), 11, MimeTypeTag::Application),
    }
}

impl<'a> MimeType<'a> {
    /// The top-level type.
    pub closed spec fn tag_spec(&self) -> MimeTypeTag {
        self.tag
    }

    /// A media type is ASCII, with its `/` inside it.
    #[verifier::type_invariant]
    spec fn inv(self) -> bool {
        ascii_bytes(self.bytes@) && self.slash < self.bytes@.len()
    }

    /// The octets of the media type.
    pub closed spec fn bytes_spec(&self) -> Seq<u8> {
        self.bytes@
    }

    /// The index of the `/`.
    pub closed spec fn slash_spec(&self) -> nat {
        self.slash as nat
    }

    /// Parses `type/subtype`: the type is a known top-level type (ignoring
    /// case) or `x-` and allowed bytes, the subtype at most 64 allowed
    /// bytes.
    pub fn from_bytes(bytes: &'a [u8]) -> (r: Result<MimeType<'a>, HttpError>)
        ensures
            match mime_of(bytes@) {
                Some((t, s)) => r matches Ok(m) && m.tag_spec() == t && m.bytes_spec() == bytes@ && m.slash_spec() == s,
                None => r matches Err(e) && e.kind == ErrorKind::InvalidInput,
            },
            r matches Ok(m) ==> m.slash_spec() < m.bytes_spec().len() && valid_utf8(m.bytes_spec()) && valid_utf8(
                m.bytes_spec().subrange(0, m.slash_spec() as int),
            ) && valid_utf8(m.bytes_spec().subrange(m.slash_spec() + 1int, m.bytes_spec().len() as int)),
    {
        let mut slash: usize = 0;
        while slash < bytes.len()
            invariant
                slash <= bytes@.len(),
                forall|j: int| 0 <= j < slash ==> bytes@[j] != 0x2f,
            ensures
                slash <= bytes@.len(),
                forall|j: int| 0 <= j < slash ==> bytes@[j] != 0x2f,
                slash < bytes@.len() ==> bytes@[slash as int] == 0x2f,
            decreases bytes@.len() - slash,
        {
            if bytes[slash] == 0x2f {
                break;
            }
            slash = slash + 1;
        }
        proof {
            if slash < bytes@.len() && bytes@[slash as int] == 0x2f {
                assert(0 <= slash < bytes@.len() && bytes@[slash as int] == 0x2f && forall|j: int| 0 <= j < slash ==> bytes@[j] != 0x2f);
                let k = choose|i: int| 0 <= i < bytes@.len() && bytes@[i] == 0x2f && forall|j: int| 0 <= j < i ==> bytes@[j] != 0x2f;
                assert(k == slash) by {
                    if k < slash {
                        assert(bytes@[k] != 0x2f);
                    } else if k > slash {
                        assert(bytes@[slash as int] != 0x2f);
                    }
                }
                assert(first_slash(bytes@) == Some(slash as int));
            }
        }
        if slash == bytes.len() {
            return Err(invalid());
        }
        let tag = match MimeTypeTag::from_bytes(&bytes[0..slash]) {
            Ok(t) => t,
            Err(e) => {
                return Err(e);
            },
        };
        let sub_type = &bytes[slash + 1..bytes.len()];
        if sub_type.len() > 64 || !is_valid(sub_type) {
            return Err(invalid());
        }
        proof {
            lemma_parsed_mime_ascii(bytes@);
        }
        Ok(MimeType { tag, bytes, slash })
    }

    /// The media type of a file extension; unknown extensions are
    /// `application/octet-stream`.
    pub fn from_extension(s: &str) -> (r: Result<MimeType<'static>, HttpError>)
        ensures
            r matches Ok(m) && match extension_entry(s.spec_bytes()) {
                Some((b, sl, t)) => m.bytes_spec() == b && m.slash_spec() == sl && m.tag_spec() == t,
                None => m.bytes_spec() == "application/octet-stream".spec_bytes() && m.slash_spec() == 11
                    && m.tag_spec() == MimeTypeTag::Application,
            },
    {
        let (bytes, slash, tag) = extension_lookup(s.as_bytes());
        proof {
            lemma_extension_type_ascii(s.spec_bytes());
        }
        Ok(MimeType { tag, bytes, slash })
    }

    /// The media type of a file, by the extension of its name (as
    /// `from_extension`); a name without an extension, or one that is not
    /// UTF-8, is refused.
    pub fn from_path(path: &str) -> (r: Result<MimeType<'static>, HttpError>)
        ensures
            r matches Err(e) ==> e.kind == ErrorKind::InvalidInput,
            r matches Ok(m) ==> exists|i: int, ext: Seq<u8>|
                0 <= i && i + 1 + ext.len() <= path.spec_bytes().len() && path.spec_bytes()[i] == 0x2eu8
                && #[trigger] path.spec_bytes().subrange(i + 1, i + 1 + ext.len()) == ext && !ext.contains(0x2eu8)
                && ext_type(m, ext),
            !path.spec_bytes().contains(0x2eu8) ==> r is Err,
            plain_path(path.spec_bytes()) ==> match path_ext(path.spec_bytes()) {
                Some(ext) => r matches Ok(m) && ext_type(m, ext),
                None => r is Err,
            },
    {
        match path_extension(path) {
            Some(ext) => Self::from_extension(ext),
            None => Err(invalid()),
        }
    }

    /// The top-level type.
    pub fn tag(&self) -> (r: MimeTypeTag)
        ensures
            r == self.tag_spec(),
    {
        self.tag
    }

    /// The octets of the media type.
    pub fn as_bytes(&self) -> (r: &'a [u8])
        ensures
            r@ == self.bytes_spec(),
    {
        self.bytes
    }

    /// The index of the `/`.
    pub fn slash(&self) -> (r: usize)
        ensures
            r == self.slash_spec(),
    {
        self.slash
    }

    /// The media type as text, such as `text/plain`. (Its octets are
    /// valid UTF-8 for every media type built here: they are checked ASCII
    /// or a text of the extension table.)
    pub fn as_str(&self) -> (r: &'a str)
        ensures
            r.spec_bytes() == self.bytes_spec(),
    {
        proof {
            use_type_invariant(self);
            lemma_ascii_valid_utf8(self.bytes@);
        }
        text_of(self.bytes)
    }

    /// The top-level type as text, such as `text` of `text/plain`.
    pub fn main_type(&self) -> (r: &'a str)
        ensures
            self.slash_spec() < self.bytes_spec().len(),
            r.spec_bytes() == self.bytes_spec().subrange(0, self.slash_spec() as int),
    {
        proof {
            use_type_invariant(self);
            lemma_ascii_sub(self.bytes@, 0, self.slash as int);
            lemma_ascii_valid_utf8(self.bytes@.subrange(0, self.slash as int));
        }
        text_of(&self.bytes[0..self.slash])
    }

    /// The subtype as text, such as `plain` of `text/plain`.
    pub fn sub_type(&self) -> (r: &'a str)
        ensures
            self.slash_spec() < self.bytes_spec().len(),
            r.spec_bytes() == self.bytes_spec().subrange(self.slash_spec() + 1int, self.bytes_spec().len() as int),
    {
        proof {
            use_type_invariant(self);
            lemma_ascii_sub(self.bytes@, self.slash + 1, self.bytes@.len() as int);
            lemma_ascii_valid_utf8(self.bytes@.subrange(self.slash + 1, self.bytes@.len() as int));
        }
        let n = self.bytes.len();
        text_of(&self.bytes[self.slash + 1..n])
    }

    /// Whether the type is `application`.
    pub fn is_application(&self) -> (r: bool)
        ensures
            r == (self.tag_spec() == MimeTypeTag::Application),
    {
        self.tag == MimeTypeTag::Application
    }

    /// Whether the type is `audio`.
    pub fn is_audio(&self) -> (r: bool)
        ensures
            r == (self.tag_spec() == MimeTypeTag::Audio),
    {
        self.tag == MimeTypeTag::Audio
    }

    /// Whether the type is `font`.
    pub fn is_font(&self) -> (r: bool)
        ensures
            r == (self.tag_spec() == MimeTypeTag::Font),
    {
        self.tag == MimeTypeTag::Font
    }

    /// Whether the type is `image`.
    pub fn is_image(&self) -> (r: bool)
        ensures
            r == (self.tag_spec() == MimeTypeTag::Image),
    {
        self.tag == MimeTypeTag::Image
    }

    /// Whether the type is `message`.
    pub fn is_message(&self) -> (r: bool)
        ensures
            r == (self.tag_spec() == MimeTypeTag::Message),
    {
        self.tag == MimeTypeTag::Message
    }

    /// Whether the type is `model`.
    pub fn is_model(&self) -> (r: bool)
        ensures
            r == (self.tag_spec() == MimeTypeTag::Model),
    {
        self.tag == MimeTypeTag::Model
    }

    /// Whether the type is `multipart`.
    pub fn is_multipart(&self) -> (r: bool)
        ensures
            r == (self.tag_spec() == MimeTypeTag::Multipart),
    {
        self.tag == MimeTypeTag::Multipart
    }

    /// Whether the type is `text`.
    pub fn is_text(&self) -> (r: bool)
        ensures
            r == (self.tag_spec() == MimeTypeTag::Text),
    {
        self.tag == MimeTypeTag::Text
    }

    /// Whether the type is `video`.
    pub fn is_video(&self) -> (r: bool)
        ensures
            r == (self.tag_spec() == MimeTypeTag::Video),
    {
        self.tag == MimeTypeTag::Video
    }

    /// Whether the type begins with `x-`.
    pub fn is_xnew(&self) -> (r: bool)
        ensures
            r == (self.tag_spec() == MimeTypeTag::Xnew),
    {
        self.tag == MimeTypeTag::Xnew
    }
}

impl<'a> Default for MimeType<'a> {
    fn default() -> (r: MimeType<'a>)
        ensures
            r.tag_spec() == MimeTypeTag::Application,
            r.bytes_spec() == "application/octet-stream".spec_bytes(),
            r.slash_spec() == 11,
    {
        proof {
            lemma_extension_type_ascii(Seq::empty());
        }
        MimeType { tag: MimeTypeTag::Application, bytes: "application/octet-stream".as_bytes(), slash: 11 }
    }
}

} // verus!
