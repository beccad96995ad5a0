//! The file extension table, entry by entry.
use vstd::prelude::*;
use vstd::string::*;
use crate::body::mime::mimetype::{extension_entry, MimeTypeTag};

verus! {

/// The octets of the extensions of part 1 of the table.
proof fn lemma_octets_1()
    ensures
        "evy".spec_bytes().len() == 3 && "evy".spec_bytes()[0] == 0x65 && "evy".spec_bytes()[1] == 0x76 && "evy".spec_bytes()[2] == 0x79,
        "fif".spec_bytes().len() == 3 && "fif".spec_bytes()[0] == 0x66 && "fif".spec_bytes()[1] == 0x69 && "fif".spec_bytes()[2] == 0x66,
        "spl".spec_bytes().len() == 3 && "spl".spec_bytes()[0] == 0x73 && "spl".spec_bytes()[1] == 0x70 && "spl".spec_bytes()[2] == 0x6c,
        "hta".spec_bytes().len() == 3 && "hta".spec_bytes()[0] == 0x68 && "hta".spec_bytes()[1] == 0x74 && "hta".spec_bytes()[2] == 0x61,
        "acx".spec_bytes().len() == 3 && "acx".spec_bytes()[0] == 0x61 && "acx".spec_bytes()[1] == 0x63 && "acx".spec_bytes()[2] == 0x78,
        "hqx".spec_bytes().len() == 3 && "hqx".spec_bytes()[0] == 0x68 && "hqx".spec_bytes()[1] == 0x71 && "hqx".spec_bytes()[2] == 0x78,
        "doc".spec_bytes().len() == 3 && "doc".spec_bytes()[0] == 0x64 && "doc".spec_bytes()[1] == 0x6f && "doc".spec_bytes()[2] == 0x63,
        "dot".spec_bytes().len() == 3 && "dot".spec_bytes()[0] == 0x64 && "dot".spec_bytes()[1] == 0x6f && "dot".spec_bytes()[2] == 0x74,
        "*".spec_bytes().len() == 1 && "*".spec_bytes()[0] == 0x2a,
        "bin".spec_bytes().len() == 3 && "bin".spec_bytes()[0] == 0x62 && "bin".spec_bytes()[1] == 0x69 && "bin".spec_bytes()[2] == 0x6e,
        "class".spec_bytes().len() == 5 && "class".spec_bytes()[0] == 0x63 && "class".spec_bytes()[1] == 0x6c && "class".spec_bytes()[2] == 0x61 && "class".spec_bytes()[3] == 0x73 && "class".spec_bytes()[4] == 0x73,
        "dms".spec_bytes().len() == 3 && "dms".spec_bytes()[0] == 0x64 && "dms".spec_bytes()[1] == 0x6d && "dms".spec_bytes()[2] == 0x73,
        "exe".spec_bytes().len() == 3 && "exe".spec_bytes()[0] == 0x65 && "exe".spec_bytes()[1] == 0x78 && "exe".spec_bytes()[2] == 0x65,
        "lha".spec_bytes().len() == 3 && "lha".spec_bytes()[0] == 0x6c && "lha".spec_bytes()[1] == 0x68 && "lha".spec_bytes()[2] == 0x61,
        "lzh".spec_bytes().len() == 3 && "lzh".spec_bytes()[0] == 0x6c && "lzh".spec_bytes()[1] == 0x7a && "lzh".spec_bytes()[2] == 0x68,
        "oda".spec_bytes().len() == 3 && "oda".spec_bytes()[0] == 0x6f && "oda".spec_bytes()[1] == 0x64 && "oda".spec_bytes()[2] == 0x61,
        "axs".spec_bytes().len() == 3 && "axs".spec_bytes()[0] == 0x61 && "axs".spec_bytes()[1] == 0x78 && "axs".spec_bytes()[2] == 0x73,
        "pdf".spec_bytes().len() == 3 && "pdf".spec_bytes()[0] == 0x70 && "pdf".spec_bytes()[1] == 0x64 && "pdf".spec_bytes()[2] == 0x66,
        "prf".spec_bytes().len() == 3 && "prf".spec_bytes()[0] == 0x70 && "prf".spec_bytes()[1] == 0x72 && "prf".spec_bytes()[2] == 0x66,
        "p10".spec_bytes().len() == 3 && "p10".spec_bytes()[0] == 0x70 && "p10".spec_bytes()[1] == 0x31 && "p10".spec_bytes()[2] == 0x30,
        "crl".spec_bytes().len() == 3 && "crl".spec_bytes()[0] == 0x63 && "crl".spec_bytes()[1] == 0x72 && "crl".spec_bytes()[2] == 0x6c,
        "ai".spec_bytes().len() == 2 && "ai".spec_bytes()[0] == 0x61 && "ai".spec_bytes()[1] == 0x69,
        "eps".spec_bytes().len() == 3 && "eps".spec_bytes()[0] == 0x65 && "eps".spec_bytes()[1] == 0x70 && "eps".spec_bytes()[2] == 0x73,
        "ps".spec_bytes().len() == 2 && "ps".spec_bytes()[0] == 0x70 && "ps".spec_bytes()[1] == 0x73,
        "rtf".spec_bytes().len() == 3 && "rtf".spec_bytes()[0] == 0x72 && "rtf".spec_bytes()[1] == 0x74 && "rtf".spec_bytes()[2] == 0x66,
        "setpay".spec_bytes().len() == 6 && "setpay".spec_bytes()[0] == 0x73 && "setpay".spec_bytes()[1] == 0x65 && "setpay".spec_bytes()[2] == 0x74 && "setpay".spec_bytes()[3] == 0x70 && "setpay".spec_bytes()[4] == 0x61 && "setpay".spec_bytes()[5] == 0x79,
        "setreg".spec_bytes().len() == 6 && "setreg".spec_bytes()[0] == 0x73 && "setreg".spec_bytes()[1] == 0x65 && "setreg".spec_bytes()[2] == 0x74 && "setreg".spec_bytes()[3] == 0x72 && "setreg".spec_bytes()[4] == 0x65 && "setreg".spec_bytes()[5] == 0x67,
        "xla".spec_bytes().len() == 3 && "xla".spec_bytes()[0] == 0x78 && "xla".spec_bytes()[1] == 0x6c && "xla".spec_bytes()[2] == 0x61,
        "xlc".spec_bytes().len() == 3 && "xlc".spec_bytes()[0] == 0x78 && "xlc".spec_bytes()[1] == 0x6c && "xlc".spec_bytes()[2] == 0x63,
        "xlm".spec_bytes().len() == 3 && "xlm".spec_bytes()[0] == 0x78 && "xlm".spec_bytes()[1] == 0x6c && "xlm".spec_bytes()[2] == 0x6d,
        "xls".spec_bytes().len() == 3 && "xls".spec_bytes()[0] == 0x78 && "xls".spec_bytes()[1] == 0x6c && "xls".spec_bytes()[2] == 0x73,
        "xlt".spec_bytes().len() == 3 && "xlt".spec_bytes()[0] == 0x78 && "xlt".spec_bytes()[1] == 0x6c && "xlt".spec_bytes()[2] == 0x74,
        "xlw".spec_bytes().len() == 3 && "xlw".spec_bytes()[0] == 0x78 && "xlw".spec_bytes()[1] == 0x6c && "xlw".spec_bytes()[2] == 0x77,
        "msg".spec_bytes().len() == 3 && "msg".spec_bytes()[0] == 0x6d && "msg".spec_bytes()[1] == 0x73 && "msg".spec_bytes()[2] == 0x67,
        "sst".spec_bytes().len() == 3 && "sst".spec_bytes()[0] == 0x73 && "sst".spec_bytes()[1] == 0x73 && "sst".spec_bytes()[2] == 0x74,
        "cat".spec_bytes().len() == 3 && "cat".spec_bytes()[0] == 0x63 && "cat".spec_bytes()[1] == 0x61 && "cat".spec_bytes()[2] == 0x74,
        "stl".spec_bytes().len() == 3 && "stl".spec_bytes()[0] == 0x73 && "stl".spec_bytes()[1] == 0x74 && "stl".spec_bytes()[2] == 0x6c,
        "pot".spec_bytes().len() == 3 && "pot".spec_bytes()[0] == 0x70 && "pot".spec_bytes()[1] == 0x6f && "pot".spec_bytes()[2] == 0x74,
{
    broadcast use is_ascii_spec_bytes;
    reveal_strlit("evy");
    assert(is_ascii("evy"));
    reveal_strlit("fif");
    assert(is_ascii("fif"));
    reveal_strlit("spl");
    assert(is_ascii("spl"));
    reveal_strlit("hta");
    assert(is_ascii("hta"));
    reveal_strlit("acx");
    assert(is_ascii("acx"));
    reveal_strlit("hqx");
    assert(is_ascii("hqx"));
    reveal_strlit("doc");
    assert(is_ascii("doc"));
    reveal_strlit("dot");
    assert(is_ascii("dot"));
    reveal_strlit("*");
    assert(is_ascii("*"));
    reveal_strlit("bin");
    assert(is_ascii("bin"));
    reveal_strlit("class");
    assert(is_ascii("class"));
    reveal_strlit("dms");
    assert(is_ascii("dms"));
    reveal_strlit("exe");
    assert(is_ascii("exe"));
    reveal_strlit("lha");
    assert(is_ascii("lha"));
    reveal_strlit("lzh");
    assert(is_ascii("lzh"));
    reveal_strlit("oda");
    assert(is_ascii("oda"));
    reveal_strlit("axs");
    assert(is_ascii("axs"));
    reveal_strlit("pdf");
    assert(is_ascii("pdf"));
    reveal_strlit("prf");
    assert(is_ascii("prf"));
    reveal_strlit("p10");
    assert(is_ascii("p10"));
    reveal_strlit("crl");
    assert(is_ascii("crl"));
    reveal_strlit("ai");
    assert(is_ascii("ai"));
    reveal_strlit("eps");
    assert(is_ascii("eps"));
    reveal_strlit("ps");
    assert(is_ascii("ps"));
    reveal_strlit("rtf");
    assert(is_ascii("rtf"));
    reveal_strlit("setpay");
    assert(is_ascii("setpay"));
    reveal_strlit("setreg");
    assert(is_ascii("setreg"));
    reveal_strlit("xla");
    assert(is_ascii("xla"));
    reveal_strlit("xlc");
    assert(is_ascii("xlc"));
    reveal_strlit("xlm");
    assert(is_ascii("xlm"));
    reveal_strlit("xls");
    assert(is_ascii("xls"));
    reveal_strlit("xlt");
    assert(is_ascii("xlt"));
    reveal_strlit("xlw");
    assert(is_ascii("xlw"));
    reveal_strlit("msg");
    assert(is_ascii("msg"));
    reveal_strlit("sst");
    assert(is_ascii("sst"));
    reveal_strlit("cat");
    assert(is_ascii("cat"));
    reveal_strlit("stl");
    assert(is_ascii("stl"));
    reveal_strlit("pot");
    assert(is_ascii("pot"));
}

/// The octets of the extensions of part 2 of the table.
proof fn lemma_octets_2()
    ensures
        "pps".spec_bytes().len() == 3 && "pps".spec_bytes()[0] == 0x70 && "pps".spec_bytes()[1] == 0x70 && "pps".spec_bytes()[2] == 0x73,
        "ppt".spec_bytes().len() == 3 && "ppt".spec_bytes()[0] == 0x70 && "ppt".spec_bytes()[1] == 0x70 && "ppt".spec_bytes()[2] == 0x74,
        "mpp".spec_bytes().len() == 3 && "mpp".spec_bytes()[0] == 0x6d && "mpp".spec_bytes()[1] == 0x70 && "mpp".spec_bytes()[2] == 0x70,
        "wcm".spec_bytes().len() == 3 && "wcm".spec_bytes()[0] == 0x77 && "wcm".spec_bytes()[1] == 0x63 && "wcm".spec_bytes()[2] == 0x6d,
        "wdb".spec_bytes().len() == 3 && "wdb".spec_bytes()[0] == 0x77 && "wdb".spec_bytes()[1] == 0x64 && "wdb".spec_bytes()[2] == 0x62,
        "wks".spec_bytes().len() == 3 && "wks".spec_bytes()[0] == 0x77 && "wks".spec_bytes()[1] == 0x6b && "wks".spec_bytes()[2] == 0x73,
        "wps".spec_bytes().len() == 3 && "wps".spec_bytes()[0] == 0x77 && "wps".spec_bytes()[1] == 0x70 && "wps".spec_bytes()[2] == 0x73,
        "hlp".spec_bytes().len() == 3 && "hlp".spec_bytes()[0] == 0x68 && "hlp".spec_bytes()[1] == 0x6c && "hlp".spec_bytes()[2] == 0x70,
        "bcpio".spec_bytes().len() == 5 && "bcpio".spec_bytes()[0] == 0x62 && "bcpio".spec_bytes()[1] == 0x63 && "bcpio".spec_bytes()[2] == 0x70 && "bcpio".spec_bytes()[3] == 0x69 && "bcpio".spec_bytes()[4] == 0x6f,
        "cdf".spec_bytes().len() == 3 && "cdf".spec_bytes()[0] == 0x63 && "cdf".spec_bytes()[1] == 0x64 && "cdf".spec_bytes()[2] == 0x66,
        "z".spec_bytes().len() == 1 && "z".spec_bytes()[0] == 0x7a,
        "tgz".spec_bytes().len() == 3 && "tgz".spec_bytes()[0] == 0x74 && "tgz".spec_bytes()[1] == 0x67 && "tgz".spec_bytes()[2] == 0x7a,
        "cpio".spec_bytes().len() == 4 && "cpio".spec_bytes()[0] == 0x63 && "cpio".spec_bytes()[1] == 0x70 && "cpio".spec_bytes()[2] == 0x69 && "cpio".spec_bytes()[3] == 0x6f,
        "csh".spec_bytes().len() == 3 && "csh".spec_bytes()[0] == 0x63 && "csh".spec_bytes()[1] == 0x73 && "csh".spec_bytes()[2] == 0x68,
        "dcr".spec_bytes().len() == 3 && "dcr".spec_bytes()[0] == 0x64 && "dcr".spec_bytes()[1] == 0x63 && "dcr".spec_bytes()[2] == 0x72,
        "dir".spec_bytes().len() == 3 && "dir".spec_bytes()[0] == 0x64 && "dir".spec_bytes()[1] == 0x69 && "dir".spec_bytes()[2] == 0x72,
        "dxr".spec_bytes().len() == 3 && "dxr".spec_bytes()[0] == 0x64 && "dxr".spec_bytes()[1] == 0x78 && "dxr".spec_bytes()[2] == 0x72,
        "dvi".spec_bytes().len() == 3 && "dvi".spec_bytes()[0] == 0x64 && "dvi".spec_bytes()[1] == 0x76 && "dvi".spec_bytes()[2] == 0x69,
        "gtar".spec_bytes().len() == 4 && "gtar".spec_bytes()[0] == 0x67 && "gtar".spec_bytes()[1] == 0x74 && "gtar".spec_bytes()[2] == 0x61 && "gtar".spec_bytes()[3] == 0x72,
        "gz".spec_bytes().len() == 2 && "gz".spec_bytes()[0] == 0x67 && "gz".spec_bytes()[1] == 0x7a,
        "hdf".spec_bytes().len() == 3 && "hdf".spec_bytes()[0] == 0x68 && "hdf".spec_bytes()[1] == 0x64 && "hdf".spec_bytes()[2] == 0x66,
        "ins".spec_bytes().len() == 3 && "ins".spec_bytes()[0] == 0x69 && "ins".spec_bytes()[1] == 0x6e && "ins".spec_bytes()[2] == 0x73,
        "isp".spec_bytes().len() == 3 && "isp".spec_bytes()[0] == 0x69 && "isp".spec_bytes()[1] == 0x73 && "isp".spec_bytes()[2] == 0x70,
        "iii".spec_bytes().len() == 3 && "iii".spec_bytes()[0] == 0x69 && "iii".spec_bytes()[1] == 0x69 && "iii".spec_bytes()[2] == 0x69,
        "js".spec_bytes().len() == 2 && "js".spec_bytes()[0] == 0x6a && "js".spec_bytes()[1] == 0x73,
        "latex".spec_bytes().len() == 5 && "latex".spec_bytes()[0] == 0x6c && "latex".spec_bytes()[1] == 0x61 && "latex".spec_bytes()[2] == 0x74 && "latex".spec_bytes()[3] == 0x65 && "latex".spec_bytes()[4] == 0x78,
        "mdb".spec_bytes().len() == 3 && "mdb".spec_bytes()[0] == 0x6d && "mdb".spec_bytes()[1] == 0x64 && "mdb".spec_bytes()[2] == 0x62,
        "crd".spec_bytes().len() == 3 && "crd".spec_bytes()[0] == 0x63 && "crd".spec_bytes()[1] == 0x72 && "crd".spec_bytes()[2] == 0x64,
        "clp".spec_bytes().len() == 3 && "clp".spec_bytes()[0] == 0x63 && "clp".spec_bytes()[1] == 0x6c && "clp".spec_bytes()[2] == 0x70,
        "dll".spec_bytes().len() == 3 && "dll".spec_bytes()[0] == 0x64 && "dll".spec_bytes()[1] == 0x6c && "dll".spec_bytes()[2] == 0x6c,
        "m13".spec_bytes().len() == 3 && "m13".spec_bytes()[0] == 0x6d && "m13".spec_bytes()[1] == 0x31 && "m13".spec_bytes()[2] == 0x33,
        "m14".spec_bytes().len() == 3 && "m14".spec_bytes()[0] == 0x6d && "m14".spec_bytes()[1] == 0x31 && "m14".spec_bytes()[2] == 0x34,
        "mvb".spec_bytes().len() == 3 && "mvb".spec_bytes()[0] == 0x6d && "mvb".spec_bytes()[1] == 0x76 && "mvb".spec_bytes()[2] == 0x62,
        "wmf".spec_bytes().len() == 3 && "wmf".spec_bytes()[0] == 0x77 && "wmf".spec_bytes()[1] == 0x6d && "wmf".spec_bytes()[2] == 0x66,
        "mny".spec_bytes().len() == 3 && "mny".spec_bytes()[0] == 0x6d && "mny".spec_bytes()[1] == 0x6e && "mny".spec_bytes()[2] == 0x79,
        "pub".spec_bytes().len() == 3 && "pub".spec_bytes()[0] == 0x70 && "pub".spec_bytes()[1] == 0x75 && "pub".spec_bytes()[2] == 0x62,
        "scd".spec_bytes().len() == 3 && "scd".spec_bytes()[0] == 0x73 && "scd".spec_bytes()[1] == 0x63 && "scd".spec_bytes()[2] == 0x64,
        "trm".spec_bytes().len() == 3 && "trm".spec_bytes()[0] == 0x74 && "trm".spec_bytes()[1] == 0x72 && "trm".spec_bytes()[2] == 0x6d,
{
    broadcast use is_ascii_spec_bytes;
    reveal_strlit("pps");
    assert(is_ascii("pps"));
    reveal_strlit("ppt");
    assert(is_ascii("ppt"));
    reveal_strlit("mpp");
    assert(is_ascii("mpp"));
    reveal_strlit("wcm");
    assert(is_ascii("wcm"));
    reveal_strlit("wdb");
    assert(is_ascii("wdb"));
    reveal_strlit("wks");
    assert(is_ascii("wks"));
    reveal_strlit("wps");
    assert(is_ascii("wps"));
    reveal_strlit("hlp");
    assert(is_ascii("hlp"));
    reveal_strlit("bcpio");
    assert(is_ascii("bcpio"));
    reveal_strlit("cdf");
    assert(is_ascii("cdf"));
    reveal_strlit("z");
    assert(is_ascii("z"));
    reveal_strlit("tgz");
    assert(is_ascii("tgz"));
    reveal_strlit("cpio");
    assert(is_ascii("cpio"));
    reveal_strlit("csh");
    assert(is_ascii("csh"));
    reveal_strlit("dcr");
    assert(is_ascii("dcr"));
    reveal_strlit("dir");
    assert(is_ascii("dir"));
    reveal_strlit("dxr");
    assert(is_ascii("dxr"));
    reveal_strlit("dvi");
    assert(is_ascii("dvi"));
    reveal_strlit("gtar");
    assert(is_ascii("gtar"));
    reveal_strlit("gz");
    assert(is_ascii("gz"));
    reveal_strlit("hdf");
    assert(is_ascii("hdf"));
    reveal_strlit("ins");
    assert(is_ascii("ins"));
    reveal_strlit("isp");
    assert(is_ascii("isp"));
    reveal_strlit("iii");
    assert(is_ascii("iii"));
    reveal_strlit("js");
    assert(is_ascii("js"));
    reveal_strlit("latex");
    assert(is_ascii("latex"));
    reveal_strlit("mdb");
    assert(is_ascii("mdb"));
    reveal_strlit("crd");
    assert(is_ascii("crd"));
    reveal_strlit("clp");
    assert(is_ascii("clp"));
    reveal_strlit("dll");
    assert(is_ascii("dll"));
    reveal_strlit("m13");
    assert(is_ascii("m13"));
    reveal_strlit("m14");
    assert(is_ascii("m14"));
    reveal_strlit("mvb");
    assert(is_ascii("mvb"));
    reveal_strlit("wmf");
    assert(is_ascii("wmf"));
    reveal_strlit("mny");
    assert(is_ascii("mny"));
    reveal_strlit("pub");
    assert(is_ascii("pub"));
    reveal_strlit("scd");
    assert(is_ascii("scd"));
    reveal_strlit("trm");
    assert(is_ascii("trm"));
}

/// The octets of the extensions of part 3 of the table.
proof fn lemma_octets_3()
    ensures
        "wri".spec_bytes().len() == 3 && "wri".spec_bytes()[0] == 0x77 && "wri".spec_bytes()[1] == 0x72 && "wri".spec_bytes()[2] == 0x69,
        "nc".spec_bytes().len() == 2 && "nc".spec_bytes()[0] == 0x6e && "nc".spec_bytes()[1] == 0x63,
        "pma".spec_bytes().len() == 3 && "pma".spec_bytes()[0] == 0x70 && "pma".spec_bytes()[1] == 0x6d && "pma".spec_bytes()[2] == 0x61,
        "pmc".spec_bytes().len() == 3 && "pmc".spec_bytes()[0] == 0x70 && "pmc".spec_bytes()[1] == 0x6d && "pmc".spec_bytes()[2] == 0x63,
        "pml".spec_bytes().len() == 3 && "pml".spec_bytes()[0] == 0x70 && "pml".spec_bytes()[1] == 0x6d && "pml".spec_bytes()[2] == 0x6c,
        "pmr".spec_bytes().len() == 3 && "pmr".spec_bytes()[0] == 0x70 && "pmr".spec_bytes()[1] == 0x6d && "pmr".spec_bytes()[2] == 0x72,
        "pmw".spec_bytes().len() == 3 && "pmw".spec_bytes()[0] == 0x70 && "pmw".spec_bytes()[1] == 0x6d && "pmw".spec_bytes()[2] == 0x77,
        "p12".spec_bytes().len() == 3 && "p12".spec_bytes()[0] == 0x70 && "p12".spec_bytes()[1] == 0x31 && "p12".spec_bytes()[2] == 0x32,
        "pfx".spec_bytes().len() == 3 && "pfx".spec_bytes()[0] == 0x70 && "pfx".spec_bytes()[1] == 0x66 && "pfx".spec_bytes()[2] == 0x78,
        "p7b".spec_bytes().len() == 3 && "p7b".spec_bytes()[0] == 0x70 && "p7b".spec_bytes()[1] == 0x37 && "p7b".spec_bytes()[2] == 0x62,
        "spc".spec_bytes().len() == 3 && "spc".spec_bytes()[0] == 0x73 && "spc".spec_bytes()[1] == 0x70 && "spc".spec_bytes()[2] == 0x63,
        "p7r".spec_bytes().len() == 3 && "p7r".spec_bytes()[0] == 0x70 && "p7r".spec_bytes()[1] == 0x37 && "p7r".spec_bytes()[2] == 0x72,
        "p7c".spec_bytes().len() == 3 && "p7c".spec_bytes()[0] == 0x70 && "p7c".spec_bytes()[1] == 0x37 && "p7c".spec_bytes()[2] == 0x63,
        "p7m".spec_bytes().len() == 3 && "p7m".spec_bytes()[0] == 0x70 && "p7m".spec_bytes()[1] == 0x37 && "p7m".spec_bytes()[2] == 0x6d,
        "p7s".spec_bytes().len() == 3 && "p7s".spec_bytes()[0] == 0x70 && "p7s".spec_bytes()[1] == 0x37 && "p7s".spec_bytes()[2] == 0x73,
        "sh".spec_bytes().len() == 2 && "sh".spec_bytes()[0] == 0x73 && "sh".spec_bytes()[1] == 0x68,
        "shar".spec_bytes().len() == 4 && "shar".spec_bytes()[0] == 0x73 && "shar".spec_bytes()[1] == 0x68 && "shar".spec_bytes()[2] == 0x61 && "shar".spec_bytes()[3] == 0x72,
        "swf".spec_bytes().len() == 3 && "swf".spec_bytes()[0] == 0x73 && "swf".spec_bytes()[1] == 0x77 && "swf".spec_bytes()[2] == 0x66,
        "sit".spec_bytes().len() == 3 && "sit".spec_bytes()[0] == 0x73 && "sit".spec_bytes()[1] == 0x69 && "sit".spec_bytes()[2] == 0x74,
        "sv4cpio".spec_bytes().len() == 7 && "sv4cpio".spec_bytes()[0] == 0x73 && "sv4cpio".spec_bytes()[1] == 0x76 && "sv4cpio".spec_bytes()[2] == 0x34 && "sv4cpio".spec_bytes()[3] == 0x63 && "sv4cpio".spec_bytes()[4] == 0x70 && "sv4cpio".spec_bytes()[5] == 0x69 && "sv4cpio".spec_bytes()[6] == 0x6f,
        "sv4crc".spec_bytes().len() == 6 && "sv4crc".spec_bytes()[0] == 0x73 && "sv4crc".spec_bytes()[1] == 0x76 && "sv4crc".spec_bytes()[2] == 0x34 && "sv4crc".spec_bytes()[3] == 0x63 && "sv4crc".spec_bytes()[4] == 0x72 && "sv4crc".spec_bytes()[5] == 0x63,
        "tar".spec_bytes().len() == 3 && "tar".spec_bytes()[0] == 0x74 && "tar".spec_bytes()[1] == 0x61 && "tar".spec_bytes()[2] == 0x72,
        "tcl".spec_bytes().len() == 3 && "tcl".spec_bytes()[0] == 0x74 && "tcl".spec_bytes()[1] == 0x63 && "tcl".spec_bytes()[2] == 0x6c,
        "tex".spec_bytes().len() == 3 && "tex".spec_bytes()[0] == 0x74 && "tex".spec_bytes()[1] == 0x65 && "tex".spec_bytes()[2] == 0x78,
        "texi".spec_bytes().len() == 4 && "texi".spec_bytes()[0] == 0x74 && "texi".spec_bytes()[1] == 0x65 && "texi".spec_bytes()[2] == 0x78 && "texi".spec_bytes()[3] == 0x69,
        "texinfo".spec_bytes().len() == 7 && "texinfo".spec_bytes()[0] == 0x74 && "texinfo".spec_bytes()[1] == 0x65 && "texinfo".spec_bytes()[2] == 0x78 && "texinfo".spec_bytes()[3] == 0x69 && "texinfo".spec_bytes()[4] == 0x6e && "texinfo".spec_bytes()[5] == 0x66 && "texinfo".spec_bytes()[6] == 0x6f,
        "roff".spec_bytes().len() == 4 && "roff".spec_bytes()[0] == 0x72 && "roff".spec_bytes()[1] == 0x6f && "roff".spec_bytes()[2] == 0x66 && "roff".spec_bytes()[3] == 0x66,
        "t".spec_bytes().len() == 1 && "t".spec_bytes()[0] == 0x74,
        "tr".spec_bytes().len() == 2 && "tr".spec_bytes()[0] == 0x74 && "tr".spec_bytes()[1] == 0x72,
        "man".spec_bytes().len() == 3 && "man".spec_bytes()[0] == 0x6d && "man".spec_bytes()[1] == 0x61 && "man".spec_bytes()[2] == 0x6e,
        "me".spec_bytes().len() == 2 && "me".spec_bytes()[0] == 0x6d && "me".spec_bytes()[1] == 0x65,
        "ms".spec_bytes().len() == 2 && "ms".spec_bytes()[0] == 0x6d && "ms".spec_bytes()[1] == 0x73,
        "ustar".spec_bytes().len() == 5 && "ustar".spec_bytes()[0] == 0x75 && "ustar".spec_bytes()[1] == 0x73 && "ustar".spec_bytes()[2] == 0x74 && "ustar".spec_bytes()[3] == 0x61 && "ustar".spec_bytes()[4] == 0x72,
        "src".spec_bytes().len() == 3 && "src".spec_bytes()[0] == 0x73 && "src".spec_bytes()[1] == 0x72 && "src".spec_bytes()[2] == 0x63,
        "cer".spec_bytes().len() == 3 && "cer".spec_bytes()[0] == 0x63 && "cer".spec_bytes()[1] == 0x65 && "cer".spec_bytes()[2] == 0x72,
        "crt".spec_bytes().len() == 3 && "crt".spec_bytes()[0] == 0x63 && "crt".spec_bytes()[1] == 0x72 && "crt".spec_bytes()[2] == 0x74,
        "der".spec_bytes().len() == 3 && "der".spec_bytes()[0] == 0x64 && "der".spec_bytes()[1] == 0x65 && "der".spec_bytes()[2] == 0x72,
        "pko".spec_bytes().len() == 3 && "pko".spec_bytes()[0] == 0x70 && "pko".spec_bytes()[1] == 0x6b && "pko".spec_bytes()[2] == 0x6f,
{
    broadcast use is_ascii_spec_bytes;
    reveal_strlit("wri");
    assert(is_ascii("wri"));
    reveal_strlit("nc");
    assert(is_ascii("nc"));
    reveal_strlit("pma");
    assert(is_ascii("pma"));
    reveal_strlit("pmc");
    assert(is_ascii("pmc"));
    reveal_strlit("pml");
    assert(is_ascii("pml"));
    reveal_strlit("pmr");
    assert(is_ascii("pmr"));
    reveal_strlit("pmw");
    assert(is_ascii("pmw"));
    reveal_strlit("p12");
    assert(is_ascii("p12"));
    reveal_strlit("pfx");
    assert(is_ascii("pfx"));
    reveal_strlit("p7b");
    assert(is_ascii("p7b"));
    reveal_strlit("spc");
    assert(is_ascii("spc"));
    reveal_strlit("p7r");
    assert(is_ascii("p7r"));
    reveal_strlit("p7c");
    assert(is_ascii("p7c"));
    reveal_strlit("p7m");
    assert(is_ascii("p7m"));
    reveal_strlit("p7s");
    assert(is_ascii("p7s"));
    reveal_strlit("sh");
    assert(is_ascii("sh"));
    reveal_strlit("shar");
    assert(is_ascii("shar"));
    reveal_strlit("swf");
    assert(is_ascii("swf"));
    reveal_strlit("sit");
    assert(is_ascii("sit"));
    reveal_strlit("sv4cpio");
    assert(is_ascii("sv4cpio"));
    reveal_strlit("sv4crc");
    assert(is_ascii("sv4crc"));
    reveal_strlit("tar");
    assert(is_ascii("tar"));
    reveal_strlit("tcl");
    assert(is_ascii("tcl"));
    reveal_strlit("tex");
    assert(is_ascii("tex"));
    reveal_strlit("texi");
    assert(is_ascii("texi"));
    reveal_strlit("texinfo");
    assert(is_ascii("texinfo"));
    reveal_strlit("roff");
    assert(is_ascii("roff"));
    reveal_strlit("t");
    assert(is_ascii("t"));
    reveal_strlit("tr");
    assert(is_ascii("tr"));
    reveal_strlit("man");
    assert(is_ascii("man"));
    reveal_strlit("me");
    assert(is_ascii("me"));
    reveal_strlit("ms");
    assert(is_ascii("ms"));
    reveal_strlit("ustar");
    assert(is_ascii("ustar"));
    reveal_strlit("src");
    assert(is_ascii("src"));
    reveal_strlit("cer");
    assert(is_ascii("cer"));
    reveal_strlit("crt");
    assert(is_ascii("crt"));
    reveal_strlit("der");
    assert(is_ascii("der"));
    reveal_strlit("pko");
    assert(is_ascii("pko"));
}

/// The octets of the extensions of part 4 of the table.
proof fn lemma_octets_4()
    ensures
        "zip".spec_bytes().len() == 3 && "zip".spec_bytes()[0] == 0x7a && "zip".spec_bytes()[1] == 0x69 && "zip".spec_bytes()[2] == 0x70,
        "au".spec_bytes().len() == 2 && "au".spec_bytes()[0] == 0x61 && "au".spec_bytes()[1] == 0x75,
        "snd".spec_bytes().len() == 3 && "snd".spec_bytes()[0] == 0x73 && "snd".spec_bytes()[1] == 0x6e && "snd".spec_bytes()[2] == 0x64,
        "mid".spec_bytes().len() == 3 && "mid".spec_bytes()[0] == 0x6d && "mid".spec_bytes()[1] == 0x69 && "mid".spec_bytes()[2] == 0x64,
        "rmi".spec_bytes().len() == 3 && "rmi".spec_bytes()[0] == 0x72 && "rmi".spec_bytes()[1] == 0x6d && "rmi".spec_bytes()[2] == 0x69,
        "mp3".spec_bytes().len() == 3 && "mp3".spec_bytes()[0] == 0x6d && "mp3".spec_bytes()[1] == 0x70 && "mp3".spec_bytes()[2] == 0x33,
        "aif".spec_bytes().len() == 3 && "aif".spec_bytes()[0] == 0x61 && "aif".spec_bytes()[1] == 0x69 && "aif".spec_bytes()[2] == 0x66,
        "aifc".spec_bytes().len() == 4 && "aifc".spec_bytes()[0] == 0x61 && "aifc".spec_bytes()[1] == 0x69 && "aifc".spec_bytes()[2] == 0x66 && "aifc".spec_bytes()[3] == 0x63,
        "aiff".spec_bytes().len() == 4 && "aiff".spec_bytes()[0] == 0x61 && "aiff".spec_bytes()[1] == 0x69 && "aiff".spec_bytes()[2] == 0x66 && "aiff".spec_bytes()[3] == 0x66,
        "m3u".spec_bytes().len() == 3 && "m3u".spec_bytes()[0] == 0x6d && "m3u".spec_bytes()[1] == 0x33 && "m3u".spec_bytes()[2] == 0x75,
        "ra".spec_bytes().len() == 2 && "ra".spec_bytes()[0] == 0x72 && "ra".spec_bytes()[1] == 0x61,
        "ram".spec_bytes().len() == 3 && "ram".spec_bytes()[0] == 0x72 && "ram".spec_bytes()[1] == 0x61 && "ram".spec_bytes()[2] == 0x6d,
        "wav".spec_bytes().len() == 3 && "wav".spec_bytes()[0] == 0x77 && "wav".spec_bytes()[1] == 0x61 && "wav".spec_bytes()[2] == 0x76,
        "bmp".spec_bytes().len() == 3 && "bmp".spec_bytes()[0] == 0x62 && "bmp".spec_bytes()[1] == 0x6d && "bmp".spec_bytes()[2] == 0x70,
        "cod".spec_bytes().len() == 3 && "cod".spec_bytes()[0] == 0x63 && "cod".spec_bytes()[1] == 0x6f && "cod".spec_bytes()[2] == 0x64,
        "gif".spec_bytes().len() == 3 && "gif".spec_bytes()[0] == 0x67 && "gif".spec_bytes()[1] == 0x69 && "gif".spec_bytes()[2] == 0x66,
        "ief".spec_bytes().len() == 3 && "ief".spec_bytes()[0] == 0x69 && "ief".spec_bytes()[1] == 0x65 && "ief".spec_bytes()[2] == 0x66,
        "jpe".spec_bytes().len() == 3 && "jpe".spec_bytes()[0] == 0x6a && "jpe".spec_bytes()[1] == 0x70 && "jpe".spec_bytes()[2] == 0x65,
        "jpeg".spec_bytes().len() == 4 && "jpeg".spec_bytes()[0] == 0x6a && "jpeg".spec_bytes()[1] == 0x70 && "jpeg".spec_bytes()[2] == 0x65 && "jpeg".spec_bytes()[3] == 0x67,
        "jpg".spec_bytes().len() == 3 && "jpg".spec_bytes()[0] == 0x6a && "jpg".spec_bytes()[1] == 0x70 && "jpg".spec_bytes()[2] == 0x67,
        "jfif".spec_bytes().len() == 4 && "jfif".spec_bytes()[0] == 0x6a && "jfif".spec_bytes()[1] == 0x66 && "jfif".spec_bytes()[2] == 0x69 && "jfif".spec_bytes()[3] == 0x66,
        "svg".spec_bytes().len() == 3 && "svg".spec_bytes()[0] == 0x73 && "svg".spec_bytes()[1] == 0x76 && "svg".spec_bytes()[2] == 0x67,
        "tif".spec_bytes().len() == 3 && "tif".spec_bytes()[0] == 0x74 && "tif".spec_bytes()[1] == 0x69 && "tif".spec_bytes()[2] == 0x66,
        "tiff".spec_bytes().len() == 4 && "tiff".spec_bytes()[0] == 0x74 && "tiff".spec_bytes()[1] == 0x69 && "tiff".spec_bytes()[2] == 0x66 && "tiff".spec_bytes()[3] == 0x66,
        "ras".spec_bytes().len() == 3 && "ras".spec_bytes()[0] == 0x72 && "ras".spec_bytes()[1] == 0x61 && "ras".spec_bytes()[2] == 0x73,
        "cmx".spec_bytes().len() == 3 && "cmx".spec_bytes()[0] == 0x63 && "cmx".spec_bytes()[1] == 0x6d && "cmx".spec_bytes()[2] == 0x78,
        "ico".spec_bytes().len() == 3 && "ico".spec_bytes()[0] == 0x69 && "ico".spec_bytes()[1] == 0x63 && "ico".spec_bytes()[2] == 0x6f,
        "pnm".spec_bytes().len() == 3 && "pnm".spec_bytes()[0] == 0x70 && "pnm".spec_bytes()[1] == 0x6e && "pnm".spec_bytes()[2] == 0x6d,
        "pbm".spec_bytes().len() == 3 && "pbm".spec_bytes()[0] == 0x70 && "pbm".spec_bytes()[1] == 0x62 && "pbm".spec_bytes()[2] == 0x6d,
        "pgm".spec_bytes().len() == 3 && "pgm".spec_bytes()[0] == 0x70 && "pgm".spec_bytes()[1] == 0x67 && "pgm".spec_bytes()[2] == 0x6d,
        "ppm".spec_bytes().len() == 3 && "ppm".spec_bytes()[0] == 0x70 && "ppm".spec_bytes()[1] == 0x70 && "ppm".spec_bytes()[2] == 0x6d,
        "rgb".spec_bytes().len() == 3 && "rgb".spec_bytes()[0] == 0x72 && "rgb".spec_bytes()[1] == 0x67 && "rgb".spec_bytes()[2] == 0x62,
        "xbm".spec_bytes().len() == 3 && "xbm".spec_bytes()[0] == 0x78 && "xbm".spec_bytes()[1] == 0x62 && "xbm".spec_bytes()[2] == 0x6d,
        "xpm".spec_bytes().len() == 3 && "xpm".spec_bytes()[0] == 0x78 && "xpm".spec_bytes()[1] == 0x70 && "xpm".spec_bytes()[2] == 0x6d,
        "xwd".spec_bytes().len() == 3 && "xwd".spec_bytes()[0] == 0x78 && "xwd".spec_bytes()[1] == 0x77 && "xwd".spec_bytes()[2] == 0x64,
        "mht".spec_bytes().len() == 3 && "mht".spec_bytes()[0] == 0x6d && "mht".spec_bytes()[1] == 0x68 && "mht".spec_bytes()[2] == 0x74,
        "mhtml".spec_bytes().len() == 5 && "mhtml".spec_bytes()[0] == 0x6d && "mhtml".spec_bytes()[1] == 0x68 && "mhtml".spec_bytes()[2] == 0x74 && "mhtml".spec_bytes()[3] == 0x6d && "mhtml".spec_bytes()[4] == 0x6c,
        "nws".spec_bytes().len() == 3 && "nws".spec_bytes()[0] == 0x6e && "nws".spec_bytes()[1] == 0x77 && "nws".spec_bytes()[2] == 0x73,
{
    broadcast use is_ascii_spec_bytes;
    reveal_strlit("zip");
    assert(is_ascii("zip"));
    reveal_strlit("au");
    assert(is_ascii("au"));
    reveal_strlit("snd");
    assert(is_ascii("snd"));
    reveal_strlit("mid");
    assert(is_ascii("mid"));
    reveal_strlit("rmi");
    assert(is_ascii("rmi"));
    reveal_strlit("mp3");
    assert(is_ascii("mp3"));
    reveal_strlit("aif");
    assert(is_ascii("aif"));
    reveal_strlit("aifc");
    assert(is_ascii("aifc"));
    reveal_strlit("aiff");
    assert(is_ascii("aiff"));
    reveal_strlit("m3u");
    assert(is_ascii("m3u"));
    reveal_strlit("ra");
    assert(is_ascii("ra"));
    reveal_strlit("ram");
    assert(is_ascii("ram"));
    reveal_strlit("wav");
    assert(is_ascii("wav"));
    reveal_strlit("bmp");
    assert(is_ascii("bmp"));
    reveal_strlit("cod");
    assert(is_ascii("cod"));
    reveal_strlit("gif");
    assert(is_ascii("gif"));
    reveal_strlit("ief");
    assert(is_ascii("ief"));
    reveal_strlit("jpe");
    assert(is_ascii("jpe"));
    reveal_strlit("jpeg");
    assert(is_ascii("jpeg"));
    reveal_strlit("jpg");
    assert(is_ascii("jpg"));
    reveal_strlit("jfif");
    assert(is_ascii("jfif"));
    reveal_strlit("svg");
    assert(is_ascii("svg"));
    reveal_strlit("tif");
    assert(is_ascii("tif"));
    reveal_strlit("tiff");
    assert(is_ascii("tiff"));
    reveal_strlit("ras");
    assert(is_ascii("ras"));
    reveal_strlit("cmx");
    assert(is_ascii("cmx"));
    reveal_strlit("ico");
    assert(is_ascii("ico"));
    reveal_strlit("pnm");
    assert(is_ascii("pnm"));
    reveal_strlit("pbm");
    assert(is_ascii("pbm"));
    reveal_strlit("pgm");
    assert(is_ascii("pgm"));
    reveal_strlit("ppm");
    assert(is_ascii("ppm"));
    reveal_strlit("rgb");
    assert(is_ascii("rgb"));
    reveal_strlit("xbm");
    assert(is_ascii("xbm"));
    reveal_strlit("xpm");
    assert(is_ascii("xpm"));
    reveal_strlit("xwd");
    assert(is_ascii("xwd"));
    reveal_strlit("mht");
    assert(is_ascii("mht"));
    reveal_strlit("mhtml");
    assert(is_ascii("mhtml"));
    reveal_strlit("nws");
    assert(is_ascii("nws"));
}

/// The octets of the extensions of part 5 of the table.
proof fn lemma_octets_5()
    ensures
        "css".spec_bytes().len() == 3 && "css".spec_bytes()[0] == 0x63 && "css".spec_bytes()[1] == 0x73 && "css".spec_bytes()[2] == 0x73,
        "323".spec_bytes().len() == 3 && "323".spec_bytes()[0] == 0x33 && "323".spec_bytes()[1] == 0x32 && "323".spec_bytes()[2] == 0x33,
        "htm".spec_bytes().len() == 3 && "htm".spec_bytes()[0] == 0x68 && "htm".spec_bytes()[1] == 0x74 && "htm".spec_bytes()[2] == 0x6d,
        "html".spec_bytes().len() == 4 && "html".spec_bytes()[0] == 0x68 && "html".spec_bytes()[1] == 0x74 && "html".spec_bytes()[2] == 0x6d && "html".spec_bytes()[3] == 0x6c,
        "stm".spec_bytes().len() == 3 && "stm".spec_bytes()[0] == 0x73 && "stm".spec_bytes()[1] == 0x74 && "stm".spec_bytes()[2] == 0x6d,
        "uls".spec_bytes().len() == 3 && "uls".spec_bytes()[0] == 0x75 && "uls".spec_bytes()[1] == 0x6c && "uls".spec_bytes()[2] == 0x73,
        "bas".spec_bytes().len() == 3 && "bas".spec_bytes()[0] == 0x62 && "bas".spec_bytes()[1] == 0x61 && "bas".spec_bytes()[2] == 0x73,
        "c".spec_bytes().len() == 1 && "c".spec_bytes()[0] == 0x63,
        "h".spec_bytes().len() == 1 && "h".spec_bytes()[0] == 0x68,
        "txt".spec_bytes().len() == 3 && "txt".spec_bytes()[0] == 0x74 && "txt".spec_bytes()[1] == 0x78 && "txt".spec_bytes()[2] == 0x74,
        "rtx".spec_bytes().len() == 3 && "rtx".spec_bytes()[0] == 0x72 && "rtx".spec_bytes()[1] == 0x74 && "rtx".spec_bytes()[2] == 0x78,
        "sct".spec_bytes().len() == 3 && "sct".spec_bytes()[0] == 0x73 && "sct".spec_bytes()[1] == 0x63 && "sct".spec_bytes()[2] == 0x74,
        "tsv".spec_bytes().len() == 3 && "tsv".spec_bytes()[0] == 0x74 && "tsv".spec_bytes()[1] == 0x73 && "tsv".spec_bytes()[2] == 0x76,
        "htt".spec_bytes().len() == 3 && "htt".spec_bytes()[0] == 0x68 && "htt".spec_bytes()[1] == 0x74 && "htt".spec_bytes()[2] == 0x74,
        "htc".spec_bytes().len() == 3 && "htc".spec_bytes()[0] == 0x68 && "htc".spec_bytes()[1] == 0x74 && "htc".spec_bytes()[2] == 0x63,
        "etx".spec_bytes().len() == 3 && "etx".spec_bytes()[0] == 0x65 && "etx".spec_bytes()[1] == 0x74 && "etx".spec_bytes()[2] == 0x78,
        "vcf".spec_bytes().len() == 3 && "vcf".spec_bytes()[0] == 0x76 && "vcf".spec_bytes()[1] == 0x63 && "vcf".spec_bytes()[2] == 0x66,
        "mp2".spec_bytes().len() == 3 && "mp2".spec_bytes()[0] == 0x6d && "mp2".spec_bytes()[1] == 0x70 && "mp2".spec_bytes()[2] == 0x32,
        "mpa".spec_bytes().len() == 3 && "mpa".spec_bytes()[0] == 0x6d && "mpa".spec_bytes()[1] == 0x70 && "mpa".spec_bytes()[2] == 0x61,
        "mpe".spec_bytes().len() == 3 && "mpe".spec_bytes()[0] == 0x6d && "mpe".spec_bytes()[1] == 0x70 && "mpe".spec_bytes()[2] == 0x65,
        "mpeg".spec_bytes().len() == 4 && "mpeg".spec_bytes()[0] == 0x6d && "mpeg".spec_bytes()[1] == 0x70 && "mpeg".spec_bytes()[2] == 0x65 && "mpeg".spec_bytes()[3] == 0x67,
        "mpg".spec_bytes().len() == 3 && "mpg".spec_bytes()[0] == 0x6d && "mpg".spec_bytes()[1] == 0x70 && "mpg".spec_bytes()[2] == 0x67,
        "mpv2".spec_bytes().len() == 4 && "mpv2".spec_bytes()[0] == 0x6d && "mpv2".spec_bytes()[1] == 0x70 && "mpv2".spec_bytes()[2] == 0x76 && "mpv2".spec_bytes()[3] == 0x32,
        "mov".spec_bytes().len() == 3 && "mov".spec_bytes()[0] == 0x6d && "mov".spec_bytes()[1] == 0x6f && "mov".spec_bytes()[2] == 0x76,
        "qt".spec_bytes().len() == 2 && "qt".spec_bytes()[0] == 0x71 && "qt".spec_bytes()[1] == 0x74,
        "lsf".spec_bytes().len() == 3 && "lsf".spec_bytes()[0] == 0x6c && "lsf".spec_bytes()[1] == 0x73 && "lsf".spec_bytes()[2] == 0x66,
        "lsx".spec_bytes().len() == 3 && "lsx".spec_bytes()[0] == 0x6c && "lsx".spec_bytes()[1] == 0x73 && "lsx".spec_bytes()[2] == 0x78,
        "asf".spec_bytes().len() == 3 && "asf".spec_bytes()[0] == 0x61 && "asf".spec_bytes()[1] == 0x73 && "asf".spec_bytes()[2] == 0x66,
        "asr".spec_bytes().len() == 3 && "asr".spec_bytes()[0] == 0x61 && "asr".spec_bytes()[1] == 0x73 && "asr".spec_bytes()[2] == 0x72,
        "asx".spec_bytes().len() == 3 && "asx".spec_bytes()[0] == 0x61 && "asx".spec_bytes()[1] == 0x73 && "asx".spec_bytes()[2] == 0x78,
        "avi".spec_bytes().len() == 3 && "avi".spec_bytes()[0] == 0x61 && "avi".spec_bytes()[1] == 0x76 && "avi".spec_bytes()[2] == 0x69,
        "movie".spec_bytes().len() == 5 && "movie".spec_bytes()[0] == 0x6d && "movie".spec_bytes()[1] == 0x6f && "movie".spec_bytes()[2] == 0x76 && "movie".spec_bytes()[3] == 0x69 && "movie".spec_bytes()[4] == 0x65,
        "flr".spec_bytes().len() == 3 && "flr".spec_bytes()[0] == 0x66 && "flr".spec_bytes()[1] == 0x6c && "flr".spec_bytes()[2] == 0x72,
        "vrml".spec_bytes().len() == 4 && "vrml".spec_bytes()[0] == 0x76 && "vrml".spec_bytes()[1] == 0x72 && "vrml".spec_bytes()[2] == 0x6d && "vrml".spec_bytes()[3] == 0x6c,
        "wrl".spec_bytes().len() == 3 && "wrl".spec_bytes()[0] == 0x77 && "wrl".spec_bytes()[1] == 0x72 && "wrl".spec_bytes()[2] == 0x6c,
        "wrz".spec_bytes().len() == 3 && "wrz".spec_bytes()[0] == 0x77 && "wrz".spec_bytes()[1] == 0x72 && "wrz".spec_bytes()[2] == 0x7a,
        "xaf".spec_bytes().len() == 3 && "xaf".spec_bytes()[0] == 0x78 && "xaf".spec_bytes()[1] == 0x61 && "xaf".spec_bytes()[2] == 0x66,
        "xof".spec_bytes().len() == 3 && "xof".spec_bytes()[0] == 0x78 && "xof".spec_bytes()[1] == 0x6f && "xof".spec_bytes()[2] == 0x66,
{
    broadcast use is_ascii_spec_bytes;
    reveal_strlit("css");
    assert(is_ascii("css"));
    reveal_strlit("323");
    assert(is_ascii("323"));
    reveal_strlit("htm");
    assert(is_ascii("htm"));
    reveal_strlit("html");
    assert(is_ascii("html"));
    reveal_strlit("stm");
    assert(is_ascii("stm"));
    reveal_strlit("uls");
    assert(is_ascii("uls"));
    reveal_strlit("bas");
    assert(is_ascii("bas"));
    reveal_strlit("c");
    assert(is_ascii("c"));
    reveal_strlit("h");
    assert(is_ascii("h"));
    reveal_strlit("txt");
    assert(is_ascii("txt"));
    reveal_strlit("rtx");
    assert(is_ascii("rtx"));
    reveal_strlit("sct");
    assert(is_ascii("sct"));
    reveal_strlit("tsv");
    assert(is_ascii("tsv"));
    reveal_strlit("htt");
    assert(is_ascii("htt"));
    reveal_strlit("htc");
    assert(is_ascii("htc"));
    reveal_strlit("etx");
    assert(is_ascii("etx"));
    reveal_strlit("vcf");
    assert(is_ascii("vcf"));
    reveal_strlit("mp2");
    assert(is_ascii("mp2"));
    reveal_strlit("mpa");
    assert(is_ascii("mpa"));
    reveal_strlit("mpe");
    assert(is_ascii("mpe"));
    reveal_strlit("mpeg");
    assert(is_ascii("mpeg"));
    reveal_strlit("mpg");
    assert(is_ascii("mpg"));
    reveal_strlit("mpv2");
    assert(is_ascii("mpv2"));
    reveal_strlit("mov");
    assert(is_ascii("mov"));
    reveal_strlit("qt");
    assert(is_ascii("qt"));
    reveal_strlit("lsf");
    assert(is_ascii("lsf"));
    reveal_strlit("lsx");
    assert(is_ascii("lsx"));
    reveal_strlit("asf");
    assert(is_ascii("asf"));
    reveal_strlit("asr");
    assert(is_ascii("asr"));
    reveal_strlit("asx");
    assert(is_ascii("asx"));
    reveal_strlit("avi");
    assert(is_ascii("avi"));
    reveal_strlit("movie");
    assert(is_ascii("movie"));
    reveal_strlit("flr");
    assert(is_ascii("flr"));
    reveal_strlit("vrml");
    assert(is_ascii("vrml"));
    reveal_strlit("wrl");
    assert(is_ascii("wrl"));
    reveal_strlit("wrz");
    assert(is_ascii("wrz"));
    reveal_strlit("xaf");
    assert(is_ascii("xaf"));
    reveal_strlit("xof");
    assert(is_ascii("xof"));
}

/// Part 1 of the table.
#[verifier::spinoff_prover]
#[verifier::rlimit(50)]
proof fn lemma_table_1()
    ensures
        extension_entry("evy".spec_bytes()) == Some(("application/envoy".spec_bytes(), 11nat, MimeTypeTag::Application)),
        extension_entry("fif".spec_bytes()) == Some(("application/fractals".spec_bytes(), 11nat, MimeTypeTag::Application)),
        extension_entry("spl".spec_bytes()) == Some(("application/futuresplash".spec_bytes(), 11nat, MimeTypeTag::Application)),
        extension_entry("hta".spec_bytes()) == Some(("application/hta".spec_bytes(), 11nat, MimeTypeTag::Application)),
        extension_entry("acx".spec_bytes()) == Some(("application/internet-property-stream".spec_bytes(), 11nat, MimeTypeTag::Application)),
        extension_entry("hqx".spec_bytes()) == Some(("application/mac-binhex40".spec_bytes(), 11nat, MimeTypeTag::Application)),
        extension_entry("doc".spec_bytes()) == Some(("application/msword".spec_bytes(), 11nat, MimeTypeTag::Application)),
        extension_entry("dot".spec_bytes()) == Some(("application/msword".spec_bytes(), 11nat, MimeTypeTag::Application)),
        extension_entry("*".spec_bytes()) == Some(("application/octet-stream".spec_bytes(), 11nat, MimeTypeTag::Application)),
        extension_entry("bin".spec_bytes()) == Some(("application/octet-stream".spec_bytes(), 11nat, MimeTypeTag::Application)),
        extension_entry("class".spec_bytes()) == Some(("application/octet-stream".spec_bytes(), 11nat, MimeTypeTag::Application)),
        extension_entry("dms".spec_bytes()) == Some(("application/octet-stream".spec_bytes(), 11nat, MimeTypeTag::Application)),
        extension_entry("exe".spec_bytes()) == Some(("application/octet-stream".spec_bytes(), 11nat, MimeTypeTag::Application)),
        extension_entry("lha".spec_bytes()) == Some(("application/octet-stream".spec_bytes(), 11nat, MimeTypeTag::Application)),
        extension_entry("lzh".spec_bytes()) == Some(("application/octet-stream".spec_bytes(), 11nat, MimeTypeTag::Application)),
        extension_entry("oda".spec_bytes()) == Some(("application/oda".spec_bytes(), 11nat, MimeTypeTag::Application)),
        extension_entry("axs".spec_bytes()) == Some(("application/olescript".spec_bytes(), 11nat, MimeTypeTag::Application)),
        extension_entry("pdf".spec_bytes()) == Some(("application/pdf".spec_bytes(), 11nat, MimeTypeTag::Application)),
        extension_entry("prf".spec_bytes()) == Some(("application/pics-rules".spec_bytes(), 11nat, MimeTypeTag::Application)),
        extension_entry("p10".spec_bytes()) == Some(("application/pkcs10".spec_bytes(), 11nat, MimeTypeTag::Application)),
        extension_entry("crl".spec_bytes()) == Some(("application/pkix-crl".spec_bytes(), 11nat, MimeTypeTag::Application)),
        extension_entry("ai".spec_bytes()) == Some(("application/postscript".spec_bytes(), 11nat, MimeTypeTag::Application)),
        extension_entry("eps".spec_bytes()) == Some(("application/postscript".spec_bytes(), 11nat, MimeTypeTag::Application)),
        extension_entry("ps".spec_bytes()) == Some(("application/postscript".spec_bytes(), 11nat, MimeTypeTag::Application)),
        extension_entry("rtf".spec_bytes()) == Some(("application/rtf".spec_bytes(), 11nat, MimeTypeTag::Application)),
        extension_entry("setpay".spec_bytes()) == Some(("application/set-payment-initiation".spec_bytes(), 11nat, MimeTypeTag::Application)),
        extension_entry("setreg".spec_bytes()) == Some(("application/set-registration-initiation".spec_bytes(), 11nat, MimeTypeTag::Application)),
        extension_entry("xla".spec_bytes()) == Some(("application/vnd.ms-excel".spec_bytes(), 11nat, MimeTypeTag::Application)),
        extension_entry("xlc".spec_bytes()) == Some(("application/vnd.ms-excel".spec_bytes(), 11nat, MimeTypeTag::Application)),
        extension_entry("xlm".spec_bytes()) == Some(("application/vnd.ms-excel".spec_bytes(), 11nat, MimeTypeTag::Application)),
        extension_entry("xls".spec_bytes()) == Some(("application/vnd.ms-excel".spec_bytes(), 11nat, MimeTypeTag::Application)),
        extension_entry("xlt".spec_bytes()) == Some(("application/vnd.ms-excel".spec_bytes(), 11nat, MimeTypeTag::Application)),
        extension_entry("xlw".spec_bytes()) == Some(("application/vnd.ms-excel".spec_bytes(), 11nat, MimeTypeTag::Application)),
        extension_entry("msg".spec_bytes()) == Some(("application/vnd.ms-outlook".spec_bytes(), 11nat, MimeTypeTag::Application)),
        extension_entry("sst".spec_bytes()) == Some(("application/vnd.ms-pkicertstore".spec_bytes(), 11nat, MimeTypeTag::Application)),
        extension_entry("cat".spec_bytes()) == Some(("application/vnd.ms-pkiseccat".spec_bytes(), 11nat, MimeTypeTag::Application)),
        extension_entry("stl".spec_bytes()) == Some(("application/vnd.ms-pkistl".spec_bytes(), 11nat, MimeTypeTag::Application)),
        extension_entry("pot".spec_bytes()) == Some(("application/vnd.ms-powerpoint".spec_bytes(), 11nat, MimeTypeTag::Application)),
{
    lemma_octets_1();
}

/// Part 2 of the table.
#[verifier::spinoff_prover]
#[verifier::rlimit(50)]
proof fn lemma_table_2()
    ensures
        extension_entry("pps".spec_bytes()) == Some(("application/vnd.ms-powerpoint".spec_bytes(), 11nat, MimeTypeTag::Application)),
        extension_entry("ppt".spec_bytes()) == Some(("application/vnd.ms-powerpoint".spec_bytes(), 11nat, MimeTypeTag::Application)),
        extension_entry("mpp".spec_bytes()) == Some(("application/vnd.ms-project".spec_bytes(), 11nat, MimeTypeTag::Application)),
        extension_entry("wcm".spec_bytes()) == Some(("application/vnd.ms-works".spec_bytes(), 11nat, MimeTypeTag::Application)),
        extension_entry("wdb".spec_bytes()) == Some(("application/vnd.ms-works".spec_bytes(), 11nat, MimeTypeTag::Application)),
        extension_entry("wks".spec_bytes()) == Some(("application/vnd.ms-works".spec_bytes(), 11nat, MimeTypeTag::Application)),
        extension_entry("wps".spec_bytes()) == Some(("application/vnd.ms-works".spec_bytes(), 11nat, MimeTypeTag::Application)),
        extension_entry("hlp".spec_bytes()) == Some(("application/winhlp".spec_bytes(), 11nat, MimeTypeTag::Application)),
        extension_entry("bcpio".spec_bytes()) == Some(("application/x-bcpio".spec_bytes(), 11nat, MimeTypeTag::Application)),
        extension_entry("cdf".spec_bytes()) == Some(("application/x-cdf".spec_bytes(), 11nat, MimeTypeTag::Application)),
        extension_entry("z".spec_bytes()) == Some(("application/x-compress".spec_bytes(), 11nat, MimeTypeTag::Application)),
        extension_entry("tgz".spec_bytes()) == Some(("application/x-compressed".spec_bytes(), 11nat, MimeTypeTag::Application)),
        extension_entry("cpio".spec_bytes()) == Some(("application/x-cpio".spec_bytes(), 11nat, MimeTypeTag::Application)),
        extension_entry("csh".spec_bytes()) == Some(("application/x-csh".spec_bytes(), 11nat, MimeTypeTag::Application)),
        extension_entry("dcr".spec_bytes()) == Some(("application/x-director".spec_bytes(), 11nat, MimeTypeTag::Application)),
        extension_entry("dir".spec_bytes()) == Some(("application/x-director".spec_bytes(), 11nat, MimeTypeTag::Application)),
        extension_entry("dxr".spec_bytes()) == Some(("application/x-director".spec_bytes(), 11nat, MimeTypeTag::Application)),
        extension_entry("dvi".spec_bytes()) == Some(("application/x-dvi".spec_bytes(), 11nat, MimeTypeTag::Application)),
        extension_entry("gtar".spec_bytes()) == Some(("application/x-gtar".spec_bytes(), 11nat, MimeTypeTag::Application)),
        extension_entry("gz".spec_bytes()) == Some(("application/x-gzip".spec_bytes(), 11nat, MimeTypeTag::Application)),
        extension_entry("hdf".spec_bytes()) == Some(("application/x-hdf".spec_bytes(), 11nat, MimeTypeTag::Application)),
        extension_entry("ins".spec_bytes()) == Some(("application/x-internet-signup".spec_bytes(), 11nat, MimeTypeTag::Application)),
        extension_entry("isp".spec_bytes()) == Some(("application/x-internet-signup".spec_bytes(), 11nat, MimeTypeTag::Application)),
        extension_entry("iii".spec_bytes()) == Some(("application/x-iphone".spec_bytes(), 11nat, MimeTypeTag::Application)),
        extension_entry("js".spec_bytes()) == Some(("application/x-javascript".spec_bytes(), 11nat, MimeTypeTag::Application)),
        extension_entry("latex".spec_bytes()) == Some(("application/x-latex".spec_bytes(), 11nat, MimeTypeTag::Application)),
        extension_entry("mdb".spec_bytes()) == Some(("application/x-msaccess".spec_bytes(), 11nat, MimeTypeTag::Application)),
        extension_entry("crd".spec_bytes()) == Some(("application/x-mscardfile".spec_bytes(), 11nat, MimeTypeTag::Application)),
        extension_entry("clp".spec_bytes()) == Some(("application/x-msclip".spec_bytes(), 11nat, MimeTypeTag::Application)),
        extension_entry("dll".spec_bytes()) == Some(("application/x-msdownload".spec_bytes(), 11nat, MimeTypeTag::Application)),
        extension_entry("m13".spec_bytes()) == Some(("application/x-msmediaview".spec_bytes(), 11nat, MimeTypeTag::Application)),
        extension_entry("m14".spec_bytes()) == Some(("application/x-msmediaview".spec_bytes(), 11nat, MimeTypeTag::Application)),
        extension_entry("mvb".spec_bytes()) == Some(("application/x-msmediaview".spec_bytes(), 11nat, MimeTypeTag::Application)),
        extension_entry("wmf".spec_bytes()) == Some(("application/x-msmetafile".spec_bytes(), 11nat, MimeTypeTag::Application)),
        extension_entry("mny".spec_bytes()) == Some(("application/x-msmoney".spec_bytes(), 11nat, MimeTypeTag::Application)),
        extension_entry("pub".spec_bytes()) == Some(("application/x-mspublisher".spec_bytes(), 11nat, MimeTypeTag::Application)),
        extension_entry("scd".spec_bytes()) == Some(("application/x-msschedule".spec_bytes(), 11nat, MimeTypeTag::Application)),
        extension_entry("trm".spec_bytes()) == Some(("application/x-msterminal".spec_bytes(), 11nat, MimeTypeTag::Application)),
{
    lemma_octets_1();
    lemma_octets_2();
}

/// Part 3 of the table.
#[verifier::spinoff_prover]
#[verifier::rlimit(50)]
proof fn lemma_table_3()
    ensures
        extension_entry("wri".spec_bytes()) == Some(("application/x-mswrite".spec_bytes(), 11nat, MimeTypeTag::Application)),
        extension_entry("nc".spec_bytes()) == Some(("application/x-netcdf".spec_bytes(), 11nat, MimeTypeTag::Application)),
        extension_entry("pma".spec_bytes()) == Some(("application/x-perfmon".spec_bytes(), 11nat, MimeTypeTag::Application)),
        extension_entry("pmc".spec_bytes()) == Some(("application/x-perfmon".spec_bytes(), 11nat, MimeTypeTag::Application)),
        extension_entry("pml".spec_bytes()) == Some(("application/x-perfmon".spec_bytes(), 11nat, MimeTypeTag::Application)),
        extension_entry("pmr".spec_bytes()) == Some(("application/x-perfmon".spec_bytes(), 11nat, MimeTypeTag::Application)),
        extension_entry("pmw".spec_bytes()) == Some(("application/x-perfmon".spec_bytes(), 11nat, MimeTypeTag::Application)),
        extension_entry("p12".spec_bytes()) == Some(("application/x-pkcs12".spec_bytes(), 11nat, MimeTypeTag::Application)),
        extension_entry("pfx".spec_bytes()) == Some(("application/x-pkcs12".spec_bytes(), 11nat, MimeTypeTag::Application)),
        extension_entry("p7b".spec_bytes()) == Some(("application/x-pkcs7-certificates".spec_bytes(), 11nat, MimeTypeTag::Application)),
        extension_entry("spc".spec_bytes()) == Some(("application/x-pkcs7-certificates".spec_bytes(), 11nat, MimeTypeTag::Application)),
        extension_entry("p7r".spec_bytes()) == Some(("application/x-pkcs7-certificates".spec_bytes(), 11nat, MimeTypeTag::Application)),
        extension_entry("p7c".spec_bytes()) == Some(("application/x-pkcs7-mime".spec_bytes(), 11nat, MimeTypeTag::Application)),
        extension_entry("p7m".spec_bytes()) == Some(("application/x-pkcs7-mime".spec_bytes(), 11nat, MimeTypeTag::Application)),
        extension_entry("p7s".spec_bytes()) == Some(("application/x-pkcs7-signature".spec_bytes(), 11nat, MimeTypeTag::Application)),
        extension_entry("sh".spec_bytes()) == Some(("application/x-sh".spec_bytes(), 11nat, MimeTypeTag::Application)),
        extension_entry("shar".spec_bytes()) == Some(("application/x-shar".spec_bytes(), 11nat, MimeTypeTag::Application)),
        extension_entry("swf".spec_bytes()) == Some(("application/x-shockwave-flash".spec_bytes(), 11nat, MimeTypeTag::Application)),
        extension_entry("sit".spec_bytes()) == Some(("application/x-stuffit".spec_bytes(), 11nat, MimeTypeTag::Application)),
        extension_entry("sv4cpio".spec_bytes()) == Some(("application/x-sv4cpio".spec_bytes(), 11nat, MimeTypeTag::Application)),
        extension_entry("sv4crc".spec_bytes()) == Some(("application/x-sv4crc".spec_bytes(), 11nat, MimeTypeTag::Application)),
        extension_entry("tar".spec_bytes()) == Some(("application/x-tar".spec_bytes(), 11nat, MimeTypeTag::Application)),
        extension_entry("tcl".spec_bytes()) == Some(("application/x-tcl".spec_bytes(), 11nat, MimeTypeTag::Application)),
        extension_entry("tex".spec_bytes()) == Some(("application/x-tex".spec_bytes(), 11nat, MimeTypeTag::Application)),
        extension_entry("texi".spec_bytes()) == Some(("application/x-texinfo".spec_bytes(), 11nat, MimeTypeTag::Application)),
        extension_entry("texinfo".spec_bytes()) == Some(("application/x-texinfo".spec_bytes(), 11nat, MimeTypeTag::Application)),
        extension_entry("roff".spec_bytes()) == Some(("application/x-troff".spec_bytes(), 11nat, MimeTypeTag::Application)),
        extension_entry("t".spec_bytes()) == Some(("application/x-troff".spec_bytes(), 11nat, MimeTypeTag::Application)),
        extension_entry("tr".spec_bytes()) == Some(("application/x-troff".spec_bytes(), 11nat, MimeTypeTag::Application)),
        extension_entry("man".spec_bytes()) == Some(("application/x-troff-man".spec_bytes(), 11nat, MimeTypeTag::Application)),
        extension_entry("me".spec_bytes()) == Some(("application/x-troff-me".spec_bytes(), 11nat, MimeTypeTag::Application)),
        extension_entry("ms".spec_bytes()) == Some(("application/x-troff-ms".spec_bytes(), 11nat, MimeTypeTag::Application)),
        extension_entry("ustar".spec_bytes()) == Some(("application/x-ustar".spec_bytes(), 11nat, MimeTypeTag::Application)),
        extension_entry("src".spec_bytes()) == Some(("application/x-wais-source".spec_bytes(), 11nat, MimeTypeTag::Application)),
        extension_entry("cer".spec_bytes()) == Some(("application/x-x509-ca-cert".spec_bytes(), 11nat, MimeTypeTag::Application)),
        extension_entry("crt".spec_bytes()) == Some(("application/x-x509-ca-cert".spec_bytes(), 11nat, MimeTypeTag::Application)),
        extension_entry("der".spec_bytes()) == Some(("application/x-x509-ca-cert".spec_bytes(), 11nat, MimeTypeTag::Application)),
        extension_entry("pko".spec_bytes()) == Some(("application/ynd.ms-pkipko".spec_bytes(), 11nat, MimeTypeTag::Application)),
{
    lemma_octets_1();
    lemma_octets_2();
    lemma_octets_3();
}

/// Part 4 of the table.
#[verifier::spinoff_prover]
#[verifier::rlimit(50)]
proof fn lemma_table_4()
    ensures
        extension_entry("zip".spec_bytes()) == Some(("application/zip".spec_bytes(), 11nat, MimeTypeTag::Application)),
        extension_entry("au".spec_bytes()) == Some(("audio/basic".spec_bytes(), 5nat, MimeTypeTag::Audio)),
        extension_entry("snd".spec_bytes()) == Some(("audio/basic".spec_bytes(), 5nat, MimeTypeTag::Audio)),
        extension_entry("mid".spec_bytes()) == Some(("audio/mid".spec_bytes(), 5nat, MimeTypeTag::Audio)),
        extension_entry("rmi".spec_bytes()) == Some(("audio/mid".spec_bytes(), 5nat, MimeTypeTag::Audio)),
        extension_entry("mp3".spec_bytes()) == Some(("audio/mpeg".spec_bytes(), 5nat, MimeTypeTag::Audio)),
        extension_entry("aif".spec_bytes()) == Some(("audio/x-aiff".spec_bytes(), 5nat, MimeTypeTag::Audio)),
        extension_entry("aifc".spec_bytes()) == Some(("audio/x-aiff".spec_bytes(), 5nat, MimeTypeTag::Audio)),
        extension_entry("aiff".spec_bytes()) == Some(("audio/x-aiff".spec_bytes(), 5nat, MimeTypeTag::Audio)),
        extension_entry("m3u".spec_bytes()) == Some(("audio/x-mpegurl".spec_bytes(), 5nat, MimeTypeTag::Audio)),
        extension_entry("ra".spec_bytes()) == Some(("audio/x-pn-realaudio".spec_bytes(), 5nat, MimeTypeTag::Audio)),
        extension_entry("ram".spec_bytes()) == Some(("audio/x-pn-realaudio".spec_bytes(), 5nat, MimeTypeTag::Audio)),
        extension_entry("wav".spec_bytes()) == Some(("audio/x-wav".spec_bytes(), 5nat, MimeTypeTag::Audio)),
        extension_entry("bmp".spec_bytes()) == Some(("image/bmp".spec_bytes(), 5nat, MimeTypeTag::Image)),
        extension_entry("cod".spec_bytes()) == Some(("image/cis-cod".spec_bytes(), 5nat, MimeTypeTag::Image)),
        extension_entry("gif".spec_bytes()) == Some(("image/gif".spec_bytes(), 5nat, MimeTypeTag::Image)),
        extension_entry("ief".spec_bytes()) == Some(("image/ief".spec_bytes(), 5nat, MimeTypeTag::Image)),
        extension_entry("jpe".spec_bytes()) == Some(("image/jpeg".spec_bytes(), 5nat, MimeTypeTag::Image)),
        extension_entry("jpeg".spec_bytes()) == Some(("image/jpeg".spec_bytes(), 5nat, MimeTypeTag::Image)),
        extension_entry("jpg".spec_bytes()) == Some(("image/jpeg".spec_bytes(), 5nat, MimeTypeTag::Image)),
        extension_entry("jfif".spec_bytes()) == Some(("image/pipeg".spec_bytes(), 5nat, MimeTypeTag::Image)),
        extension_entry("svg".spec_bytes()) == Some(("image/svg+xml".spec_bytes(), 5nat, MimeTypeTag::Image)),
        extension_entry("tif".spec_bytes()) == Some(("image/tiff".spec_bytes(), 5nat, MimeTypeTag::Image)),
        extension_entry("tiff".spec_bytes()) == Some(("image/tiff".spec_bytes(), 5nat, MimeTypeTag::Image)),
        extension_entry("ras".spec_bytes()) == Some(("image/x-cmu-raster".spec_bytes(), 5nat, MimeTypeTag::Image)),
        extension_entry("cmx".spec_bytes()) == Some(("image/x-cmx".spec_bytes(), 5nat, MimeTypeTag::Image)),
        extension_entry("ico".spec_bytes()) == Some(("image/x-icon".spec_bytes(), 5nat, MimeTypeTag::Image)),
        extension_entry("pnm".spec_bytes()) == Some(("image/x-portable-anymap".spec_bytes(), 5nat, MimeTypeTag::Image)),
        extension_entry("pbm".spec_bytes()) == Some(("image/x-portable-bitmap".spec_bytes(), 5nat, MimeTypeTag::Image)),
        extension_entry("pgm".spec_bytes()) == Some(("image/x-portable-graymap".spec_bytes(), 5nat, MimeTypeTag::Image)),
        extension_entry("ppm".spec_bytes()) == Some(("image/x-portable-pixmap".spec_bytes(), 5nat, MimeTypeTag::Image)),
        extension_entry("rgb".spec_bytes()) == Some(("image/x-rgb".spec_bytes(), 5nat, MimeTypeTag::Image)),
        extension_entry("xbm".spec_bytes()) == Some(("image/x-xbitmap".spec_bytes(), 5nat, MimeTypeTag::Image)),
        extension_entry("xpm".spec_bytes()) == Some(("image/x-xpixmap".spec_bytes(), 5nat, MimeTypeTag::Image)),
        extension_entry("xwd".spec_bytes()) == Some(("image/x-xwindowdump".spec_bytes(), 5nat, MimeTypeTag::Image)),
        extension_entry("mht".spec_bytes()) == Some(("message/rfc822".spec_bytes(), 7nat, MimeTypeTag::Message)),
        extension_entry("mhtml".spec_bytes()) == Some(("message/rfc822".spec_bytes(), 7nat, MimeTypeTag::Message)),
        extension_entry("nws".spec_bytes()) == Some(("message/rfc822".spec_bytes(), 7nat, MimeTypeTag::Message)),
{
    lemma_octets_1();
    lemma_octets_2();
    lemma_octets_3();
    lemma_octets_4();
}

/// Part 5 of the table.
#[verifier::spinoff_prover]
#[verifier::rlimit(50)]
proof fn lemma_table_5()
    ensures
        extension_entry("css".spec_bytes()) == Some(("text/css".spec_bytes(), 4nat, MimeTypeTag::Text)),
        extension_entry("323".spec_bytes()) == Some(("text/h323".spec_bytes(), 4nat, MimeTypeTag::Text)),
        extension_entry("htm".spec_bytes()) == Some(("text/html".spec_bytes(), 4nat, MimeTypeTag::Text)),
        extension_entry("html".spec_bytes()) == Some(("text/html".spec_bytes(), 4nat, MimeTypeTag::Text)),
        extension_entry("stm".spec_bytes()) == Some(("text/html".spec_bytes(), 4nat, MimeTypeTag::Text)),
        extension_entry("uls".spec_bytes()) == Some(("text/iuls".spec_bytes(), 4nat, MimeTypeTag::Text)),
        extension_entry("bas".spec_bytes()) == Some(("text/plain".spec_bytes(), 4nat, MimeTypeTag::Text)),
        extension_entry("c".spec_bytes()) == Some(("text/plain".spec_bytes(), 4nat, MimeTypeTag::Text)),
        extension_entry("h".spec_bytes()) == Some(("text/plain".spec_bytes(), 4nat, MimeTypeTag::Text)),
        extension_entry("txt".spec_bytes()) == Some(("text/plain".spec_bytes(), 4nat, MimeTypeTag::Text)),
        extension_entry("rtx".spec_bytes()) == Some(("text/richtext".spec_bytes(), 4nat, MimeTypeTag::Text)),
        extension_entry("sct".spec_bytes()) == Some(("text/scriptlet".spec_bytes(), 4nat, MimeTypeTag::Text)),
        extension_entry("tsv".spec_bytes()) == Some(("text/tab-separated-values".spec_bytes(), 4nat, MimeTypeTag::Text)),
        extension_entry("htt".spec_bytes()) == Some(("text/webviewhtml".spec_bytes(), 4nat, MimeTypeTag::Text)),
        extension_entry("htc".spec_bytes()) == Some(("text/x-component".spec_bytes(), 4nat, MimeTypeTag::Text)),
        extension_entry("etx".spec_bytes()) == Some(("text/x-setext".spec_bytes(), 4nat, MimeTypeTag::Text)),
        extension_entry("vcf".spec_bytes()) == Some(("text/x-vcard".spec_bytes(), 4nat, MimeTypeTag::Text)),
        extension_entry("mp2".spec_bytes()) == Some(("video/mpeg".spec_bytes(), 5nat, MimeTypeTag::Video)),
        extension_entry("mpa".spec_bytes()) == Some(("video/mpeg".spec_bytes(), 5nat, MimeTypeTag::Video)),
        extension_entry("mpe".spec_bytes()) == Some(("video/mpeg".spec_bytes(), 5nat, MimeTypeTag::Video)),
        extension_entry("mpeg".spec_bytes()) == Some(("video/mpeg".spec_bytes(), 5nat, MimeTypeTag::Video)),
        extension_entry("mpg".spec_bytes()) == Some(("video/mpeg".spec_bytes(), 5nat, MimeTypeTag::Video)),
        extension_entry("mpv2".spec_bytes()) == Some(("video/mpeg".spec_bytes(), 5nat, MimeTypeTag::Video)),
        extension_entry("mov".spec_bytes()) == Some(("video/quicktime".spec_bytes(), 5nat, MimeTypeTag::Video)),
        extension_entry("qt".spec_bytes()) == Some(("video/quicktime".spec_bytes(), 5nat, MimeTypeTag::Video)),
        extension_entry("lsf".spec_bytes()) == Some(("video/x-la-asf".spec_bytes(), 5nat, MimeTypeTag::Video)),
        extension_entry("lsx".spec_bytes()) == Some(("video/x-la-asf".spec_bytes(), 5nat, MimeTypeTag::Video)),
        extension_entry("asf".spec_bytes()) == Some(("video/x-ms-asf".spec_bytes(), 5nat, MimeTypeTag::Video)),
        extension_entry("asr".spec_bytes()) == Some(("video/x-ms-asf".spec_bytes(), 5nat, MimeTypeTag::Video)),
        extension_entry("asx".spec_bytes()) == Some(("video/x-ms-asf".spec_bytes(), 5nat, MimeTypeTag::Video)),
        extension_entry("avi".spec_bytes()) == Some(("video/x-msvideo".spec_bytes(), 5nat, MimeTypeTag::Video)),
        extension_entry("movie".spec_bytes()) == Some(("video/x-sgi-movie".spec_bytes(), 5nat, MimeTypeTag::Video)),
        extension_entry("flr".spec_bytes()) == Some(("x-world/x-vrml".spec_bytes(), 7nat, MimeTypeTag::Xnew)),
        extension_entry("vrml".spec_bytes()) == Some(("x-world/x-vrml".spec_bytes(), 7nat, MimeTypeTag::Xnew)),
        extension_entry("wrl".spec_bytes()) == Some(("x-world/x-vrml".spec_bytes(), 7nat, MimeTypeTag::Xnew)),
        extension_entry("wrz".spec_bytes()) == Some(("x-world/x-vrml".spec_bytes(), 7nat, MimeTypeTag::Xnew)),
        extension_entry("xaf".spec_bytes()) == Some(("x-world/x-vrml".spec_bytes(), 7nat, MimeTypeTag::Xnew)),
        extension_entry("xof".spec_bytes()) == Some(("x-world/x-vrml".spec_bytes(), 7nat, MimeTypeTag::Xnew)),
{
    lemma_octets_1();
    lemma_octets_2();
    lemma_octets_3();
    lemma_octets_4();
    lemma_octets_5();
}

/// The media type of each extension of the table: for `html`, `htm` and
/// `stm` it is `text/html`, for `txt` `text/plain`, for `pdf`
/// `application/pdf`, and so on for every entry.
pub proof fn lemma_extension_table()
    ensures
        extension_entry("evy".spec_bytes()) == Some(("application/envoy".spec_bytes(), 11nat, MimeTypeTag::Application)),
        extension_entry("fif".spec_bytes()) == Some(("application/fractals".spec_bytes(), 11nat, MimeTypeTag::Application)),
        extension_entry("spl".spec_bytes()) == Some(("application/futuresplash".spec_bytes(), 11nat, MimeTypeTag::Application)),
        extension_entry("hta".spec_bytes()) == Some(("application/hta".spec_bytes(), 11nat, MimeTypeTag::Application)),
        extension_entry("acx".spec_bytes()) == Some(("application/internet-property-stream".spec_bytes(), 11nat, MimeTypeTag::Application)),
        extension_entry("hqx".spec_bytes()) == Some(("application/mac-binhex40".spec_bytes(), 11nat, MimeTypeTag::Application)),
        extension_entry("doc".spec_bytes()) == Some(("application/msword".spec_bytes(), 11nat, MimeTypeTag::Application)),
        extension_entry("dot".spec_bytes()) == Some(("application/msword".spec_bytes(), 11nat, MimeTypeTag::Application)),
        extension_entry("*".spec_bytes()) == Some(("application/octet-stream".spec_bytes(), 11nat, MimeTypeTag::Application)),
        extension_entry("bin".spec_bytes()) == Some(("application/octet-stream".spec_bytes(), 11nat, MimeTypeTag::Application)),
        extension_entry("class".spec_bytes()) == Some(("application/octet-stream".spec_bytes(), 11nat, MimeTypeTag::Application)),
        extension_entry("dms".spec_bytes()) == Some(("application/octet-stream".spec_bytes(), 11nat, MimeTypeTag::Application)),
        extension_entry("exe".spec_bytes()) == Some(("application/octet-stream".spec_bytes(), 11nat, MimeTypeTag::Application)),
        extension_entry("lha".spec_bytes()) == Some(("application/octet-stream".spec_bytes(), 11nat, MimeTypeTag::Application)),
        extension_entry("lzh".spec_bytes()) == Some(("application/octet-stream".spec_bytes(), 11nat, MimeTypeTag::Application)),
        extension_entry("oda".spec_bytes()) == Some(("application/oda".spec_bytes(), 11nat, MimeTypeTag::Application)),
        extension_entry("axs".spec_bytes()) == Some(("application/olescript".spec_bytes(), 11nat, MimeTypeTag::Application)),
        extension_entry("pdf".spec_bytes()) == Some(("application/pdf".spec_bytes(), 11nat, MimeTypeTag::Application)),
        extension_entry("prf".spec_bytes()) == Some(("application/pics-rules".spec_bytes(), 11nat, MimeTypeTag::Application)),
        extension_entry("p10".spec_bytes()) == Some(("application/pkcs10".spec_bytes(), 11nat, MimeTypeTag::Application)),
        extension_entry("crl".spec_bytes()) == Some(("application/pkix-crl".spec_bytes(), 11nat, MimeTypeTag::Application)),
        extension_entry("ai".spec_bytes()) == Some(("application/postscript".spec_bytes(), 11nat, MimeTypeTag::Application)),
        extension_entry("eps".spec_bytes()) == Some(("application/postscript".spec_bytes(), 11nat, MimeTypeTag::Application)),
        extension_entry("ps".spec_bytes()) == Some(("application/postscript".spec_bytes(), 11nat, MimeTypeTag::Application)),
        extension_entry("rtf".spec_bytes()) == Some(("application/rtf".spec_bytes(), 11nat, MimeTypeTag::Application)),
        extension_entry("setpay".spec_bytes()) == Some(("application/set-payment-initiation".spec_bytes(), 11nat, MimeTypeTag::Application)),
        extension_entry("setreg".spec_bytes()) == Some(("application/set-registration-initiation".spec_bytes(), 11nat, MimeTypeTag::Application)),
        extension_entry("xla".spec_bytes()) == Some(("application/vnd.ms-excel".spec_bytes(), 11nat, MimeTypeTag::Application)),
        extension_entry("xlc".spec_bytes()) == Some(("application/vnd.ms-excel".spec_bytes(), 11nat, MimeTypeTag::Application)),
        extension_entry("xlm".spec_bytes()) == Some(("application/vnd.ms-excel".spec_bytes(), 11nat, MimeTypeTag::Application)),
        extension_entry("xls".spec_bytes()) == Some(("application/vnd.ms-excel".spec_bytes(), 11nat, MimeTypeTag::Application)),
        extension_entry("xlt".spec_bytes()) == Some(("application/vnd.ms-excel".spec_bytes(), 11nat, MimeTypeTag::Application)),
        extension_entry("xlw".spec_bytes()) == Some(("application/vnd.ms-excel".spec_bytes(), 11nat, MimeTypeTag::Application)),
        extension_entry("msg".spec_bytes()) == Some(("application/vnd.ms-outlook".spec_bytes(), 11nat, MimeTypeTag::Application)),
        extension_entry("sst".spec_bytes()) == Some(("application/vnd.ms-pkicertstore".spec_bytes(), 11nat, MimeTypeTag::Application)),
        extension_entry("cat".spec_bytes()) == Some(("application/vnd.ms-pkiseccat".spec_bytes(), 11nat, MimeTypeTag::Application)),
        extension_entry("stl".spec_bytes()) == Some(("application/vnd.ms-pkistl".spec_bytes(), 11nat, MimeTypeTag::Application)),
        extension_entry("pot".spec_bytes()) == Some(("application/vnd.ms-powerpoint".spec_bytes(), 11nat, MimeTypeTag::Application)),
        extension_entry("pps".spec_bytes()) == Some(("application/vnd.ms-powerpoint".spec_bytes(), 11nat, MimeTypeTag::Application)),
        extension_entry("ppt".spec_bytes()) == Some(("application/vnd.ms-powerpoint".spec_bytes(), 11nat, MimeTypeTag::Application)),
        extension_entry("mpp".spec_bytes()) == Some(("application/vnd.ms-project".spec_bytes(), 11nat, MimeTypeTag::Application)),
        extension_entry("wcm".spec_bytes()) == Some(("application/vnd.ms-works".spec_bytes(), 11nat, MimeTypeTag::Application)),
        extension_entry("wdb".spec_bytes()) == Some(("application/vnd.ms-works".spec_bytes(), 11nat, MimeTypeTag::Application)),
        extension_entry("wks".spec_bytes()) == Some(("application/vnd.ms-works".spec_bytes(), 11nat, MimeTypeTag::Application)),
        extension_entry("wps".spec_bytes()) == Some(("application/vnd.ms-works".spec_bytes(), 11nat, MimeTypeTag::Application)),
        extension_entry("hlp".spec_bytes()) == Some(("application/winhlp".spec_bytes(), 11nat, MimeTypeTag::Application)),
        extension_entry("bcpio".spec_bytes()) == Some(("application/x-bcpio".spec_bytes(), 11nat, MimeTypeTag::Application)),
        extension_entry("cdf".spec_bytes()) == Some(("application/x-cdf".spec_bytes(), 11nat, MimeTypeTag::Application)),
        extension_entry("z".spec_bytes()) == Some(("application/x-compress".spec_bytes(), 11nat, MimeTypeTag::Application)),
        extension_entry("tgz".spec_bytes()) == Some(("application/x-compressed".spec_bytes(), 11nat, MimeTypeTag::Application)),
        extension_entry("cpio".spec_bytes()) == Some(("application/x-cpio".spec_bytes(), 11nat, MimeTypeTag::Application)),
        extension_entry("csh".spec_bytes()) == Some(("application/x-csh".spec_bytes(), 11nat, MimeTypeTag::Application)),
        extension_entry("dcr".spec_bytes()) == Some(("application/x-director".spec_bytes(), 11nat, MimeTypeTag::Application)),
        extension_entry("dir".spec_bytes()) == Some(("application/x-director".spec_bytes(), 11nat, MimeTypeTag::Application)),
        extension_entry("dxr".spec_bytes()) == Some(("application/x-director".spec_bytes(), 11nat, MimeTypeTag::Application)),
        extension_entry("dvi".spec_bytes()) == Some(("application/x-dvi".spec_bytes(), 11nat, MimeTypeTag::Application)),
        extension_entry("gtar".spec_bytes()) == Some(("application/x-gtar".spec_bytes(), 11nat, MimeTypeTag::Application)),
        extension_entry("gz".spec_bytes()) == Some(("application/x-gzip".spec_bytes(), 11nat, MimeTypeTag::Application)),
        extension_entry("hdf".spec_bytes()) == Some(("application/x-hdf".spec_bytes(), 11nat, MimeTypeTag::Application)),
        extension_entry("ins".spec_bytes()) == Some(("application/x-internet-signup".spec_bytes(), 11nat, MimeTypeTag::Application)),
        extension_entry("isp".spec_bytes()) == Some(("application/x-internet-signup".spec_bytes(), 11nat, MimeTypeTag::Application)),
        extension_entry("iii".spec_bytes()) == Some(("application/x-iphone".spec_bytes(), 11nat, MimeTypeTag::Application)),
        extension_entry("js".spec_bytes()) == Some(("application/x-javascript".spec_bytes(), 11nat, MimeTypeTag::Application)),
        extension_entry("latex".spec_bytes()) == Some(("application/x-latex".spec_bytes(), 11nat, MimeTypeTag::Application)),
        extension_entry("mdb".spec_bytes()) == Some(("application/x-msaccess".spec_bytes(), 11nat, MimeTypeTag::Application)),
        extension_entry("crd".spec_bytes()) == Some(("application/x-mscardfile".spec_bytes(), 11nat, MimeTypeTag::Application)),
        extension_entry("clp".spec_bytes()) == Some(("application/x-msclip".spec_bytes(), 11nat, MimeTypeTag::Application)),
        extension_entry("dll".spec_bytes()) == Some(("application/x-msdownload".spec_bytes(), 11nat, MimeTypeTag::Application)),
        extension_entry("m13".spec_bytes()) == Some(("application/x-msmediaview".spec_bytes(), 11nat, MimeTypeTag::Application)),
        extension_entry("m14".spec_bytes()) == Some(("application/x-msmediaview".spec_bytes(), 11nat, MimeTypeTag::Application)),
        extension_entry("mvb".spec_bytes()) == Some(("application/x-msmediaview".spec_bytes(), 11nat, MimeTypeTag::Application)),
        extension_entry("wmf".spec_bytes()) == Some(("application/x-msmetafile".spec_bytes(), 11nat, MimeTypeTag::Application)),
        extension_entry("mny".spec_bytes()) == Some(("application/x-msmoney".spec_bytes(), 11nat, MimeTypeTag::Application)),
        extension_entry("pub".spec_bytes()) == Some(("application/x-mspublisher".spec_bytes(), 11nat, MimeTypeTag::Application)),
        extension_entry("scd".spec_bytes()) == Some(("application/x-msschedule".spec_bytes(), 11nat, MimeTypeTag::Application)),
        extension_entry("trm".spec_bytes()) == Some(("application/x-msterminal".spec_bytes(), 11nat, MimeTypeTag::Application)),
        extension_entry("wri".spec_bytes()) == Some(("application/x-mswrite".spec_bytes(), 11nat, MimeTypeTag::Application)),
        extension_entry("nc".spec_bytes()) == Some(("application/x-netcdf".spec_bytes(), 11nat, MimeTypeTag::Application)),
        extension_entry("pma".spec_bytes()) == Some(("application/x-perfmon".spec_bytes(), 11nat, MimeTypeTag::Application)),
        extension_entry("pmc".spec_bytes()) == Some(("application/x-perfmon".spec_bytes(), 11nat, MimeTypeTag::Application)),
        extension_entry("pml".spec_bytes()) == Some(("application/x-perfmon".spec_bytes(), 11nat, MimeTypeTag::Application)),
        extension_entry("pmr".spec_bytes()) == Some(("application/x-perfmon".spec_bytes(), 11nat, MimeTypeTag::Application)),
        extension_entry("pmw".spec_bytes()) == Some(("application/x-perfmon".spec_bytes(), 11nat, MimeTypeTag::Application)),
        extension_entry("p12".spec_bytes()) == Some(("application/x-pkcs12".spec_bytes(), 11nat, MimeTypeTag::Application)),
        extension_entry("pfx".spec_bytes()) == Some(("application/x-pkcs12".spec_bytes(), 11nat, MimeTypeTag::Application)),
        extension_entry("p7b".spec_bytes()) == Some(("application/x-pkcs7-certificates".spec_bytes(), 11nat, MimeTypeTag::Application)),
        extension_entry("spc".spec_bytes()) == Some(("application/x-pkcs7-certificates".spec_bytes(), 11nat, MimeTypeTag::Application)),
        extension_entry("p7r".spec_bytes()) == Some(("application/x-pkcs7-certificates".spec_bytes(), 11nat, MimeTypeTag::Application)),
        extension_entry("p7c".spec_bytes()) == Some(("application/x-pkcs7-mime".spec_bytes(), 11nat, MimeTypeTag::Application)),
        extension_entry("p7m".spec_bytes()) == Some(("application/x-pkcs7-mime".spec_bytes(), 11nat, MimeTypeTag::Application)),
        extension_entry("p7s".spec_bytes()) == Some(("application/x-pkcs7-signature".spec_bytes(), 11nat, MimeTypeTag::Application)),
        extension_entry("sh".spec_bytes()) == Some(("application/x-sh".spec_bytes(), 11nat, MimeTypeTag::Application)),
        extension_entry("shar".spec_bytes()) == Some(("application/x-shar".spec_bytes(), 11nat, MimeTypeTag::Application)),
        extension_entry("swf".spec_bytes()) == Some(("application/x-shockwave-flash".spec_bytes(), 11nat, MimeTypeTag::Application)),
        extension_entry("sit".spec_bytes()) == Some(("application/x-stuffit".spec_bytes(), 11nat, MimeTypeTag::Application)),
        extension_entry("sv4cpio".spec_bytes()) == Some(("application/x-sv4cpio".spec_bytes(), 11nat, MimeTypeTag::Application)),
        extension_entry("sv4crc".spec_bytes()) == Some(("application/x-sv4crc".spec_bytes(), 11nat, MimeTypeTag::Application)),
        extension_entry("tar".spec_bytes()) == Some(("application/x-tar".spec_bytes(), 11nat, MimeTypeTag::Application)),
        extension_entry("tcl".spec_bytes()) == Some(("application/x-tcl".spec_bytes(), 11nat, MimeTypeTag::Application)),
        extension_entry("tex".spec_bytes()) == Some(("application/x-tex".spec_bytes(), 11nat, MimeTypeTag::Application)),
        extension_entry("texi".spec_bytes()) == Some(("application/x-texinfo".spec_bytes(), 11nat, MimeTypeTag::Application)),
        extension_entry("texinfo".spec_bytes()) == Some(("application/x-texinfo".spec_bytes(), 11nat, MimeTypeTag::Application)),
        extension_entry("roff".spec_bytes()) == Some(("application/x-troff".spec_bytes(), 11nat, MimeTypeTag::Application)),
        extension_entry("t".spec_bytes()) == Some(("application/x-troff".spec_bytes(), 11nat, MimeTypeTag::Application)),
        extension_entry("tr".spec_bytes()) == Some(("application/x-troff".spec_bytes(), 11nat, MimeTypeTag::Application)),
        extension_entry("man".spec_bytes()) == Some(("application/x-troff-man".spec_bytes(), 11nat, MimeTypeTag::Application)),
        extension_entry("me".spec_bytes()) == Some(("application/x-troff-me".spec_bytes(), 11nat, MimeTypeTag::Application)),
        extension_entry("ms".spec_bytes()) == Some(("application/x-troff-ms".spec_bytes(), 11nat, MimeTypeTag::Application)),
        extension_entry("ustar".spec_bytes()) == Some(("application/x-ustar".spec_bytes(), 11nat, MimeTypeTag::Application)),
        extension_entry("src".spec_bytes()) == Some(("application/x-wais-source".spec_bytes(), 11nat, MimeTypeTag::Application)),
        extension_entry("cer".spec_bytes()) == Some(("application/x-x509-ca-cert".spec_bytes(), 11nat, MimeTypeTag::Application)),
        extension_entry("crt".spec_bytes()) == Some(("application/x-x509-ca-cert".spec_bytes(), 11nat, MimeTypeTag::Application)),
        extension_entry("der".spec_bytes()) == Some(("application/x-x509-ca-cert".spec_bytes(), 11nat, MimeTypeTag::Application)),
        extension_entry("pko".spec_bytes()) == Some(("application/ynd.ms-pkipko".spec_bytes(), 11nat, MimeTypeTag::Application)),
        extension_entry("zip".spec_bytes()) == Some(("application/zip".spec_bytes(), 11nat, MimeTypeTag::Application)),
        extension_entry("au".spec_bytes()) == Some(("audio/basic".spec_bytes(), 5nat, MimeTypeTag::Audio)),
        extension_entry("snd".spec_bytes()) == Some(("audio/basic".spec_bytes(), 5nat, MimeTypeTag::Audio)),
        extension_entry("mid".spec_bytes()) == Some(("audio/mid".spec_bytes(), 5nat, MimeTypeTag::Audio)),
        extension_entry("rmi".spec_bytes()) == Some(("audio/mid".spec_bytes(), 5nat, MimeTypeTag::Audio)),
        extension_entry("mp3".spec_bytes()) == Some(("audio/mpeg".spec_bytes(), 5nat, MimeTypeTag::Audio)),
        extension_entry("aif".spec_bytes()) == Some(("audio/x-aiff".spec_bytes(), 5nat, MimeTypeTag::Audio)),
        extension_entry("aifc".spec_bytes()) == Some(("audio/x-aiff".spec_bytes(), 5nat, MimeTypeTag::Audio)),
        extension_entry("aiff".spec_bytes()) == Some(("audio/x-aiff".spec_bytes(), 5nat, MimeTypeTag::Audio)),
        extension_entry("m3u".spec_bytes()) == Some(("audio/x-mpegurl".spec_bytes(), 5nat, MimeTypeTag::Audio)),
        extension_entry("ra".spec_bytes()) == Some(("audio/x-pn-realaudio".spec_bytes(), 5nat, MimeTypeTag::Audio)),
        extension_entry("ram".spec_bytes()) == Some(("audio/x-pn-realaudio".spec_bytes(), 5nat, MimeTypeTag::Audio)),
        extension_entry("wav".spec_bytes()) == Some(("audio/x-wav".spec_bytes(), 5nat, MimeTypeTag::Audio)),
        extension_entry("bmp".spec_bytes()) == Some(("image/bmp".spec_bytes(), 5nat, MimeTypeTag::Image)),
        extension_entry("cod".spec_bytes()) == Some(("image/cis-cod".spec_bytes(), 5nat, MimeTypeTag::Image)),
        extension_entry("gif".spec_bytes()) == Some(("image/gif".spec_bytes(), 5nat, MimeTypeTag::Image)),
        extension_entry("ief".spec_bytes()) == Some(("image/ief".spec_bytes(), 5nat, MimeTypeTag::Image)),
        extension_entry("jpe".spec_bytes()) == Some(("image/jpeg".spec_bytes(), 5nat, MimeTypeTag::Image)),
        extension_entry("jpeg".spec_bytes()) == Some(("image/jpeg".spec_bytes(), 5nat, MimeTypeTag::Image)),
        extension_entry("jpg".spec_bytes()) == Some(("image/jpeg".spec_bytes(), 5nat, MimeTypeTag::Image)),
        extension_entry("jfif".spec_bytes()) == Some(("image/pipeg".spec_bytes(), 5nat, MimeTypeTag::Image)),
        extension_entry("svg".spec_bytes()) == Some(("image/svg+xml".spec_bytes(), 5nat, MimeTypeTag::Image)),
        extension_entry("tif".spec_bytes()) == Some(("image/tiff".spec_bytes(), 5nat, MimeTypeTag::Image)),
        extension_entry("tiff".spec_bytes()) == Some(("image/tiff".spec_bytes(), 5nat, MimeTypeTag::Image)),
        extension_entry("ras".spec_bytes()) == Some(("image/x-cmu-raster".spec_bytes(), 5nat, MimeTypeTag::Image)),
        extension_entry("cmx".spec_bytes()) == Some(("image/x-cmx".spec_bytes(), 5nat, MimeTypeTag::Image)),
        extension_entry("ico".spec_bytes()) == Some(("image/x-icon".spec_bytes(), 5nat, MimeTypeTag::Image)),
        extension_entry("pnm".spec_bytes()) == Some(("image/x-portable-anymap".spec_bytes(), 5nat, MimeTypeTag::Image)),
        extension_entry("pbm".spec_bytes()) == Some(("image/x-portable-bitmap".spec_bytes(), 5nat, MimeTypeTag::Image)),
        extension_entry("pgm".spec_bytes()) == Some(("image/x-portable-graymap".spec_bytes(), 5nat, MimeTypeTag::Image)),
        extension_entry("ppm".spec_bytes()) == Some(("image/x-portable-pixmap".spec_bytes(), 5nat, MimeTypeTag::Image)),
        extension_entry("rgb".spec_bytes()) == Some(("image/x-rgb".spec_bytes(), 5nat, MimeTypeTag::Image)),
        extension_entry("xbm".spec_bytes()) == Some(("image/x-xbitmap".spec_bytes(), 5nat, MimeTypeTag::Image)),
        extension_entry("xpm".spec_bytes()) == Some(("image/x-xpixmap".spec_bytes(), 5nat, MimeTypeTag::Image)),
        extension_entry("xwd".spec_bytes()) == Some(("image/x-xwindowdump".spec_bytes(), 5nat, MimeTypeTag::Image)),
        extension_entry("mht".spec_bytes()) == Some(("message/rfc822".spec_bytes(), 7nat, MimeTypeTag::Message)),
        extension_entry("mhtml".spec_bytes()) == Some(("message/rfc822".spec_bytes(), 7nat, MimeTypeTag::Message)),
        extension_entry("nws".spec_bytes()) == Some(("message/rfc822".spec_bytes(), 7nat, MimeTypeTag::Message)),
        extension_entry("css".spec_bytes()) == Some(("text/css".spec_bytes(), 4nat, MimeTypeTag::Text)),
        extension_entry("323".spec_bytes()) == Some(("text/h323".spec_bytes(), 4nat, MimeTypeTag::Text)),
        extension_entry("htm".spec_bytes()) == Some(("text/html".spec_bytes(), 4nat, MimeTypeTag::Text)),
        extension_entry("html".spec_bytes()) == Some(("text/html".spec_bytes(), 4nat, MimeTypeTag::Text)),
        extension_entry("stm".spec_bytes()) == Some(("text/html".spec_bytes(), 4nat, MimeTypeTag::Text)),
        extension_entry("uls".spec_bytes()) == Some(("text/iuls".spec_bytes(), 4nat, MimeTypeTag::Text)),
        extension_entry("bas".spec_bytes()) == Some(("text/plain".spec_bytes(), 4nat, MimeTypeTag::Text)),
        extension_entry("c".spec_bytes()) == Some(("text/plain".spec_bytes(), 4nat, MimeTypeTag::Text)),
        extension_entry("h".spec_bytes()) == Some(("text/plain".spec_bytes(), 4nat, MimeTypeTag::Text)),
        extension_entry("txt".spec_bytes()) == Some(("text/plain".spec_bytes(), 4nat, MimeTypeTag::Text)),
        extension_entry("rtx".spec_bytes()) == Some(("text/richtext".spec_bytes(), 4nat, MimeTypeTag::Text)),
        extension_entry("sct".spec_bytes()) == Some(("text/scriptlet".spec_bytes(), 4nat, MimeTypeTag::Text)),
        extension_entry("tsv".spec_bytes()) == Some(("text/tab-separated-values".spec_bytes(), 4nat, MimeTypeTag::Text)),
        extension_entry("htt".spec_bytes()) == Some(("text/webviewhtml".spec_bytes(), 4nat, MimeTypeTag::Text)),
        extension_entry("htc".spec_bytes()) == Some(("text/x-component".spec_bytes(), 4nat, MimeTypeTag::Text)),
        extension_entry("etx".spec_bytes()) == Some(("text/x-setext".spec_bytes(), 4nat, MimeTypeTag::Text)),
        extension_entry("vcf".spec_bytes()) == Some(("text/x-vcard".spec_bytes(), 4nat, MimeTypeTag::Text)),
        extension_entry("mp2".spec_bytes()) == Some(("video/mpeg".spec_bytes(), 5nat, MimeTypeTag::Video)),
        extension_entry("mpa".spec_bytes()) == Some(("video/mpeg".spec_bytes(), 5nat, MimeTypeTag::Video)),
        extension_entry("mpe".spec_bytes()) == Some(("video/mpeg".spec_bytes(), 5nat, MimeTypeTag::Video)),
        extension_entry("mpeg".spec_bytes()) == Some(("video/mpeg".spec_bytes(), 5nat, MimeTypeTag::Video)),
        extension_entry("mpg".spec_bytes()) == Some(("video/mpeg".spec_bytes(), 5nat, MimeTypeTag::Video)),
        extension_entry("mpv2".spec_bytes()) == Some(("video/mpeg".spec_bytes(), 5nat, MimeTypeTag::Video)),
        extension_entry("mov".spec_bytes()) == Some(("video/quicktime".spec_bytes(), 5nat, MimeTypeTag::Video)),
        extension_entry("qt".spec_bytes()) == Some(("video/quicktime".spec_bytes(), 5nat, MimeTypeTag::Video)),
        extension_entry("lsf".spec_bytes()) == Some(("video/x-la-asf".spec_bytes(), 5nat, MimeTypeTag::Video)),
        extension_entry("lsx".spec_bytes()) == Some(("video/x-la-asf".spec_bytes(), 5nat, MimeTypeTag::Video)),
        extension_entry("asf".spec_bytes()) == Some(("video/x-ms-asf".spec_bytes(), 5nat, MimeTypeTag::Video)),
        extension_entry("asr".spec_bytes()) == Some(("video/x-ms-asf".spec_bytes(), 5nat, MimeTypeTag::Video)),
        extension_entry("asx".spec_bytes()) == Some(("video/x-ms-asf".spec_bytes(), 5nat, MimeTypeTag::Video)),
        extension_entry("avi".spec_bytes()) == Some(("video/x-msvideo".spec_bytes(), 5nat, MimeTypeTag::Video)),
        extension_entry("movie".spec_bytes()) == Some(("video/x-sgi-movie".spec_bytes(), 5nat, MimeTypeTag::Video)),
        extension_entry("flr".spec_bytes()) == Some(("x-world/x-vrml".spec_bytes(), 7nat, MimeTypeTag::Xnew)),
        extension_entry("vrml".spec_bytes()) == Some(("x-world/x-vrml".spec_bytes(), 7nat, MimeTypeTag::Xnew)),
        extension_entry("wrl".spec_bytes()) == Some(("x-world/x-vrml".spec_bytes(), 7nat, MimeTypeTag::Xnew)),
        extension_entry("wrz".spec_bytes()) == Some(("x-world/x-vrml".spec_bytes(), 7nat, MimeTypeTag::Xnew)),
        extension_entry("xaf".spec_bytes()) == Some(("x-world/x-vrml".spec_bytes(), 7nat, MimeTypeTag::Xnew)),
        extension_entry("xof".spec_bytes()) == Some(("x-world/x-vrml".spec_bytes(), 7nat, MimeTypeTag::Xnew)),
{
    lemma_table_1();
    lemma_table_2();
    lemma_table_3();
    lemma_table_4();
    lemma_table_5();
}

} // verus!
