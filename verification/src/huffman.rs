//! The Huffman code of HPACK (RFC 7541, appendix B), used to compress
//! string literals: each octet is replaced by its code, most significant bit
//! first, and the result is padded to an octet boundary with the high bits
//! of the end-of-string code (all ones).
use vstd::prelude::*;
use vstd::arithmetic::power2::pow2;

verus! {

/// The code of a symbol (0 to 255 for octets, 256 for end-of-string) and its
/// length in bits.
pub open spec fn huffman_code(sym: u16) -> (u32, u8) {
    match sym {
        0 => (0x1ff8, 13),
        1 => (0x7fffd8, 23),
        2 => (0xfffffe2, 28),
        3 => (0xfffffe3, 28),
        4 => (0xfffffe4, 28),
        5 => (0xfffffe5, 28),
        6 => (0xfffffe6, 28),
        7 => (0xfffffe7, 28),
        8 => (0xfffffe8, 28),
        9 => (0xffffea, 24),
        10 => (0x3ffffffc, 30),
        11 => (0xfffffe9, 28),
        12 => (0xfffffea, 28),
        13 => (0x3ffffffd, 30),
        14 => (0xfffffeb, 28),
        15 => (0xfffffec, 28),
        16 => (0xfffffed, 28),
        17 => (0xfffffee, 28),
        18 => (0xfffffef, 28),
        19 => (0xffffff0, 28),
        20 => (0xffffff1, 28),
        21 => (0xffffff2, 28),
        22 => (0x3ffffffe, 30),
        23 => (0xffffff3, 28),
        24 => (0xffffff4, 28),
        25 => (0xffffff5, 28),
        26 => (0xffffff6, 28),
        27 => (0xffffff7, 28),
        28 => (0xffffff8, 28),
        29 => (0xffffff9, 28),
        30 => (0xffffffa, 28),
        31 => (0xffffffb, 28),
        32 => (0x14, 6),
        33 => (0x3f8, 10),
        34 => (0x3f9, 10),
        35 => (0xffa, 12),
        36 => (0x1ff9, 13),
        37 => (0x15, 6),
        38 => (0xf8, 8),
        39 => (0x7fa, 11),
        40 => (0x3fa, 10),
        41 => (0x3fb, 10),
        42 => (0xf9, 8),
        43 => (0x7fb, 11),
        44 => (0xfa, 8),
        45 => (0x16, 6),
        46 => (0x17, 6),
        47 => (0x18, 6),
        48 => (0x0, 5),
        49 => (0x1, 5),
        50 => (0x2, 5),
        51 => (0x19, 6),
        52 => (0x1a, 6),
        53 => (0x1b, 6),
        54 => (0x1c, 6),
        55 => (0x1d, 6),
        56 => (0x1e, 6),
        57 => (0x1f, 6),
        58 => (0x5c, 7),
        59 => (0xfb, 8),
        60 => (0x7ffc, 15),
        61 => (0x20, 6),
        62 => (0xffb, 12),
        63 => (0x3fc, 10),
        64 => (0x1ffa, 13),
        65 => (0x21, 6),
        66 => (0x5d, 7),
        67 => (0x5e, 7),
        68 => (0x5f, 7),
        69 => (0x60, 7),
        70 => (0x61, 7),
        71 => (0x62, 7),
        72 => (0x63, 7),
        73 => (0x64, 7),
        74 => (0x65, 7),
        75 => (0x66, 7),
        76 => (0x67, 7),
        77 => (0x68, 7),
        78 => (0x69, 7),
        79 => (0x6a, 7),
        80 => (0x6b, 7),
        81 => (0x6c, 7),
        82 => (0x6d, 7),
        83 => (0x6e, 7),
        84 => (0x6f, 7),
        85 => (0x70, 7),
        86 => (0x71, 7),
        87 => (0x72, 7),
        88 => (0xfc, 8),
        89 => (0x73, 7),
        90 => (0xfd, 8),
        91 => (0x1ffb, 13),
        92 => (0x7fff0, 19),
        93 => (0x1ffc, 13),
        94 => (0x3ffc, 14),
        95 => (0x22, 6),
        96 => (0x7ffd, 15),
        97 => (0x3, 5),
        98 => (0x23, 6),
        99 => (0x4, 5),
        100 => (0x24, 6),
        101 => (0x5, 5),
        102 => (0x25, 6),
        103 => (0x26, 6),
        104 => (0x27, 6),
        105 => (0x6, 5),
        106 => (0x74, 7),
        107 => (0x75, 7),
        108 => (0x28, 6),
        109 => (0x29, 6),
        110 => (0x2a, 6),
        111 => (0x7, 5),
        112 => (0x2b, 6),
        113 => (0x76, 7),
        114 => (0x2c, 6),
        115 => (0x8, 5),
        116 => (0x9, 5),
        117 => (0x2d, 6),
        118 => (0x77, 7),
        119 => (0x78, 7),
        120 => (0x79, 7),
        121 => (0x7a, 7),
        122 => (0x7b, 7),
        123 => (0x7ffe, 15),
        124 => (0x7fc, 11),
        125 => (0x3ffd, 14),
        126 => (0x1ffd, 13),
        127 => (0xffffffc, 28),
        128 => (0xfffe6, 20),
        129 => (0x3fffd2, 22),
        130 => (0xfffe7, 20),
        131 => (0xfffe8, 20),
        132 => (0x3fffd3, 22),
        133 => (0x3fffd4, 22),
        134 => (0x3fffd5, 22),
        135 => (0x7fffd9, 23),
        136 => (0x3fffd6, 22),
        137 => (0x7fffda, 23),
        138 => (0x7fffdb, 23),
        139 => (0x7fffdc, 23),
        140 => (0x7fffdd, 23),
        141 => (0x7fffde, 23),
        142 => (0xffffeb, 24),
        143 => (0x7fffdf, 23),
        144 => (0xffffec, 24),
        145 => (0xffffed, 24),
        146 => (0x3fffd7, 22),
        147 => (0x7fffe0, 23),
        148 => (0xffffee, 24),
        149 => (0x7fffe1, 23),
        150 => (0x7fffe2, 23),
        151 => (0x7fffe3, 23),
        152 => (0x7fffe4, 23),
        153 => (0x1fffdc, 21),
        154 => (0x3fffd8, 22),
        155 => (0x7fffe5, 23),
        156 => (0x3fffd9, 22),
        157 => (0x7fffe6, 23),
        158 => (0x7fffe7, 23),
        159 => (0xffffef, 24),
        160 => (0x3fffda, 22),
        161 => (0x1fffdd, 21),
        162 => (0xfffe9, 20),
        163 => (0x3fffdb, 22),
        164 => (0x3fffdc, 22),
        165 => (0x7fffe8, 23),
        166 => (0x7fffe9, 23),
        167 => (0x1fffde, 21),
        168 => (0x7fffea, 23),
        169 => (0x3fffdd, 22),
        170 => (0x3fffde, 22),
        171 => (0xfffff0, 24),
        172 => (0x1fffdf, 21),
        173 => (0x3fffdf, 22),
        174 => (0x7fffeb, 23),
        175 => (0x7fffec, 23),
        176 => (0x1fffe0, 21),
        177 => (0x1fffe1, 21),
        178 => (0x3fffe0, 22),
        179 => (0x1fffe2, 21),
        180 => (0x7fffed, 23),
        181 => (0x3fffe1, 22),
        182 => (0x7fffee, 23),
        183 => (0x7fffef, 23),
        184 => (0xfffea, 20),
        185 => (0x3fffe2, 22),
        186 => (0x3fffe3, 22),
        187 => (0x3fffe4, 22),
        188 => (0x7ffff0, 23),
        189 => (0x3fffe5, 22),
        190 => (0x3fffe6, 22),
        191 => (0x7ffff1, 23),
        192 => (0x3ffffe0, 26),
        193 => (0x3ffffe1, 26),
        194 => (0xfffeb, 20),
        195 => (0x7fff1, 19),
        196 => (0x3fffe7, 22),
        197 => (0x7ffff2, 23),
        198 => (0x3fffe8, 22),
        199 => (0x1ffffec, 25),
        200 => (0x3ffffe2, 26),
        201 => (0x3ffffe3, 26),
        202 => (0x3ffffe4, 26),
        203 => (0x7ffffde, 27),
        204 => (0x7ffffdf, 27),
        205 => (0x3ffffe5, 26),
        206 => (0xfffff1, 24),
        207 => (0x1ffffed, 25),
        208 => (0x7fff2, 19),
        209 => (0x1fffe3, 21),
        210 => (0x3ffffe6, 26),
        211 => (0x7ffffe0, 27),
        212 => (0x7ffffe1, 27),
        213 => (0x3ffffe7, 26),
        214 => (0x7ffffe2, 27),
        215 => (0xfffff2, 24),
        216 => (0x1fffe4, 21),
        217 => (0x1fffe5, 21),
        218 => (0x3ffffe8, 26),
        219 => (0x3ffffe9, 26),
        220 => (0xffffffd, 28),
        221 => (0x7ffffe3, 27),
        222 => (0x7ffffe4, 27),
        223 => (0x7ffffe5, 27),
        224 => (0xfffec, 20),
        225 => (0xfffff3, 24),
        226 => (0xfffed, 20),
        227 => (0x1fffe6, 21),
        228 => (0x3fffe9, 22),
        229 => (0x1fffe7, 21),
        230 => (0x1fffe8, 21),
        231 => (0x7ffff3, 23),
        232 => (0x3fffea, 22),
        233 => (0x3fffeb, 22),
        234 => (0x1ffffee, 25),
        235 => (0x1ffffef, 25),
        236 => (0xfffff4, 24),
        237 => (0xfffff5, 24),
        238 => (0x3ffffea, 26),
        239 => (0x7ffff4, 23),
        240 => (0x3ffffeb, 26),
        241 => (0x7ffffe6, 27),
        242 => (0x3ffffec, 26),
        243 => (0x3ffffed, 26),
        244 => (0x7ffffe7, 27),
        245 => (0x7ffffe8, 27),
        246 => (0x7ffffe9, 27),
        247 => (0x7ffffea, 27),
        248 => (0x7ffffeb, 27),
        249 => (0xffffffe, 28),
        250 => (0x7ffffec, 27),
        251 => (0x7ffffed, 27),
        252 => (0x7ffffee, 27),
        253 => (0x7ffffef, 27),
        254 => (0x7fffff0, 27),
        255 => (0x3ffffee, 26),
        256 => (0x3fffffff, 30),
        _ => (0, 0),
    }
}

/// The HPACK Huffman code (RFC 7541, Appendix B), symbol by symbol: the
/// code of each octet and of the end-of-string symbol, and its length in
/// bits; `F` is `1100001` and `N` is `1101001`, seven bits each.
pub proof fn lemma_huffman_code_table()
    ensures
        huffman_code(0) == (0x1ff8u32, 13u8),
        huffman_code(1) == (0x7fffd8u32, 23u8),
        huffman_code(2) == (0xfffffe2u32, 28u8),
        huffman_code(3) == (0xfffffe3u32, 28u8),
        huffman_code(4) == (0xfffffe4u32, 28u8),
        huffman_code(5) == (0xfffffe5u32, 28u8),
        huffman_code(6) == (0xfffffe6u32, 28u8),
        huffman_code(7) == (0xfffffe7u32, 28u8),
        huffman_code(8) == (0xfffffe8u32, 28u8),
        huffman_code(9) == (0xffffeau32, 24u8),
        huffman_code(10) == (0x3ffffffcu32, 30u8),
        huffman_code(11) == (0xfffffe9u32, 28u8),
        huffman_code(12) == (0xfffffeau32, 28u8),
        huffman_code(13) == (0x3ffffffdu32, 30u8),
        huffman_code(14) == (0xfffffebu32, 28u8),
        huffman_code(15) == (0xfffffecu32, 28u8),
        huffman_code(16) == (0xfffffedu32, 28u8),
        huffman_code(17) == (0xfffffeeu32, 28u8),
        huffman_code(18) == (0xfffffefu32, 28u8),
        huffman_code(19) == (0xffffff0u32, 28u8),
        huffman_code(20) == (0xffffff1u32, 28u8),
        huffman_code(21) == (0xffffff2u32, 28u8),
        huffman_code(22) == (0x3ffffffeu32, 30u8),
        huffman_code(23) == (0xffffff3u32, 28u8),
        huffman_code(24) == (0xffffff4u32, 28u8),
        huffman_code(25) == (0xffffff5u32, 28u8),
        huffman_code(26) == (0xffffff6u32, 28u8),
        huffman_code(27) == (0xffffff7u32, 28u8),
        huffman_code(28) == (0xffffff8u32, 28u8),
        huffman_code(29) == (0xffffff9u32, 28u8),
        huffman_code(30) == (0xffffffau32, 28u8),
        huffman_code(31) == (0xffffffbu32, 28u8),
        huffman_code(32) == (0x14u32, 6u8),
        huffman_code(33) == (0x3f8u32, 10u8),
        huffman_code(34) == (0x3f9u32, 10u8),
        huffman_code(35) == (0xffau32, 12u8),
        huffman_code(36) == (0x1ff9u32, 13u8),
        huffman_code(37) == (0x15u32, 6u8),
        huffman_code(38) == (0xf8u32, 8u8),
        huffman_code(39) == (0x7fau32, 11u8),
        huffman_code(40) == (0x3fau32, 10u8),
        huffman_code(41) == (0x3fbu32, 10u8),
        huffman_code(42) == (0xf9u32, 8u8),
        huffman_code(43) == (0x7fbu32, 11u8),
        huffman_code(44) == (0xfau32, 8u8),
        huffman_code(45) == (0x16u32, 6u8),
        huffman_code(46) == (0x17u32, 6u8),
        huffman_code(47) == (0x18u32, 6u8),
        huffman_code(48) == (0x0u32, 5u8),
        huffman_code(49) == (0x1u32, 5u8),
        huffman_code(50) == (0x2u32, 5u8),
        huffman_code(51) == (0x19u32, 6u8),
        huffman_code(52) == (0x1au32, 6u8),
        huffman_code(53) == (0x1bu32, 6u8),
        huffman_code(54) == (0x1cu32, 6u8),
        huffman_code(55) == (0x1du32, 6u8),
        huffman_code(56) == (0x1eu32, 6u8),
        huffman_code(57) == (0x1fu32, 6u8),
        huffman_code(58) == (0x5cu32, 7u8),
        huffman_code(59) == (0xfbu32, 8u8),
        huffman_code(60) == (0x7ffcu32, 15u8),
        huffman_code(61) == (0x20u32, 6u8),
        huffman_code(62) == (0xffbu32, 12u8),
        huffman_code(63) == (0x3fcu32, 10u8),
        huffman_code(64) == (0x1ffau32, 13u8),
        huffman_code(65) == (0x21u32, 6u8),
        huffman_code(66) == (0x5du32, 7u8),
        huffman_code(67) == (0x5eu32, 7u8),
        huffman_code(68) == (0x5fu32, 7u8),
        huffman_code(69) == (0x60u32, 7u8),
        huffman_code(70) == (0x61u32, 7u8),
        huffman_code(71) == (0x62u32, 7u8),
        huffman_code(72) == (0x63u32, 7u8),
        huffman_code(73) == (0x64u32, 7u8),
        huffman_code(74) == (0x65u32, 7u8),
        huffman_code(75) == (0x66u32, 7u8),
        huffman_code(76) == (0x67u32, 7u8),
        huffman_code(77) == (0x68u32, 7u8),
        huffman_code(78) == (0x69u32, 7u8),
        huffman_code(79) == (0x6au32, 7u8),
        huffman_code(80) == (0x6bu32, 7u8),
        huffman_code(81) == (0x6cu32, 7u8),
        huffman_code(82) == (0x6du32, 7u8),
        huffman_code(83) == (0x6eu32, 7u8),
        huffman_code(84) == (0x6fu32, 7u8),
        huffman_code(85) == (0x70u32, 7u8),
        huffman_code(86) == (0x71u32, 7u8),
        huffman_code(87) == (0x72u32, 7u8),
        huffman_code(88) == (0xfcu32, 8u8),
        huffman_code(89) == (0x73u32, 7u8),
        huffman_code(90) == (0xfdu32, 8u8),
        huffman_code(91) == (0x1ffbu32, 13u8),
        huffman_code(92) == (0x7fff0u32, 19u8),
        huffman_code(93) == (0x1ffcu32, 13u8),
        huffman_code(94) == (0x3ffcu32, 14u8),
        huffman_code(95) == (0x22u32, 6u8),
        huffman_code(96) == (0x7ffdu32, 15u8),
        huffman_code(97) == (0x3u32, 5u8),
        huffman_code(98) == (0x23u32, 6u8),
        huffman_code(99) == (0x4u32, 5u8),
        huffman_code(100) == (0x24u32, 6u8),
        huffman_code(101) == (0x5u32, 5u8),
        huffman_code(102) == (0x25u32, 6u8),
        huffman_code(103) == (0x26u32, 6u8),
        huffman_code(104) == (0x27u32, 6u8),
        huffman_code(105) == (0x6u32, 5u8),
        huffman_code(106) == (0x74u32, 7u8),
        huffman_code(107) == (0x75u32, 7u8),
        huffman_code(108) == (0x28u32, 6u8),
        huffman_code(109) == (0x29u32, 6u8),
        huffman_code(110) == (0x2au32, 6u8),
        huffman_code(111) == (0x7u32, 5u8),
        huffman_code(112) == (0x2bu32, 6u8),
        huffman_code(113) == (0x76u32, 7u8),
        huffman_code(114) == (0x2cu32, 6u8),
        huffman_code(115) == (0x8u32, 5u8),
        huffman_code(116) == (0x9u32, 5u8),
        huffman_code(117) == (0x2du32, 6u8),
        huffman_code(118) == (0x77u32, 7u8),
        huffman_code(119) == (0x78u32, 7u8),
        huffman_code(120) == (0x79u32, 7u8),
        huffman_code(121) == (0x7au32, 7u8),
        huffman_code(122) == (0x7bu32, 7u8),
        huffman_code(123) == (0x7ffeu32, 15u8),
        huffman_code(124) == (0x7fcu32, 11u8),
        huffman_code(125) == (0x3ffdu32, 14u8),
        huffman_code(126) == (0x1ffdu32, 13u8),
        huffman_code(127) == (0xffffffcu32, 28u8),
        huffman_code(128) == (0xfffe6u32, 20u8),
        huffman_code(129) == (0x3fffd2u32, 22u8),
        huffman_code(130) == (0xfffe7u32, 20u8),
        huffman_code(131) == (0xfffe8u32, 20u8),
        huffman_code(132) == (0x3fffd3u32, 22u8),
        huffman_code(133) == (0x3fffd4u32, 22u8),
        huffman_code(134) == (0x3fffd5u32, 22u8),
        huffman_code(135) == (0x7fffd9u32, 23u8),
        huffman_code(136) == (0x3fffd6u32, 22u8),
        huffman_code(137) == (0x7fffdau32, 23u8),
        huffman_code(138) == (0x7fffdbu32, 23u8),
        huffman_code(139) == (0x7fffdcu32, 23u8),
        huffman_code(140) == (0x7fffddu32, 23u8),
        huffman_code(141) == (0x7fffdeu32, 23u8),
        huffman_code(142) == (0xffffebu32, 24u8),
        huffman_code(143) == (0x7fffdfu32, 23u8),
        huffman_code(144) == (0xffffecu32, 24u8),
        huffman_code(145) == (0xffffedu32, 24u8),
        huffman_code(146) == (0x3fffd7u32, 22u8),
        huffman_code(147) == (0x7fffe0u32, 23u8),
        huffman_code(148) == (0xffffeeu32, 24u8),
        huffman_code(149) == (0x7fffe1u32, 23u8),
        huffman_code(150) == (0x7fffe2u32, 23u8),
        huffman_code(151) == (0x7fffe3u32, 23u8),
        huffman_code(152) == (0x7fffe4u32, 23u8),
        huffman_code(153) == (0x1fffdcu32, 21u8),
        huffman_code(154) == (0x3fffd8u32, 22u8),
        huffman_code(155) == (0x7fffe5u32, 23u8),
        huffman_code(156) == (0x3fffd9u32, 22u8),
        huffman_code(157) == (0x7fffe6u32, 23u8),
        huffman_code(158) == (0x7fffe7u32, 23u8),
        huffman_code(159) == (0xffffefu32, 24u8),
        huffman_code(160) == (0x3fffdau32, 22u8),
        huffman_code(161) == (0x1fffddu32, 21u8),
        huffman_code(162) == (0xfffe9u32, 20u8),
        huffman_code(163) == (0x3fffdbu32, 22u8),
        huffman_code(164) == (0x3fffdcu32, 22u8),
        huffman_code(165) == (0x7fffe8u32, 23u8),
        huffman_code(166) == (0x7fffe9u32, 23u8),
        huffman_code(167) == (0x1fffdeu32, 21u8),
        huffman_code(168) == (0x7fffeau32, 23u8),
        huffman_code(169) == (0x3fffddu32, 22u8),
        huffman_code(170) == (0x3fffdeu32, 22u8),
        huffman_code(171) == (0xfffff0u32, 24u8),
        huffman_code(172) == (0x1fffdfu32, 21u8),
        huffman_code(173) == (0x3fffdfu32, 22u8),
        huffman_code(174) == (0x7fffebu32, 23u8),
        huffman_code(175) == (0x7fffecu32, 23u8),
        huffman_code(176) == (0x1fffe0u32, 21u8),
        huffman_code(177) == (0x1fffe1u32, 21u8),
        huffman_code(178) == (0x3fffe0u32, 22u8),
        huffman_code(179) == (0x1fffe2u32, 21u8),
        huffman_code(180) == (0x7fffedu32, 23u8),
        huffman_code(181) == (0x3fffe1u32, 22u8),
        huffman_code(182) == (0x7fffeeu32, 23u8),
        huffman_code(183) == (0x7fffefu32, 23u8),
        huffman_code(184) == (0xfffeau32, 20u8),
        huffman_code(185) == (0x3fffe2u32, 22u8),
        huffman_code(186) == (0x3fffe3u32, 22u8),
        huffman_code(187) == (0x3fffe4u32, 22u8),
        huffman_code(188) == (0x7ffff0u32, 23u8),
        huffman_code(189) == (0x3fffe5u32, 22u8),
        huffman_code(190) == (0x3fffe6u32, 22u8),
        huffman_code(191) == (0x7ffff1u32, 23u8),
        huffman_code(192) == (0x3ffffe0u32, 26u8),
        huffman_code(193) == (0x3ffffe1u32, 26u8),
        huffman_code(194) == (0xfffebu32, 20u8),
        huffman_code(195) == (0x7fff1u32, 19u8),
        huffman_code(196) == (0x3fffe7u32, 22u8),
        huffman_code(197) == (0x7ffff2u32, 23u8),
        huffman_code(198) == (0x3fffe8u32, 22u8),
        huffman_code(199) == (0x1ffffecu32, 25u8),
        huffman_code(200) == (0x3ffffe2u32, 26u8),
        huffman_code(201) == (0x3ffffe3u32, 26u8),
        huffman_code(202) == (0x3ffffe4u32, 26u8),
        huffman_code(203) == (0x7ffffdeu32, 27u8),
        huffman_code(204) == (0x7ffffdfu32, 27u8),
        huffman_code(205) == (0x3ffffe5u32, 26u8),
        huffman_code(206) == (0xfffff1u32, 24u8),
        huffman_code(207) == (0x1ffffedu32, 25u8),
        huffman_code(208) == (0x7fff2u32, 19u8),
        huffman_code(209) == (0x1fffe3u32, 21u8),
        huffman_code(210) == (0x3ffffe6u32, 26u8),
        huffman_code(211) == (0x7ffffe0u32, 27u8),
        huffman_code(212) == (0x7ffffe1u32, 27u8),
        huffman_code(213) == (0x3ffffe7u32, 26u8),
        huffman_code(214) == (0x7ffffe2u32, 27u8),
        huffman_code(215) == (0xfffff2u32, 24u8),
        huffman_code(216) == (0x1fffe4u32, 21u8),
        huffman_code(217) == (0x1fffe5u32, 21u8),
        huffman_code(218) == (0x3ffffe8u32, 26u8),
        huffman_code(219) == (0x3ffffe9u32, 26u8),
        huffman_code(220) == (0xffffffdu32, 28u8),
        huffman_code(221) == (0x7ffffe3u32, 27u8),
        huffman_code(222) == (0x7ffffe4u32, 27u8),
        huffman_code(223) == (0x7ffffe5u32, 27u8),
        huffman_code(224) == (0xfffecu32, 20u8),
        huffman_code(225) == (0xfffff3u32, 24u8),
        huffman_code(226) == (0xfffedu32, 20u8),
        huffman_code(227) == (0x1fffe6u32, 21u8),
        huffman_code(228) == (0x3fffe9u32, 22u8),
        huffman_code(229) == (0x1fffe7u32, 21u8),
        huffman_code(230) == (0x1fffe8u32, 21u8),
        huffman_code(231) == (0x7ffff3u32, 23u8),
        huffman_code(232) == (0x3fffeau32, 22u8),
        huffman_code(233) == (0x3fffebu32, 22u8),
        huffman_code(234) == (0x1ffffeeu32, 25u8),
        huffman_code(235) == (0x1ffffefu32, 25u8),
        huffman_code(236) == (0xfffff4u32, 24u8),
        huffman_code(237) == (0xfffff5u32, 24u8),
        huffman_code(238) == (0x3ffffeau32, 26u8),
        huffman_code(239) == (0x7ffff4u32, 23u8),
        huffman_code(240) == (0x3ffffebu32, 26u8),
        huffman_code(241) == (0x7ffffe6u32, 27u8),
        huffman_code(242) == (0x3ffffecu32, 26u8),
        huffman_code(243) == (0x3ffffedu32, 26u8),
        huffman_code(244) == (0x7ffffe7u32, 27u8),
        huffman_code(245) == (0x7ffffe8u32, 27u8),
        huffman_code(246) == (0x7ffffe9u32, 27u8),
        huffman_code(247) == (0x7ffffeau32, 27u8),
        huffman_code(248) == (0x7ffffebu32, 27u8),
        huffman_code(249) == (0xffffffeu32, 28u8),
        huffman_code(250) == (0x7ffffecu32, 27u8),
        huffman_code(251) == (0x7ffffedu32, 27u8),
        huffman_code(252) == (0x7ffffeeu32, 27u8),
        huffman_code(253) == (0x7ffffefu32, 27u8),
        huffman_code(254) == (0x7fffff0u32, 27u8),
        huffman_code(255) == (0x3ffffeeu32, 26u8),
        huffman_code(256) == (0x3fffffffu32, 30u8),
{
}

/// Returns the code and code length of a symbol.
pub fn code_of(sym: u16) -> (r: (u32, u8))
    requires
        sym <= 256,
    ensures
        r == huffman_code(sym),
{
    match sym {
        0 => (0x1ff8, 13),
        1 => (0x7fffd8, 23),
        2 => (0xfffffe2, 28),
        3 => (0xfffffe3, 28),
        4 => (0xfffffe4, 28),
        5 => (0xfffffe5, 28),
        6 => (0xfffffe6, 28),
        7 => (0xfffffe7, 28),
        8 => (0xfffffe8, 28),
        9 => (0xffffea, 24),
        10 => (0x3ffffffc, 30),
        11 => (0xfffffe9, 28),
        12 => (0xfffffea, 28),
        13 => (0x3ffffffd, 30),
        14 => (0xfffffeb, 28),
        15 => (0xfffffec, 28),
        16 => (0xfffffed, 28),
        17 => (0xfffffee, 28),
        18 => (0xfffffef, 28),
        19 => (0xffffff0, 28),
        20 => (0xffffff1, 28),
        21 => (0xffffff2, 28),
        22 => (0x3ffffffe, 30),
        23 => (0xffffff3, 28),
        24 => (0xffffff4, 28),
        25 => (0xffffff5, 28),
        26 => (0xffffff6, 28),
        27 => (0xffffff7, 28),
        28 => (0xffffff8, 28),
        29 => (0xffffff9, 28),
        30 => (0xffffffa, 28),
        31 => (0xffffffb, 28),
        32 => (0x14, 6),
        33 => (0x3f8, 10),
        34 => (0x3f9, 10),
        35 => (0xffa, 12),
        36 => (0x1ff9, 13),
        37 => (0x15, 6),
        38 => (0xf8, 8),
        39 => (0x7fa, 11),
        40 => (0x3fa, 10),
        41 => (0x3fb, 10),
        42 => (0xf9, 8),
        43 => (0x7fb, 11),
        44 => (0xfa, 8),
        45 => (0x16, 6),
        46 => (0x17, 6),
        47 => (0x18, 6),
        48 => (0x0, 5),
        49 => (0x1, 5),
        50 => (0x2, 5),
        51 => (0x19, 6),
        52 => (0x1a, 6),
        53 => (0x1b, 6),
        54 => (0x1c, 6),
        55 => (0x1d, 6),
        56 => (0x1e, 6),
        57 => (0x1f, 6),
        58 => (0x5c, 7),
        59 => (0xfb, 8),
        60 => (0x7ffc, 15),
        61 => (0x20, 6),
        62 => (0xffb, 12),
        63 => (0x3fc, 10),
        64 => (0x1ffa, 13),
        65 => (0x21, 6),
        66 => (0x5d, 7),
        67 => (0x5e, 7),
        68 => (0x5f, 7),
        69 => (0x60, 7),
        70 => (0x61, 7),
        71 => (0x62, 7),
        72 => (0x63, 7),
        73 => (0x64, 7),
        74 => (0x65, 7),
        75 => (0x66, 7),
        76 => (0x67, 7),
        77 => (0x68, 7),
        78 => (0x69, 7),
        79 => (0x6a, 7),
        80 => (0x6b, 7),
        81 => (0x6c, 7),
        82 => (0x6d, 7),
        83 => (0x6e, 7),
        84 => (0x6f, 7),
        85 => (0x70, 7),
        86 => (0x71, 7),
        87 => (0x72, 7),
        88 => (0xfc, 8),
        89 => (0x73, 7),
        90 => (0xfd, 8),
        91 => (0x1ffb, 13),
        92 => (0x7fff0, 19),
        93 => (0x1ffc, 13),
        94 => (0x3ffc, 14),
        95 => (0x22, 6),
        96 => (0x7ffd, 15),
        97 => (0x3, 5),
        98 => (0x23, 6),
        99 => (0x4, 5),
        100 => (0x24, 6),
        101 => (0x5, 5),
        102 => (0x25, 6),
        103 => (0x26, 6),
        104 => (0x27, 6),
        105 => (0x6, 5),
        106 => (0x74, 7),
        107 => (0x75, 7),
        108 => (0x28, 6),
        109 => (0x29, 6),
        110 => (0x2a, 6),
        111 => (0x7, 5),
        112 => (0x2b, 6),
        113 => (0x76, 7),
        114 => (0x2c, 6),
        115 => (0x8, 5),
        116 => (0x9, 5),
        117 => (0x2d, 6),
        118 => (0x77, 7),
        119 => (0x78, 7),
        120 => (0x79, 7),
        121 => (0x7a, 7),
        122 => (0x7b, 7),
        123 => (0x7ffe, 15),
        124 => (0x7fc, 11),
        125 => (0x3ffd, 14),
        126 => (0x1ffd, 13),
        127 => (0xffffffc, 28),
        128 => (0xfffe6, 20),
        129 => (0x3fffd2, 22),
        130 => (0xfffe7, 20),
        131 => (0xfffe8, 20),
        132 => (0x3fffd3, 22),
        133 => (0x3fffd4, 22),
        134 => (0x3fffd5, 22),
        135 => (0x7fffd9, 23),
        136 => (0x3fffd6, 22),
        137 => (0x7fffda, 23),
        138 => (0x7fffdb, 23),
        139 => (0x7fffdc, 23),
        140 => (0x7fffdd, 23),
        141 => (0x7fffde, 23),
        142 => (0xffffeb, 24),
        143 => (0x7fffdf, 23),
        144 => (0xffffec, 24),
        145 => (0xffffed, 24),
        146 => (0x3fffd7, 22),
        147 => (0x7fffe0, 23),
        148 => (0xffffee, 24),
        149 => (0x7fffe1, 23),
        150 => (0x7fffe2, 23),
        151 => (0x7fffe3, 23),
        152 => (0x7fffe4, 23),
        153 => (0x1fffdc, 21),
        154 => (0x3fffd8, 22),
        155 => (0x7fffe5, 23),
        156 => (0x3fffd9, 22),
        157 => (0x7fffe6, 23),
        158 => (0x7fffe7, 23),
        159 => (0xffffef, 24),
        160 => (0x3fffda, 22),
        161 => (0x1fffdd, 21),
        162 => (0xfffe9, 20),
        163 => (0x3fffdb, 22),
        164 => (0x3fffdc, 22),
        165 => (0x7fffe8, 23),
        166 => (0x7fffe9, 23),
        167 => (0x1fffde, 21),
        168 => (0x7fffea, 23),
        169 => (0x3fffdd, 22),
        170 => (0x3fffde, 22),
        171 => (0xfffff0, 24),
        172 => (0x1fffdf, 21),
        173 => (0x3fffdf, 22),
        174 => (0x7fffeb, 23),
        175 => (0x7fffec, 23),
        176 => (0x1fffe0, 21),
        177 => (0x1fffe1, 21),
        178 => (0x3fffe0, 22),
        179 => (0x1fffe2, 21),
        180 => (0x7fffed, 23),
        181 => (0x3fffe1, 22),
        182 => (0x7fffee, 23),
        183 => (0x7fffef, 23),
        184 => (0xfffea, 20),
        185 => (0x3fffe2, 22),
        186 => (0x3fffe3, 22),
        187 => (0x3fffe4, 22),
        188 => (0x7ffff0, 23),
        189 => (0x3fffe5, 22),
        190 => (0x3fffe6, 22),
        191 => (0x7ffff1, 23),
        192 => (0x3ffffe0, 26),
        193 => (0x3ffffe1, 26),
        194 => (0xfffeb, 20),
        195 => (0x7fff1, 19),
        196 => (0x3fffe7, 22),
        197 => (0x7ffff2, 23),
        198 => (0x3fffe8, 22),
        199 => (0x1ffffec, 25),
        200 => (0x3ffffe2, 26),
        201 => (0x3ffffe3, 26),
        202 => (0x3ffffe4, 26),
        203 => (0x7ffffde, 27),
        204 => (0x7ffffdf, 27),
        205 => (0x3ffffe5, 26),
        206 => (0xfffff1, 24),
        207 => (0x1ffffed, 25),
        208 => (0x7fff2, 19),
        209 => (0x1fffe3, 21),
        210 => (0x3ffffe6, 26),
        211 => (0x7ffffe0, 27),
        212 => (0x7ffffe1, 27),
        213 => (0x3ffffe7, 26),
        214 => (0x7ffffe2, 27),
        215 => (0xfffff2, 24),
        216 => (0x1fffe4, 21),
        217 => (0x1fffe5, 21),
        218 => (0x3ffffe8, 26),
        219 => (0x3ffffe9, 26),
        220 => (0xffffffd, 28),
        221 => (0x7ffffe3, 27),
        222 => (0x7ffffe4, 27),
        223 => (0x7ffffe5, 27),
        224 => (0xfffec, 20),
        225 => (0xfffff3, 24),
        226 => (0xfffed, 20),
        227 => (0x1fffe6, 21),
        228 => (0x3fffe9, 22),
        229 => (0x1fffe7, 21),
        230 => (0x1fffe8, 21),
        231 => (0x7ffff3, 23),
        232 => (0x3fffea, 22),
        233 => (0x3fffeb, 22),
        234 => (0x1ffffee, 25),
        235 => (0x1ffffef, 25),
        236 => (0xfffff4, 24),
        237 => (0xfffff5, 24),
        238 => (0x3ffffea, 26),
        239 => (0x7ffff4, 23),
        240 => (0x3ffffeb, 26),
        241 => (0x7ffffe6, 27),
        242 => (0x3ffffec, 26),
        243 => (0x3ffffed, 26),
        244 => (0x7ffffe7, 27),
        245 => (0x7ffffe8, 27),
        246 => (0x7ffffe9, 27),
        247 => (0x7ffffea, 27),
        248 => (0x7ffffeb, 27),
        249 => (0xffffffe, 28),
        250 => (0x7ffffec, 27),
        251 => (0x7ffffed, 27),
        252 => (0x7ffffee, 27),
        253 => (0x7ffffef, 27),
        254 => (0x7fffff0, 27),
        255 => (0x3ffffee, 26),
        256 => (0x3fffffff, 30),
        _ => (0, 0),
    }
}

/// The first symbol from `s` on whose code is `code` of length `len`.
pub open spec fn lookup_from(code: u32, len: u8, s: int) -> Option<u16>
    decreases 257 - s,
{
    if s < 0 || s > 256 {
        None
    } else if huffman_code(s as u16) == (code, len) {
        Some(s as u16)
    } else {
        lookup_from(code, len, s + 1)
    }
}

/// The symbol whose code is `code` of length `len`, if any.
pub open spec fn lookup(code: u32, len: u8) -> Option<u16> {
    lookup_from(code, len, 0)
}

/// Finds the symbol whose code is `code` of length `len`.
pub fn find_symbol(code: u32, len: u8) -> (r: Option<u16>)
    ensures
        r == lookup(code, len),
{
    let mut s: u16 = 0;
    while s <= 256
        invariant
            s <= 257,
            lookup(code, len) == lookup_from(code, len, s as int),
        decreases 257 - s,
    {
        let c = code_of(s);
        if c.0 == code && c.1 == len {
            return Some(s);
        }
        s = s + 1;
    }
    None
}

/// Bit `j` (0 is the most significant) of an octet.
pub open spec fn bit_at(b: u8, j: int) -> bool {
    ((b >> ((7 - j) as u8)) & 1u8) == 1u8
}

/// The bits of a sequence of octets, most significant bit first.
pub open spec fn bits_of(bs: Seq<u8>) -> Seq<bool> {
    Seq::new(bs.len() * 8, |i: int| bit_at(bs[i / 8], i % 8))
}

/// Decoding state: octets produced, bits of the code being read, their
/// number, and whether decoding failed.
pub type HuffState = (Seq<u8>, u32, u8, bool);

/// Reads one bit: a completed code emits its symbol; the end-of-string code
/// or more than 30 bits without a code is an error.
pub open spec fn huff_step(st: HuffState, bit: bool) -> HuffState {
    if st.3 {
        st
    } else {
        let code = (st.1 * 2 + if bit { 1u32 } else { 0u32 }) as u32;
        let len = (st.2 + 1) as u8;
        match lookup(code, len) {
            Some(s) => if s == 256 {
                (st.0, code, len, true)
            } else {
                (st.0.push(s as u8), 0u32, 0u8, false)
            },
            None => if len >= 30 {
                (st.0, code, len, true)
            } else {
                (st.0, code, len, false)
            },
        }
    }
}

/// The decoding state after reading all of `bits`.
pub open spec fn huff_run(bits: Seq<bool>) -> HuffState
    decreases bits.len(),
{
    if bits.len() == 0 {
        (Seq::empty(), 0u32, 0u8, false)
    } else {
        huff_step(huff_run(bits.drop_last()), bits.last())
    }
}

/// Decodes a Huffman-coded string: `None` on an invalid code, on the
/// end-of-string code, or on padding that is 8 bits or more or not all ones.
pub open spec fn huffman_decoding(bs: Seq<u8>) -> Option<Seq<u8>> {
    let st = huff_run(bits_of(bs));
    if st.3 || st.2 >= 8 || st.1 as nat + 1 != pow2(st.2 as nat) {
        None
    } else {
        Some(st.0)
    }
}

proof fn lemma_state_bounds(bits: Seq<bool>)
    ensures
        !huff_run(bits).3 ==> huff_run(bits).2 < 30,
        huff_run(bits).2 <= 30,
        huff_run(bits).1 < pow2(huff_run(bits).2 as nat),
    decreases bits.len(),
{
    if bits.len() > 0 {
        lemma_state_bounds(bits.drop_last());
        let st = huff_run(bits.drop_last());
        if !st.3 {
            vstd::arithmetic::power2::lemma_pow2_unfold((st.2 + 1) as nat);
            vstd::arithmetic::power2::lemma2_to64();
        }
    } else {
        vstd::arithmetic::power2::lemma2_to64();
    }
}

/// Decodes a Huffman-coded string.
pub fn decode(src: &[u8]) -> (r: Option<Vec<u8>>)
    ensures
        match huffman_decoding(src@) {
            Some(s) => r matches Some(v) && v@ == s,
            None => r is None,
        },
{
    let mut out: Vec<u8> = Vec::new();
    let mut code: u32 = 0;
    let mut len: u8 = 0;
    let mut i: usize = 0;
    let ghost bits = bits_of(src@);
    proof {
        assert(bits.take(0) =~= Seq::<bool>::empty());
    }
    while i < src.len()
        invariant
            i <= src@.len(),
            bits == bits_of(src@),
            huff_run(bits.take(8 * i as int)) == (out@, code, len, false),
        decreases src@.len() - i,
    {
        let b = src[i];
        let mut j: u8 = 0;
        while j < 8
            invariant
                i < src@.len(),
                b == src@[i as int],
                j <= 8,
                bits == bits_of(src@),
                huff_run(bits.take(8 * i + j)) == (out@, code, len, false),
            decreases 8 - j,
        {
            let bit = ((b >> (7 - j)) & 1u8) == 1u8;
            let ghost n = 8 * i + j;
            proof {
                assert(bits[n] == bit_at(src@[i as int], j as int)) by {
                    assert(n / 8 == i as int);
                    assert(n % 8 == j as int);
                }
                assert(bits.take(n + 1).drop_last() =~= bits.take(n));
                assert(bits.take(n + 1).last() == bits[n]);
                assert(huff_run(bits.take(n + 1)) == huff_step(huff_run(bits.take(n)), bits[n]));
                lemma_state_bounds(bits.take(n));
                vstd::arithmetic::power2::lemma2_to64();
                if len < 29 {
                    vstd::arithmetic::power2::lemma_pow2_strictly_increases(len as nat, 29);
                }
                lemma_lookup_bound((code * 2 + if bit { 1u32 } else { 0u32 }) as u32, (len + 1) as u8, 0);
            }
            let ncode: u32 = code * 2 + if bit { 1u32 } else { 0u32 };
            let nlen: u8 = len + 1;
            match find_symbol(ncode, nlen) {
                Some(s) => {
                    if s == 256 {
                        proof {
                            lemma_failed_stays(bits, n + 1, 8 * src@.len() as int);
                            assert(bits.take(8 * src@.len() as int) =~= bits);
                        }
                        return None;
                    }
                    out.push(s as u8);
                    code = 0;
                    len = 0;
                },
                None => {
                    if nlen >= 30 {
                        proof {
                            lemma_failed_stays(bits, n + 1, 8 * src@.len() as int);
                            assert(bits.take(8 * src@.len() as int) =~= bits);
                        }
                        return None;
                    }
                    code = ncode;
                    len = nlen;
                },
            }
            j = j + 1;
        }
        i = i + 1;
    }
    proof {
        assert(bits.take(8 * src@.len() as int) =~= bits);
        lemma_state_bounds(bits);
    }
    if len >= 8 {
        return None;
    }
    proof {
        vstd::bits::lemma_u32_pow2_no_overflow(len as nat);
        vstd::bits::lemma_u32_shl_is_mul(1u32, len as u32);
    }
    let all_ones: u32 = (1u32 << len) - 1;
    if code != all_ones {
        return None;
    }
    Some(out)
}

/// The bits of a code of the given length, most significant first.
pub open spec fn code_bits(c: (u32, u8)) -> Seq<bool> {
    Seq::new(c.1 as nat, |i: int| ((c.0 >> ((c.1 - 1 - i) as u32)) & 1u32) == 1u32)
}

/// The concatenated codes of the octets of `s`.
pub open spec fn sym_bits(s: Seq<u8>) -> Seq<bool>
    decreases s.len(),
{
    if s.len() == 0 {
        Seq::empty()
    } else {
        sym_bits(s.drop_last()) + code_bits(huffman_code(s.last() as u16))
    }
}

/// Bits padded with ones to a multiple of 8.
pub open spec fn pad_bits(b: Seq<bool>) -> Seq<bool> {
    b + Seq::new(((8 - b.len() % 8) % 8) as nat, |i: int| true)
}

/// The value of the first `n` bits of `b`, most significant first.
pub open spec fn bits_value(b: Seq<bool>, n: int) -> nat
    decreases n,
{
    if n <= 0 {
        0
    } else {
        bits_value(b, n - 1) * 2 + if b[n - 1] { 1nat } else { 0nat }
    }
}

/// Packs bits into octets, 8 bits per octet, most significant first.
pub open spec fn pack(b: Seq<bool>) -> Seq<u8> {
    Seq::new(b.len() / 8, |k: int| bits_value(b.subrange(8 * k, 8 * k + 8), 8) as u8)
}

/// The Huffman encoding of a string: the codes of its octets, padded with
/// ones to an octet boundary.
pub open spec fn huffman_encoding(s: Seq<u8>) -> Seq<u8> {
    pack(pad_bits(sym_bits(s)))
}

/// Encodes a string with the Huffman code.
pub fn encode(src: &[u8]) -> (r: Vec<u8>)
    ensures
        r@ == huffman_encoding(src@),
{
    let mut bits: Vec<bool> = Vec::new();
    let mut i: usize = 0;
    while i < src.len()
        invariant
            i <= src@.len(),
            bits@ == sym_bits(src@.take(i as int)),
        decreases src@.len() - i,
    {
        let (code, len) = code_of(src[i] as u16);
        let ghost before = bits@;
        let mut k: u8 = 0;
        while k < len
            invariant
                k <= len,
                (code, len) == huffman_code(src@[i as int] as u16),
                bits@ == before + code_bits((code, len)).take(k as int),
            decreases len - k,
        {
            let bit = ((code >> ((len - 1 - k) as u32)) & 1u32) == 1u32;
            bits.push(bit);
            k = k + 1;
            assert(bits@ =~= before + code_bits((code, len)).take(k as int));
        }
        proof {
            assert(code_bits((code, len)).take(len as int) =~= code_bits((code, len)));
            assert(src@.take(i + 1).drop_last() =~= src@.take(i as int));
        }
        i = i + 1;
    }
    proof {
        assert(src@.take(src@.len() as int) =~= src@);
    }
    let ghost raw = bits@;
    while bits.len() % 8 != 0
        invariant
            raw.len() <= bits@.len(),
            bits@.len() <= raw.len() + 7,
            bits@.subrange(0, raw.len() as int) == raw,
            forall|j: int| raw.len() <= j < bits@.len() ==> bits@[j],
            bits@.len() % 8 != 0 ==> bits@.len() < raw.len() + (8 - raw.len() % 8) % 8,
            bits@.len() % 8 == 0 ==> bits@.len() == raw.len() + (8 - raw.len() % 8) % 8,
        decreases raw.len() + 8 - bits@.len(),
    {
        bits.push(true);
    }
    proof {
        assert(bits@ =~= pad_bits(raw));
    }
    let mut out: Vec<u8> = Vec::new();
    let mut k: usize = 0;
    let n = bits.len() / 8;
    while k < n
        invariant
            k <= n,
            n == bits@.len() / 8,
            bits@.len() % 8 == 0,
            out@ == pack(bits@).take(k as int),
        decreases n - k,
    {
        let mut acc: u32 = 0;
        let mut j: usize = 0;
        let ghost chunk = bits@.subrange(8 * k as int, 8 * k as int + 8);
        let total = bits.len();
        proof {
            vstd::arithmetic::power2::lemma2_to64();
            assert(8 * n == bits@.len());
        }
        while j < 8
            invariant
                j <= 8,
                k < n,
                n == bits@.len() / 8,
                8 * n == bits@.len(),
                bits@.len() <= usize::MAX,
                chunk == bits@.subrange(8 * k as int, 8 * k as int + 8),
                acc == bits_value(chunk, j as int),
                acc < pow2(j as nat),
            decreases 8 - j,
        {
            proof {
                vstd::arithmetic::power2::lemma2_to64();
                vstd::arithmetic::power2::lemma_pow2_unfold((j + 1) as nat);
                if j < 8 {
                    vstd::arithmetic::power2::lemma_pow2_strictly_increases(j as nat, 8);
                }
            }
            assert(8 * k + j < 8 * n);
            let b = bits[8 * k + j];
            assert(b == chunk[j as int]);
            acc = acc * 2 + if b { 1u32 } else { 0u32 };
            j = j + 1;
        }
        proof {
            vstd::arithmetic::power2::lemma2_to64();
        }
        out.push(acc as u8);
        k = k + 1;
        assert(out@ =~= pack(bits@).take(k as int));
    }
    assert(out@ =~= pack(bits@));
    out
}

proof fn lemma_lookup_bound(code: u32, len: u8, s: int)
    ensures
        lookup_from(code, len, s) matches Some(x) ==> x <= 256 && x >= s,
    decreases 257 - s,
{
    if 0 <= s <= 256 && huffman_code(s as u16) != (code, len) {
        lemma_lookup_bound(code, len, s + 1);
    }
}

proof fn lemma_failed_stays(bits: Seq<bool>, n: int, m: int)
    requires
        0 <= n <= m <= bits.len(),
        huff_run(bits.take(n)).3,
    ensures
        huff_run(bits.take(m)).3,
    decreases m - n,
{
    if n < m {
        assert(bits.take(n + 1).drop_last() =~= bits.take(n));
        lemma_failed_stays(bits, n + 1, m);
    }
}

} // verus!
