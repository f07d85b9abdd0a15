//! The static Huffman code of HPACK (RFC 7541, Appendix B): for each symbol
//! (octets 0 to 255, then end-of-string) the code, right-aligned, and its
//! length in bits.

use vstd::prelude::*;
use vstd::arithmetic::power2::{pow2, lemma2_to64};

verus! {

/// Index of the end-of-string symbol.
pub const EOS: usize = 256;

/// `(code, bit length)` for each of the 257 symbols.
pub const HUFFMAN_CODES: [(u32, u8); 257] = [
    (0x1ff8, 13),
    (0x7fffd8, 23),
    (0xfffffe2, 28),
    (0xfffffe3, 28),
    (0xfffffe4, 28),
    (0xfffffe5, 28),
    (0xfffffe6, 28),
    (0xfffffe7, 28),
    (0xfffffe8, 28),
    (0xffffea, 24),
    (0x3ffffffc, 30),
    (0xfffffe9, 28),
    (0xfffffea, 28),
    (0x3ffffffd, 30),
    (0xfffffeb, 28),
    (0xfffffec, 28),
    (0xfffffed, 28),
    (0xfffffee, 28),
    (0xfffffef, 28),
    (0xffffff0, 28),
    (0xffffff1, 28),
    (0xffffff2, 28),
    (0x3ffffffe, 30),
    (0xffffff3, 28),
    (0xffffff4, 28),
    (0xffffff5, 28),
    (0xffffff6, 28),
    (0xffffff7, 28),
    (0xffffff8, 28),
    (0xffffff9, 28),
    (0xffffffa, 28),
    (0xffffffb, 28),
    (0x14, 6),
    (0x3f8, 10),
    (0x3f9, 10),
    (0xffa, 12),
    (0x1ff9, 13),
    (0x15, 6),
    (0xf8, 8),
    (0x7fa, 11),
    (0x3fa, 10),
    (0x3fb, 10),
    (0xf9, 8),
    (0x7fb, 11),
    (0xfa, 8),
    (0x16, 6),
    (0x17, 6),
    (0x18, 6),
    (0x0, 5),
    (0x1, 5),
    (0x2, 5),
    (0x19, 6),
    (0x1a, 6),
    (0x1b, 6),
    (0x1c, 6),
    (0x1d, 6),
    (0x1e, 6),
    (0x1f, 6),
    (0x5c, 7),
    (0xfb, 8),
    (0x7ffc, 15),
    (0x20, 6),
    (0xffb, 12),
    (0x3fc, 10),
    (0x1ffa, 13),
    (0x21, 6),
    (0x5d, 7),
    (0x5e, 7),
    (0x5f, 7),
    (0x60, 7),
    (0x61, 7),
    (0x62, 7),
    (0x63, 7),
    (0x64, 7),
    (0x65, 7),
    (0x66, 7),
    (0x67, 7),
    (0x68, 7),
    (0x69, 7),
    (0x6a, 7),
    (0x6b, 7),
    (0x6c, 7),
    (0x6d, 7),
    (0x6e, 7),
    (0x6f, 7),
    (0x70, 7),
    (0x71, 7),
    (0x72, 7),
    (0xfc, 8),
    (0x73, 7),
    (0xfd, 8),
    (0x1ffb, 13),
    (0x7fff0, 19),
    (0x1ffc, 13),
    (0x3ffc, 14),
    (0x22, 6),
    (0x7ffd, 15),
    (0x3, 5),
    (0x23, 6),
    (0x4, 5),
    (0x24, 6),
    (0x5, 5),
    (0x25, 6),
    (0x26, 6),
    (0x27, 6),
    (0x6, 5),
    (0x74, 7),
    (0x75, 7),
    (0x28, 6),
    (0x29, 6),
    (0x2a, 6),
    (0x7, 5),
    (0x2b, 6),
    (0x76, 7),
    (0x2c, 6),
    (0x8, 5),
    (0x9, 5),
    (0x2d, 6),
    (0x77, 7),
    (0x78, 7),
    (0x79, 7),
    (0x7a, 7),
    (0x7b, 7),
    (0x7ffe, 15),
    (0x7fc, 11),
    (0x3ffd, 14),
    (0x1ffd, 13),
    (0xffffffc, 28),
    (0xfffe6, 20),
    (0x3fffd2, 22),
    (0xfffe7, 20),
    (0xfffe8, 20),
    (0x3fffd3, 22),
    (0x3fffd4, 22),
    (0x3fffd5, 22),
    (0x7fffd9, 23),
    (0x3fffd6, 22),
    (0x7fffda, 23),
    (0x7fffdb, 23),
    (0x7fffdc, 23),
    (0x7fffdd, 23),
    (0x7fffde, 23),
    (0xffffeb, 24),
    (0x7fffdf, 23),
    (0xffffec, 24),
    (0xffffed, 24),
    (0x3fffd7, 22),
    (0x7fffe0, 23),
    (0xffffee, 24),
    (0x7fffe1, 23),
    (0x7fffe2, 23),
    (0x7fffe3, 23),
    (0x7fffe4, 23),
    (0x1fffdc, 21),
    (0x3fffd8, 22),
    (0x7fffe5, 23),
    (0x3fffd9, 22),
    (0x7fffe6, 23),
    (0x7fffe7, 23),
    (0xffffef, 24),
    (0x3fffda, 22),
    (0x1fffdd, 21),
    (0xfffe9, 20),
    (0x3fffdb, 22),
    (0x3fffdc, 22),
    (0x7fffe8, 23),
    (0x7fffe9, 23),
    (0x1fffde, 21),
    (0x7fffea, 23),
    (0x3fffdd, 22),
    (0x3fffde, 22),
    (0xfffff0, 24),
    (0x1fffdf, 21),
    (0x3fffdf, 22),
    (0x7fffeb, 23),
    (0x7fffec, 23),
    (0x1fffe0, 21),
    (0x1fffe1, 21),
    (0x3fffe0, 22),
    (0x1fffe2, 21),
    (0x7fffed, 23),
    (0x3fffe1, 22),
    (0x7fffee, 23),
    (0x7fffef, 23),
    (0xfffea, 20),
    (0x3fffe2, 22),
    (0x3fffe3, 22),
    (0x3fffe4, 22),
    (0x7ffff0, 23),
    (0x3fffe5, 22),
    (0x3fffe6, 22),
    (0x7ffff1, 23),
    (0x3ffffe0, 26),
    (0x3ffffe1, 26),
    (0xfffeb, 20),
    (0x7fff1, 19),
    (0x3fffe7, 22),
    (0x7ffff2, 23),
    (0x3fffe8, 22),
    (0x1ffffec, 25),
    (0x3ffffe2, 26),
    (0x3ffffe3, 26),
    (0x3ffffe4, 26),
    (0x7ffffde, 27),
    (0x7ffffdf, 27),
    (0x3ffffe5, 26),
    (0xfffff1, 24),
    (0x1ffffed, 25),
    (0x7fff2, 19),
    (0x1fffe3, 21),
    (0x3ffffe6, 26),
    (0x7ffffe0, 27),
    (0x7ffffe1, 27),
    (0x3ffffe7, 26),
    (0x7ffffe2, 27),
    (0xfffff2, 24),
    (0x1fffe4, 21),
    (0x1fffe5, 21),
    (0x3ffffe8, 26),
    (0x3ffffe9, 26),
    (0xffffffd, 28),
    (0x7ffffe3, 27),
    (0x7ffffe4, 27),
    (0x7ffffe5, 27),
    (0xfffec, 20),
    (0xfffff3, 24),
    (0xfffed, 20),
    (0x1fffe6, 21),
    (0x3fffe9, 22),
    (0x1fffe7, 21),
    (0x1fffe8, 21),
    (0x7ffff3, 23),
    (0x3fffea, 22),
    (0x3fffeb, 22),
    (0x1ffffee, 25),
    (0x1ffffef, 25),
    (0xfffff4, 24),
    (0xfffff5, 24),
    (0x3ffffea, 26),
    (0x7ffff4, 23),
    (0x3ffffeb, 26),
    (0x7ffffe6, 27),
    (0x3ffffec, 26),
    (0x3ffffed, 26),
    (0x7ffffe7, 27),
    (0x7ffffe8, 27),
    (0x7ffffe9, 27),
    (0x7ffffea, 27),
    (0x7ffffeb, 27),
    (0xffffffe, 28),
    (0x7ffffec, 27),
    (0x7ffffed, 27),
    (0x7ffffee, 27),
    (0x7ffffef, 27),
    (0x7fffff0, 27),
    (0x3ffffee, 26),
    (0x3fffffff, 30),
];

/// For each code length `L` (0 to 30), the smallest code of that length in
/// the canonical ordering; lengths below 5 are unused.
pub const HUFFMAN_BASE: [u32; 31] = [
    0, 0, 0, 0, 0, 0, 20, 92,
    248, 508, 1016, 2042, 4090, 8184, 16380, 32764,
    65534, 131068, 262136, 524272, 1048550, 2097116, 4194258, 8388568,
    16777194, 33554412, 67108832, 134217694, 268435426, 536870910, 1073741820,
];

/// For each code length, the number of symbols with a code of that length.
pub const HUFFMAN_COUNT: [u32; 31] = [
    0, 0, 0, 0, 0, 10, 26, 32,
    6, 0, 5, 3, 2, 6, 2, 3,
    0, 0, 0, 3, 8, 13, 26, 29,
    12, 4, 15, 19, 29, 0, 4,
];

/// For each code length, the position in `HUFFMAN_SYMBOLS` of the first
/// symbol with a code of that length.
pub const HUFFMAN_OFFSET: [u32; 31] = [
    0, 0, 0, 0, 0, 0, 10, 36,
    68, 74, 74, 79, 82, 84, 90, 92,
    95, 95, 95, 95, 98, 106, 119, 145,
    174, 186, 190, 205, 224, 253, 253,
];

/// The symbols ordered by code length, then by code.
pub const HUFFMAN_SYMBOLS: [u16; 257] = [
    48, 49, 50, 97, 99, 101, 105, 111,
    115, 116, 32, 37, 45, 46, 47, 51,
    52, 53, 54, 55, 56, 57, 61, 65,
    95, 98, 100, 102, 103, 104, 108, 109,
    110, 112, 114, 117, 58, 66, 67, 68,
    69, 70, 71, 72, 73, 74, 75, 76,
    77, 78, 79, 80, 81, 82, 83, 84,
    85, 86, 87, 89, 106, 107, 113, 118,
    119, 120, 121, 122, 38, 42, 44, 59,
    88, 90, 33, 34, 40, 41, 63, 39,
    43, 124, 35, 62, 0, 36, 64, 91,
    93, 126, 94, 125, 60, 96, 123, 92,
    195, 208, 128, 130, 131, 162, 184, 194,
    224, 226, 153, 161, 167, 172, 176, 177,
    179, 209, 216, 217, 227, 229, 230, 129,
    132, 133, 134, 136, 146, 154, 156, 160,
    163, 164, 169, 170, 173, 178, 181, 185,
    186, 187, 189, 190, 196, 198, 228, 232,
    233, 1, 135, 137, 138, 139, 140, 141,
    143, 147, 149, 150, 151, 152, 155, 157,
    158, 165, 166, 168, 174, 175, 180, 182,
    183, 188, 191, 197, 231, 239, 9, 142,
    144, 145, 148, 159, 171, 206, 215, 225,
    236, 237, 199, 207, 234, 235, 192, 193,
    200, 201, 202, 205, 210, 213, 218, 219,
    238, 240, 242, 243, 255, 203, 204, 211,
    212, 214, 221, 222, 223, 241, 244, 245,
    246, 247, 248, 250, 251, 252, 253, 254,
    2, 3, 4, 5, 6, 7, 8, 11,
    12, 14, 15, 16, 17, 18, 19, 20,
    21, 23, 24, 25, 26, 27, 28, 29,
    30, 31, 127, 220, 249, 10, 13, 22,
    256,
];

/// The code and length of symbol `sym`.
pub open spec fn code(sym: int) -> u32 {
    HUFFMAN_CODES@[sym].0
}

pub open spec fn code_len(sym: int) -> u8 {
    HUFFMAN_CODES@[sym].1
}

pub open spec fn base(len: int) -> u32 {
    HUFFMAN_BASE@[len]
}

pub open spec fn count(len: int) -> u32 {
    HUFFMAN_COUNT@[len]
}

pub open spec fn offset(len: int) -> u32 {
    HUFFMAN_OFFSET@[len]
}

pub open spec fn symbol_at(pos: int) -> u16 {
    HUFFMAN_SYMBOLS@[pos]
}

/// The facts that make the code canonical, for one symbol: its length is
/// between 5 and 30, its code lies in the block of codes of that length, and
/// the canonical ordering maps that code back to the symbol.
pub open spec fn symbol_canonical(sym: int) -> bool {
    let l = code_len(sym) as int;
    &&& 5 <= l <= 30
    &&& base(l) <= code(sym) < base(l) + count(l)
    &&& symbol_at(offset(l) + code(sym) - base(l)) == sym
}

pub proof fn lemma_symbol_canonical(sym: int)
    requires
        0 <= sym < 257,
    ensures
        symbol_canonical(sym),
{
    if sym < 128 {
        if sym < 64 {
            if sym < 32 {
                if sym < 16 {
                    if sym < 8 {
                        if sym < 4 {
                            if sym < 2 {
                                if sym < 1 {
                                    assert(symbol_canonical(0));
                                } else {
                                    assert(symbol_canonical(1));
                                }
                            } else {
                                if sym < 3 {
                                    assert(symbol_canonical(2));
                                } else {
                                    assert(symbol_canonical(3));
                                }
                            }
                        } else {
                            if sym < 6 {
                                if sym < 5 {
                                    assert(symbol_canonical(4));
                                } else {
                                    assert(symbol_canonical(5));
                                }
                            } else {
                                if sym < 7 {
                                    assert(symbol_canonical(6));
                                } else {
                                    assert(symbol_canonical(7));
                                }
                            }
                        }
                    } else {
                        if sym < 12 {
                            if sym < 10 {
                                if sym < 9 {
                                    assert(symbol_canonical(8));
                                } else {
                                    assert(symbol_canonical(9));
                                }
                            } else {
                                if sym < 11 {
                                    assert(symbol_canonical(10));
                                } else {
                                    assert(symbol_canonical(11));
                                }
                            }
                        } else {
                            if sym < 14 {
                                if sym < 13 {
                                    assert(symbol_canonical(12));
                                } else {
                                    assert(symbol_canonical(13));
                                }
                            } else {
                                if sym < 15 {
                                    assert(symbol_canonical(14));
                                } else {
                                    assert(symbol_canonical(15));
                                }
                            }
                        }
                    }
                } else {
                    if sym < 24 {
                        if sym < 20 {
                            if sym < 18 {
                                if sym < 17 {
                                    assert(symbol_canonical(16));
                                } else {
                                    assert(symbol_canonical(17));
                                }
                            } else {
                                if sym < 19 {
                                    assert(symbol_canonical(18));
                                } else {
                                    assert(symbol_canonical(19));
                                }
                            }
                        } else {
                            if sym < 22 {
                                if sym < 21 {
                                    assert(symbol_canonical(20));
                                } else {
                                    assert(symbol_canonical(21));
                                }
                            } else {
                                if sym < 23 {
                                    assert(symbol_canonical(22));
                                } else {
                                    assert(symbol_canonical(23));
                                }
                            }
                        }
                    } else {
                        if sym < 28 {
                            if sym < 26 {
                                if sym < 25 {
                                    assert(symbol_canonical(24));
                                } else {
                                    assert(symbol_canonical(25));
                                }
                            } else {
                                if sym < 27 {
                                    assert(symbol_canonical(26));
                                } else {
                                    assert(symbol_canonical(27));
                                }
                            }
                        } else {
                            if sym < 30 {
                                if sym < 29 {
                                    assert(symbol_canonical(28));
                                } else {
                                    assert(symbol_canonical(29));
                                }
                            } else {
                                if sym < 31 {
                                    assert(symbol_canonical(30));
                                } else {
                                    assert(symbol_canonical(31));
                                }
                            }
                        }
                    }
                }
            } else {
                if sym < 48 {
                    if sym < 40 {
                        if sym < 36 {
                            if sym < 34 {
                                if sym < 33 {
                                    assert(symbol_canonical(32));
                                } else {
                                    assert(symbol_canonical(33));
                                }
                            } else {
                                if sym < 35 {
                                    assert(symbol_canonical(34));
                                } else {
                                    assert(symbol_canonical(35));
                                }
                            }
                        } else {
                            if sym < 38 {
                                if sym < 37 {
                                    assert(symbol_canonical(36));
                                } else {
                                    assert(symbol_canonical(37));
                                }
                            } else {
                                if sym < 39 {
                                    assert(symbol_canonical(38));
                                } else {
                                    assert(symbol_canonical(39));
                                }
                            }
                        }
                    } else {
                        if sym < 44 {
                            if sym < 42 {
                                if sym < 41 {
                                    assert(symbol_canonical(40));
                                } else {
                                    assert(symbol_canonical(41));
                                }
                            } else {
                                if sym < 43 {
                                    assert(symbol_canonical(42));
                                } else {
                                    assert(symbol_canonical(43));
                                }
                            }
                        } else {
                            if sym < 46 {
                                if sym < 45 {
                                    assert(symbol_canonical(44));
                                } else {
                                    assert(symbol_canonical(45));
                                }
                            } else {
                                if sym < 47 {
                                    assert(symbol_canonical(46));
                                } else {
                                    assert(symbol_canonical(47));
                                }
                            }
                        }
                    }
                } else {
                    if sym < 56 {
                        if sym < 52 {
                            if sym < 50 {
                                if sym < 49 {
                                    assert(symbol_canonical(48));
                                } else {
                                    assert(symbol_canonical(49));
                                }
                            } else {
                                if sym < 51 {
                                    assert(symbol_canonical(50));
                                } else {
                                    assert(symbol_canonical(51));
                                }
                            }
                        } else {
                            if sym < 54 {
                                if sym < 53 {
                                    assert(symbol_canonical(52));
                                } else {
                                    assert(symbol_canonical(53));
                                }
                            } else {
                                if sym < 55 {
                                    assert(symbol_canonical(54));
                                } else {
                                    assert(symbol_canonical(55));
                                }
                            }
                        }
                    } else {
                        if sym < 60 {
                            if sym < 58 {
                                if sym < 57 {
                                    assert(symbol_canonical(56));
                                } else {
                                    assert(symbol_canonical(57));
                                }
                            } else {
                                if sym < 59 {
                                    assert(symbol_canonical(58));
                                } else {
                                    assert(symbol_canonical(59));
                                }
                            }
                        } else {
                            if sym < 62 {
                                if sym < 61 {
                                    assert(symbol_canonical(60));
                                } else {
                                    assert(symbol_canonical(61));
                                }
                            } else {
                                if sym < 63 {
                                    assert(symbol_canonical(62));
                                } else {
                                    assert(symbol_canonical(63));
                                }
                            }
                        }
                    }
                }
            }
        } else {
            if sym < 96 {
                if sym < 80 {
                    if sym < 72 {
                        if sym < 68 {
                            if sym < 66 {
                                if sym < 65 {
                                    assert(symbol_canonical(64));
                                } else {
                                    assert(symbol_canonical(65));
                                }
                            } else {
                                if sym < 67 {
                                    assert(symbol_canonical(66));
                                } else {
                                    assert(symbol_canonical(67));
                                }
                            }
                        } else {
                            if sym < 70 {
                                if sym < 69 {
                                    assert(symbol_canonical(68));
                                } else {
                                    assert(symbol_canonical(69));
                                }
                            } else {
                                if sym < 71 {
                                    assert(symbol_canonical(70));
                                } else {
                                    assert(symbol_canonical(71));
                                }
                            }
                        }
                    } else {
                        if sym < 76 {
                            if sym < 74 {
                                if sym < 73 {
                                    assert(symbol_canonical(72));
                                } else {
                                    assert(symbol_canonical(73));
                                }
                            } else {
                                if sym < 75 {
                                    assert(symbol_canonical(74));
                                } else {
                                    assert(symbol_canonical(75));
                                }
                            }
                        } else {
                            if sym < 78 {
                                if sym < 77 {
                                    assert(symbol_canonical(76));
                                } else {
                                    assert(symbol_canonical(77));
                                }
                            } else {
                                if sym < 79 {
                                    assert(symbol_canonical(78));
                                } else {
                                    assert(symbol_canonical(79));
                                }
                            }
                        }
                    }
                } else {
                    if sym < 88 {
                        if sym < 84 {
                            if sym < 82 {
                                if sym < 81 {
                                    assert(symbol_canonical(80));
                                } else {
                                    assert(symbol_canonical(81));
                                }
                            } else {
                                if sym < 83 {
                                    assert(symbol_canonical(82));
                                } else {
                                    assert(symbol_canonical(83));
                                }
                            }
                        } else {
                            if sym < 86 {
                                if sym < 85 {
                                    assert(symbol_canonical(84));
                                } else {
                                    assert(symbol_canonical(85));
                                }
                            } else {
                                if sym < 87 {
                                    assert(symbol_canonical(86));
                                } else {
                                    assert(symbol_canonical(87));
                                }
                            }
                        }
                    } else {
                        if sym < 92 {
                            if sym < 90 {
                                if sym < 89 {
                                    assert(symbol_canonical(88));
                                } else {
                                    assert(symbol_canonical(89));
                                }
                            } else {
                                if sym < 91 {
                                    assert(symbol_canonical(90));
                                } else {
                                    assert(symbol_canonical(91));
                                }
                            }
                        } else {
                            if sym < 94 {
                                if sym < 93 {
                                    assert(symbol_canonical(92));
                                } else {
                                    assert(symbol_canonical(93));
                                }
                            } else {
                                if sym < 95 {
                                    assert(symbol_canonical(94));
                                } else {
                                    assert(symbol_canonical(95));
                                }
                            }
                        }
                    }
                }
            } else {
                if sym < 112 {
                    if sym < 104 {
                        if sym < 100 {
                            if sym < 98 {
                                if sym < 97 {
                                    assert(symbol_canonical(96));
                                } else {
                                    assert(symbol_canonical(97));
                                }
                            } else {
                                if sym < 99 {
                                    assert(symbol_canonical(98));
                                } else {
                                    assert(symbol_canonical(99));
                                }
                            }
                        } else {
                            if sym < 102 {
                                if sym < 101 {
                                    assert(symbol_canonical(100));
                                } else {
                                    assert(symbol_canonical(101));
                                }
                            } else {
                                if sym < 103 {
                                    assert(symbol_canonical(102));
                                } else {
                                    assert(symbol_canonical(103));
                                }
                            }
                        }
                    } else {
                        if sym < 108 {
                            if sym < 106 {
                                if sym < 105 {
                                    assert(symbol_canonical(104));
                                } else {
                                    assert(symbol_canonical(105));
                                }
                            } else {
                                if sym < 107 {
                                    assert(symbol_canonical(106));
                                } else {
                                    assert(symbol_canonical(107));
                                }
                            }
                        } else {
                            if sym < 110 {
                                if sym < 109 {
                                    assert(symbol_canonical(108));
                                } else {
                                    assert(symbol_canonical(109));
                                }
                            } else {
                                if sym < 111 {
                                    assert(symbol_canonical(110));
                                } else {
                                    assert(symbol_canonical(111));
                                }
                            }
                        }
                    }
                } else {
                    if sym < 120 {
                        if sym < 116 {
                            if sym < 114 {
                                if sym < 113 {
                                    assert(symbol_canonical(112));
                                } else {
                                    assert(symbol_canonical(113));
                                }
                            } else {
                                if sym < 115 {
                                    assert(symbol_canonical(114));
                                } else {
                                    assert(symbol_canonical(115));
                                }
                            }
                        } else {
                            if sym < 118 {
                                if sym < 117 {
                                    assert(symbol_canonical(116));
                                } else {
                                    assert(symbol_canonical(117));
                                }
                            } else {
                                if sym < 119 {
                                    assert(symbol_canonical(118));
                                } else {
                                    assert(symbol_canonical(119));
                                }
                            }
                        }
                    } else {
                        if sym < 124 {
                            if sym < 122 {
                                if sym < 121 {
                                    assert(symbol_canonical(120));
                                } else {
                                    assert(symbol_canonical(121));
                                }
                            } else {
                                if sym < 123 {
                                    assert(symbol_canonical(122));
                                } else {
                                    assert(symbol_canonical(123));
                                }
                            }
                        } else {
                            if sym < 126 {
                                if sym < 125 {
                                    assert(symbol_canonical(124));
                                } else {
                                    assert(symbol_canonical(125));
                                }
                            } else {
                                if sym < 127 {
                                    assert(symbol_canonical(126));
                                } else {
                                    assert(symbol_canonical(127));
                                }
                            }
                        }
                    }
                }
            }
        }
    } else {
        if sym < 192 {
            if sym < 160 {
                if sym < 144 {
                    if sym < 136 {
                        if sym < 132 {
                            if sym < 130 {
                                if sym < 129 {
                                    assert(symbol_canonical(128));
                                } else {
                                    assert(symbol_canonical(129));
                                }
                            } else {
                                if sym < 131 {
                                    assert(symbol_canonical(130));
                                } else {
                                    assert(symbol_canonical(131));
                                }
                            }
                        } else {
                            if sym < 134 {
                                if sym < 133 {
                                    assert(symbol_canonical(132));
                                } else {
                                    assert(symbol_canonical(133));
                                }
                            } else {
                                if sym < 135 {
                                    assert(symbol_canonical(134));
                                } else {
                                    assert(symbol_canonical(135));
                                }
                            }
                        }
                    } else {
                        if sym < 140 {
                            if sym < 138 {
                                if sym < 137 {
                                    assert(symbol_canonical(136));
                                } else {
                                    assert(symbol_canonical(137));
                                }
                            } else {
                                if sym < 139 {
                                    assert(symbol_canonical(138));
                                } else {
                                    assert(symbol_canonical(139));
                                }
                            }
                        } else {
                            if sym < 142 {
                                if sym < 141 {
                                    assert(symbol_canonical(140));
                                } else {
                                    assert(symbol_canonical(141));
                                }
                            } else {
                                if sym < 143 {
                                    assert(symbol_canonical(142));
                                } else {
                                    assert(symbol_canonical(143));
                                }
                            }
                        }
                    }
                } else {
                    if sym < 152 {
                        if sym < 148 {
                            if sym < 146 {
                                if sym < 145 {
                                    assert(symbol_canonical(144));
                                } else {
                                    assert(symbol_canonical(145));
                                }
                            } else {
                                if sym < 147 {
                                    assert(symbol_canonical(146));
                                } else {
                                    assert(symbol_canonical(147));
                                }
                            }
                        } else {
                            if sym < 150 {
                                if sym < 149 {
                                    assert(symbol_canonical(148));
                                } else {
                                    assert(symbol_canonical(149));
                                }
                            } else {
                                if sym < 151 {
                                    assert(symbol_canonical(150));
                                } else {
                                    assert(symbol_canonical(151));
                                }
                            }
                        }
                    } else {
                        if sym < 156 {
                            if sym < 154 {
                                if sym < 153 {
                                    assert(symbol_canonical(152));
                                } else {
                                    assert(symbol_canonical(153));
                                }
                            } else {
                                if sym < 155 {
                                    assert(symbol_canonical(154));
                                } else {
                                    assert(symbol_canonical(155));
                                }
                            }
                        } else {
                            if sym < 158 {
                                if sym < 157 {
                                    assert(symbol_canonical(156));
                                } else {
                                    assert(symbol_canonical(157));
                                }
                            } else {
                                if sym < 159 {
                                    assert(symbol_canonical(158));
                                } else {
                                    assert(symbol_canonical(159));
                                }
                            }
                        }
                    }
                }
            } else {
                if sym < 176 {
                    if sym < 168 {
                        if sym < 164 {
                            if sym < 162 {
                                if sym < 161 {
                                    assert(symbol_canonical(160));
                                } else {
                                    assert(symbol_canonical(161));
                                }
                            } else {
                                if sym < 163 {
                                    assert(symbol_canonical(162));
                                } else {
                                    assert(symbol_canonical(163));
                                }
                            }
                        } else {
                            if sym < 166 {
                                if sym < 165 {
                                    assert(symbol_canonical(164));
                                } else {
                                    assert(symbol_canonical(165));
                                }
                            } else {
                                if sym < 167 {
                                    assert(symbol_canonical(166));
                                } else {
                                    assert(symbol_canonical(167));
                                }
                            }
                        }
                    } else {
                        if sym < 172 {
                            if sym < 170 {
                                if sym < 169 {
                                    assert(symbol_canonical(168));
                                } else {
                                    assert(symbol_canonical(169));
                                }
                            } else {
                                if sym < 171 {
                                    assert(symbol_canonical(170));
                                } else {
                                    assert(symbol_canonical(171));
                                }
                            }
                        } else {
                            if sym < 174 {
                                if sym < 173 {
                                    assert(symbol_canonical(172));
                                } else {
                                    assert(symbol_canonical(173));
                                }
                            } else {
                                if sym < 175 {
                                    assert(symbol_canonical(174));
                                } else {
                                    assert(symbol_canonical(175));
                                }
                            }
                        }
                    }
                } else {
                    if sym < 184 {
                        if sym < 180 {
                            if sym < 178 {
                                if sym < 177 {
                                    assert(symbol_canonical(176));
                                } else {
                                    assert(symbol_canonical(177));
                                }
                            } else {
                                if sym < 179 {
                                    assert(symbol_canonical(178));
                                } else {
                                    assert(symbol_canonical(179));
                                }
                            }
                        } else {
                            if sym < 182 {
                                if sym < 181 {
                                    assert(symbol_canonical(180));
                                } else {
                                    assert(symbol_canonical(181));
                                }
                            } else {
                                if sym < 183 {
                                    assert(symbol_canonical(182));
                                } else {
                                    assert(symbol_canonical(183));
                                }
                            }
                        }
                    } else {
                        if sym < 188 {
                            if sym < 186 {
                                if sym < 185 {
                                    assert(symbol_canonical(184));
                                } else {
                                    assert(symbol_canonical(185));
                                }
                            } else {
                                if sym < 187 {
                                    assert(symbol_canonical(186));
                                } else {
                                    assert(symbol_canonical(187));
                                }
                            }
                        } else {
                            if sym < 190 {
                                if sym < 189 {
                                    assert(symbol_canonical(188));
                                } else {
                                    assert(symbol_canonical(189));
                                }
                            } else {
                                if sym < 191 {
                                    assert(symbol_canonical(190));
                                } else {
                                    assert(symbol_canonical(191));
                                }
                            }
                        }
                    }
                }
            }
        } else {
            if sym < 224 {
                if sym < 208 {
                    if sym < 200 {
                        if sym < 196 {
                            if sym < 194 {
                                if sym < 193 {
                                    assert(symbol_canonical(192));
                                } else {
                                    assert(symbol_canonical(193));
                                }
                            } else {
                                if sym < 195 {
                                    assert(symbol_canonical(194));
                                } else {
                                    assert(symbol_canonical(195));
                                }
                            }
                        } else {
                            if sym < 198 {
                                if sym < 197 {
                                    assert(symbol_canonical(196));
                                } else {
                                    assert(symbol_canonical(197));
                                }
                            } else {
                                if sym < 199 {
                                    assert(symbol_canonical(198));
                                } else {
                                    assert(symbol_canonical(199));
                                }
                            }
                        }
                    } else {
                        if sym < 204 {
                            if sym < 202 {
                                if sym < 201 {
                                    assert(symbol_canonical(200));
                                } else {
                                    assert(symbol_canonical(201));
                                }
                            } else {
                                if sym < 203 {
                                    assert(symbol_canonical(202));
                                } else {
                                    assert(symbol_canonical(203));
                                }
                            }
                        } else {
                            if sym < 206 {
                                if sym < 205 {
                                    assert(symbol_canonical(204));
                                } else {
                                    assert(symbol_canonical(205));
                                }
                            } else {
                                if sym < 207 {
                                    assert(symbol_canonical(206));
                                } else {
                                    assert(symbol_canonical(207));
                                }
                            }
                        }
                    }
                } else {
                    if sym < 216 {
                        if sym < 212 {
                            if sym < 210 {
                                if sym < 209 {
                                    assert(symbol_canonical(208));
                                } else {
                                    assert(symbol_canonical(209));
                                }
                            } else {
                                if sym < 211 {
                                    assert(symbol_canonical(210));
                                } else {
                                    assert(symbol_canonical(211));
                                }
                            }
                        } else {
                            if sym < 214 {
                                if sym < 213 {
                                    assert(symbol_canonical(212));
                                } else {
                                    assert(symbol_canonical(213));
                                }
                            } else {
                                if sym < 215 {
                                    assert(symbol_canonical(214));
                                } else {
                                    assert(symbol_canonical(215));
                                }
                            }
                        }
                    } else {
                        if sym < 220 {
                            if sym < 218 {
                                if sym < 217 {
                                    assert(symbol_canonical(216));
                                } else {
                                    assert(symbol_canonical(217));
                                }
                            } else {
                                if sym < 219 {
                                    assert(symbol_canonical(218));
                                } else {
                                    assert(symbol_canonical(219));
                                }
                            }
                        } else {
                            if sym < 222 {
                                if sym < 221 {
                                    assert(symbol_canonical(220));
                                } else {
                                    assert(symbol_canonical(221));
                                }
                            } else {
                                if sym < 223 {
                                    assert(symbol_canonical(222));
                                } else {
                                    assert(symbol_canonical(223));
                                }
                            }
                        }
                    }
                }
            } else {
                if sym < 240 {
                    if sym < 232 {
                        if sym < 228 {
                            if sym < 226 {
                                if sym < 225 {
                                    assert(symbol_canonical(224));
                                } else {
                                    assert(symbol_canonical(225));
                                }
                            } else {
                                if sym < 227 {
                                    assert(symbol_canonical(226));
                                } else {
                                    assert(symbol_canonical(227));
                                }
                            }
                        } else {
                            if sym < 230 {
                                if sym < 229 {
                                    assert(symbol_canonical(228));
                                } else {
                                    assert(symbol_canonical(229));
                                }
                            } else {
                                if sym < 231 {
                                    assert(symbol_canonical(230));
                                } else {
                                    assert(symbol_canonical(231));
                                }
                            }
                        }
                    } else {
                        if sym < 236 {
                            if sym < 234 {
                                if sym < 233 {
                                    assert(symbol_canonical(232));
                                } else {
                                    assert(symbol_canonical(233));
                                }
                            } else {
                                if sym < 235 {
                                    assert(symbol_canonical(234));
                                } else {
                                    assert(symbol_canonical(235));
                                }
                            }
                        } else {
                            if sym < 238 {
                                if sym < 237 {
                                    assert(symbol_canonical(236));
                                } else {
                                    assert(symbol_canonical(237));
                                }
                            } else {
                                if sym < 239 {
                                    assert(symbol_canonical(238));
                                } else {
                                    assert(symbol_canonical(239));
                                }
                            }
                        }
                    }
                } else {
                    if sym < 248 {
                        if sym < 244 {
                            if sym < 242 {
                                if sym < 241 {
                                    assert(symbol_canonical(240));
                                } else {
                                    assert(symbol_canonical(241));
                                }
                            } else {
                                if sym < 243 {
                                    assert(symbol_canonical(242));
                                } else {
                                    assert(symbol_canonical(243));
                                }
                            }
                        } else {
                            if sym < 246 {
                                if sym < 245 {
                                    assert(symbol_canonical(244));
                                } else {
                                    assert(symbol_canonical(245));
                                }
                            } else {
                                if sym < 247 {
                                    assert(symbol_canonical(246));
                                } else {
                                    assert(symbol_canonical(247));
                                }
                            }
                        }
                    } else {
                        if sym < 252 {
                            if sym < 250 {
                                if sym < 249 {
                                    assert(symbol_canonical(248));
                                } else {
                                    assert(symbol_canonical(249));
                                }
                            } else {
                                if sym < 251 {
                                    assert(symbol_canonical(250));
                                } else {
                                    assert(symbol_canonical(251));
                                }
                            }
                        } else {
                            if sym < 254 {
                                if sym < 253 {
                                    assert(symbol_canonical(252));
                                } else {
                                    assert(symbol_canonical(253));
                                }
                            } else {
                                if sym < 255 {
                                    assert(symbol_canonical(254));
                                } else {
                                    if sym < 256 {
                                        assert(symbol_canonical(255));
                                    } else {
                                        assert(symbol_canonical(256));
                                    }
                                }
                            }
                        }
                    }
                }
            }
        }
    }
}

/// The facts about the block of codes of one length: the canonical
/// construction of the next block, and the blocks' bounds.
pub open spec fn length_facts(l: int) -> bool {
    &&& (l < 30 ==> base(l + 1) == 2 * (base(l) + count(l)))
    &&& base(l) + count(l) <= pow2(l as nat)
    &&& offset(l) + count(l) <= 257
}

pub proof fn lemma_length_facts(l: int)
    requires
        5 <= l <= 30,
    ensures
        length_facts(l),
{
    lemma2_to64();
    if l == 5 {
        assert(length_facts(5));
    } else if l == 6 {
        assert(length_facts(6));
    } else if l == 7 {
        assert(length_facts(7));
    } else if l == 8 {
        assert(length_facts(8));
    } else if l == 9 {
        assert(length_facts(9));
    } else if l == 10 {
        assert(length_facts(10));
    } else if l == 11 {
        assert(length_facts(11));
    } else if l == 12 {
        assert(length_facts(12));
    } else if l == 13 {
        assert(length_facts(13));
    } else if l == 14 {
        assert(length_facts(14));
    } else if l == 15 {
        assert(length_facts(15));
    } else if l == 16 {
        assert(length_facts(16));
    } else if l == 17 {
        assert(length_facts(17));
    } else if l == 18 {
        assert(length_facts(18));
    } else if l == 19 {
        assert(length_facts(19));
    } else if l == 20 {
        assert(length_facts(20));
    } else if l == 21 {
        assert(length_facts(21));
    } else if l == 22 {
        assert(length_facts(22));
    } else if l == 23 {
        assert(length_facts(23));
    } else if l == 24 {
        assert(length_facts(24));
    } else if l == 25 {
        assert(length_facts(25));
    } else if l == 26 {
        assert(length_facts(26));
    } else if l == 27 {
        assert(length_facts(27));
    } else if l == 28 {
        assert(length_facts(28));
    } else if l == 29 {
        assert(length_facts(29));
    } else if l == 30 {
        assert(length_facts(30));
    }
}

/// Codes are at least five bits long.
pub proof fn lemma_short_lengths(l: int)
    requires
        0 <= l < 5,
    ensures
        count(l) == 0,
{
}

} // verus!
