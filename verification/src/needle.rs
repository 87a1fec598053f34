//! The needle set: up to eight ASCII byte values packed into one `u64`.

use vstd::prelude::*;
use vstd::string::StringExecFns;

verus! {

/// A set of up to 8 ASCII byte values to search for.
///
/// Each stored byte occupies one 8-bit lane of `needle`; lanes are filled in
/// insertion order, but the structure represents an unordered set: membership
/// never depends on the order of insertion. The fields are public so that a
/// frequently used set can be spelled out as a literal constant and reused
/// process-wide without any initialization cost.
#[derive(Clone, Copy, Debug, PartialEq, Eq, Structural)]
pub struct AsciiChars {
    pub needle: u64,
    pub count: u8,
}

/// Shifting out of an all-zero word leaves every lane zero.
proof fn lemma_zero_lane(s: u64)
    by (bit_vector)
    ensures
        (0u64 >> s) & 0xff == 0,
{
}

/// How one push moves the lanes: the new byte lands in lane 0 and every old
/// lane moves up by one.
proof fn lemma_push_lane(n: u64, b: u64, j: u64)
    by (bit_vector)
    requires
        j < 8,
        b < 256,
    ensures
        j == 0 ==> (((n << 8u64) | b) >> ((8 * j) as u64)) & 0xff == b,
        j >= 1 ==> (((n << 8u64) | b) >> ((8 * j) as u64)) & 0xff == (n >> ((8 * (j - 1)) as u64))
            & 0xff,
{
}

impl AsciiChars {
    /// The byte stored in 8-bit lane `j` of the packed needle word.
    pub open spec fn lane(self, j: int) -> u8 {
        ((self.needle >> ((8 * j) as u64)) & 0xff) as u8
    }

    /// Membership: some filled lane holds `b`.
    pub open spec fn has(self, b: u8) -> bool {
        exists|j: int| 0 <= j < self.count && self.lane(j) == b
    }

    /// A well-formed set holds at most 8 bytes, every stored byte is ASCII,
    /// and the unused high lanes are zero.
    pub open spec fn wf(self) -> bool {
        &&& self.count <= 8
        &&& (forall|j: int| 0 <= j < self.count ==> self.lane(j) < 128)
        &&& (forall|j: int| self.count <= j < 8 ==> self.lane(j) == 0)
    }

    /// The empty set.
    pub fn new() -> (r: AsciiChars)
        ensures
            r.wf(),
            r.count == 0,
            forall|b: u8| !r.has(b),
    {
        let r = AsciiChars { needle: 0, count: 0 };
        proof {
            assert forall|j: int| 0 <= j < 8 implies r.lane(j) == 0 by {
                lemma_zero_lane((8 * j) as u64);
            }
        }
        r
    }

    /// Add one ASCII byte to the set.
    ///
    /// The set holds at most 8 bytes and only ASCII values; callers must not
    /// push a ninth byte nor a byte of 128 or more.
    pub fn push(&mut self, byte: u8)
        requires
            old(self).wf(),
            old(self).count < 8,
            byte < 128,
        ensures
            final(self).wf(),
            final(self).count == old(self).count + 1,
            forall|b: u8| final(self).has(b) <==> (b == byte || old(self).has(b)),
    {
        let ghost prev = *self;
        self.needle = (self.needle << 8u64) | (byte as u64);
        self.count = self.count + 1;
        proof {
            assert forall|j: int| 0 <= j < 8 implies self.lane(j) == (if j == 0 {
                byte
            } else {
                prev.lane(j - 1)
            }) by {
                lemma_push_lane(prev.needle, byte as u64, j as u64);
            }
            assert(self.lane(0) == byte);
            assert(self.has(byte));
            assert forall|b: u8| self.has(b) && b != byte implies prev.has(b) by {
                let j = choose|j: int| 0 <= j < self.count && self.lane(j) == b;
                assert(self.lane(j) == b);
                assert(j != 0);
                assert(prev.lane(j - 1) == b);
            }
            assert forall|b: u8| prev.has(b) implies self.has(b) by {
                let i = choose|i: int| 0 <= i < prev.count && prev.lane(i) == b;
                assert(self.lane(i + 1) == b);
            }
        }
    }

    /// Test one byte for membership in the set.
    pub fn contains_byte(&self, byte: u8) -> (r: bool)
        requires
            self.wf(),
        ensures
            r == self.has(byte),
    {
        let mut j: u8 = 0;
        while j < self.count
            invariant
                self.wf(),
                j <= self.count,
                forall|i: int| 0 <= i < j ==> self.lane(i) != byte,
            decreases self.count - j,
        {
            let stored = ((self.needle >> ((8 * j) as u64)) & 0xff) as u8;
            assert(stored == self.lane(j as int));
            if stored == byte {
                assert(self.has(byte));
                return true;
            }
            j = j + 1;
        }
        false
    }

    /// The rendering `literal_string` produces: the set spelled out so that
    /// an equivalent value can be written back as a literal constant.
    pub open spec fn literal_rendering(self) -> Seq<char> {
        "AsciiChars { needle: 0x"@ + hex_u64(self.needle) + ", count: "@ + seq![
            hex_digit(self.count as int),
        ] + " }"@
    }

    /// Render the set so that an equivalent value can be reconstructed as a
    /// literal constant, letting a frequently used set be reused
    /// process-wide without any initialization cost.
    pub fn literal_string(&self) -> (r: String)
        requires
            self.wf(),
        ensures
            r@ == self.literal_rendering(),
    {
        let mut out = String::from_str("AsciiChars { needle: 0x");
        let mut k: usize = 0;
        while k < 16
            invariant
                self.wf(),
                k <= 16,
                out@ == "AsciiChars { needle: 0x"@ + hex_u64(self.needle).subrange(0, k as int),
            decreases 16 - k,
        {
            let shift = (4 * (15 - k)) as u64;
            let nib = ((self.needle >> shift) & 0xf) as u8;
            proof {
                let v = self.needle;
                assert((v >> shift) & 0xf < 16) by (bit_vector);
            }
            let piece = hex_digit_str(nib);
            out.append(piece);
            proof {
                assert(hex_u64(self.needle)[k as int] == hex_digit(nib as int));
                assert(out@ =~= "AsciiChars { needle: 0x"@ + hex_u64(self.needle).subrange(
                    0,
                    k as int + 1,
                ));
            }
            k = k + 1;
        }
        out.append(", count: ");
        let digit = hex_digit_str(self.count);
        out.append(digit);
        out.append(" }");
        proof {
            assert(hex_u64(self.needle).subrange(0, 16) =~= hex_u64(self.needle));
            assert(out@ =~= self.literal_rendering());
        }
        out
    }
}

/// The lower-case hex digit for a value below 16.
pub open spec fn hex_digit(n: int) -> char
    recommends
        0 <= n < 16,
{
    if n == 0 {
        '0'
    } else if n == 1 {
        '1'
    } else if n == 2 {
        '2'
    } else if n == 3 {
        '3'
    } else if n == 4 {
        '4'
    } else if n == 5 {
        '5'
    } else if n == 6 {
        '6'
    } else if n == 7 {
        '7'
    } else if n == 8 {
        '8'
    } else if n == 9 {
        '9'
    } else if n == 10 {
        'a'
    } else if n == 11 {
        'b'
    } else if n == 12 {
        'c'
    } else if n == 13 {
        'd'
    } else if n == 14 {
        'e'
    } else {
        'f'
    }
}

/// A `u64` written as 16 hex digits, most significant first.
pub open spec fn hex_u64(v: u64) -> Seq<char> {
    Seq::new(16, |k: int| hex_digit(((v >> ((4 * (15 - k)) as u64)) & 0xf) as int))
}

/// The one-character string holding the hex digit for a value below 16.
fn hex_digit_str(nib: u8) -> (r: &'static str)
    requires
        nib < 16,
    ensures
        r@ == seq![hex_digit(nib as int)],
{
    proof {
        reveal_strlit("0");
        reveal_strlit("1");
        reveal_strlit("2");
        reveal_strlit("3");
        reveal_strlit("4");
        reveal_strlit("5");
        reveal_strlit("6");
        reveal_strlit("7");
        reveal_strlit("8");
        reveal_strlit("9");
        reveal_strlit("a");
        reveal_strlit("b");
        reveal_strlit("c");
        reveal_strlit("d");
        reveal_strlit("e");
        reveal_strlit("f");
    }
    let r: &'static str = match nib {
        0 => "0",
        1 => "1",
        2 => "2",
        3 => "3",
        4 => "4",
        5 => "5",
        6 => "6",
        7 => "7",
        8 => "8",
        9 => "9",
        10 => "a",
        11 => "b",
        12 => "c",
        13 => "d",
        14 => "e",
        _ => "f",
    };
    proof {
        assert(r@ =~= seq![hex_digit(nib as int)]);
    }
    r
}

} // verus!
