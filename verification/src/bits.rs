//! Bit-level cursor over a byte buffer, with the exponential-Golomb reads
//! used by the H.264 SPS decoder.
//!
//! The spec functions give the mathematical reading: `bit_at` indexes the
//! bitstream most-significant bit first, `bits_val` is the value of a run of
//! bits, `ue_at` and `se_of` are the 0th-order exponential-Golomb codes.
use vstd::prelude::*;
use vstd::arithmetic::power2::pow2;

verus! {

/// Number of bits in the buffer.
pub open spec fn bitlen(s: Seq<u8>) -> int {
    s.len() * 8int
}

/// The bit at position `i`, most-significant bit of each byte first.
pub open spec fn bit_at(s: Seq<u8>, i: int) -> bool {
    (s[i / 8] as int) / pow2((7 - i % 8) as nat) as int % 2 == 1
}

/// The value of the `n` bits starting at `start`, first bit most significant.
pub open spec fn bits_val(s: Seq<u8>, start: int, n: int) -> int
    decreases n,
{
    if n <= 0 {
        0
    } else {
        bits_val(s, start, n - 1) * 2 + if bit_at(s, start + n - 1) {
            1int
        } else {
            0int
        }
    }
}

/// A run of `n` bits is below `pow2(n)`.
pub proof fn lemma_bits_val_bound(s: Seq<u8>, start: int, n: int)
    requires
        n >= 0,
    ensures
        0 <= bits_val(s, start, n) < pow2(n as nat),
    decreases n,
{
    if n == 0 {
        vstd::arithmetic::power2::lemma2_to64();
    } else {
        lemma_bits_val_bound(s, start, n - 1);
        vstd::arithmetic::power2::lemma_pow2_unfold(n as nat);
    }
}

/// The exponential-Golomb scan: `k` leading zero bits already seen before
/// `pos`.  On the terminating one bit, the next `k` bits complete the code;
/// more than 31 leading zeros or a truncated stream is a failed read.
pub open spec fn ue_scan(s: Seq<u8>, pos: int, k: int) -> Option<(int, int)>
    decreases bitlen(s) - pos,
{
    if pos < 0 || pos >= bitlen(s) {
        None
    } else if !bit_at(s, pos) {
        ue_scan(s, pos + 1, k + 1)
    } else if k >= 32 {
        None
    } else if pos + 1 + k <= bitlen(s) {
        Some((pow2(k as nat) - 1 + bits_val(s, pos + 1, k), pos + 1 + k))
    } else {
        None
    }
}

/// The exponential-Golomb code starting at bit `pos`: the decoded value and
/// the position after it.
pub open spec fn ue_at(s: Seq<u8>, pos: int) -> Option<(int, int)> {
    ue_scan(s, pos, 0)
}

/// The signed mapping of an exponential-Golomb code number.
pub open spec fn se_of(n: int) -> int {
    if n % 2 == 0 {
        n / 2
    } else {
        -((n + 1) / 2)
    }
}

/// Bit-level cursor over a byte buffer.
pub struct BitReader<'a> {
    bytes: &'a [u8],
    byte_index: usize,
    bit_index: u8,
}

impl<'a> BitReader<'a> {
    /// The buffer being read.
    pub closed spec fn buf(self) -> Seq<u8> {
        self.bytes@
    }

    /// The position of the next bit to read.
    pub closed spec fn pos(self) -> int {
        self.byte_index * 8 + self.bit_index
    }

    /// The cursor is inside the buffer and the buffer's bit count fits the
    /// machine word.
    pub closed spec fn wf(self) -> bool {
        &&& self.bit_index < 8
        &&& self.byte_index <= self.bytes@.len()
        &&& self.byte_index == self.bytes@.len() ==> self.bit_index == 0
        &&& self.bytes@.len() * 8 <= usize::MAX
    }

    /// A cursor at the start of the buffer.
    pub fn new(bytes: &'a [u8]) -> (r: Self)
        requires
            bytes@.len() * 8 <= usize::MAX,
        ensures
            r.wf(),
            r.buf() == bytes@,
            r.pos() == 0,
    {
        BitReader { bytes, byte_index: 0, bit_index: 0 }
    }

    /// Reads one bit; `None` at the end of the buffer.
    pub fn read_bit(&mut self) -> (r: Option<bool>)
        requires
            old(self).wf(),
        ensures
            final(self).wf(),
            final(self).buf() == old(self).buf(),
            old(self).pos() >= bitlen(old(self).buf()) ==> r is None && final(self).pos() == old(
                self,
            ).pos(),
            old(self).pos() < bitlen(old(self).buf()) ==> r == Some(
                bit_at(old(self).buf(), old(self).pos()),
            ) && final(self).pos() == old(self).pos() + 1,
    {
        if self.byte_index >= self.bytes.len() {
            return None;
        }
        let byte = self.bytes[self.byte_index];
        let d: u8 = match self.bit_index {
            0 => 128,
            1 => 64,
            2 => 32,
            3 => 16,
            4 => 8,
            5 => 4,
            6 => 2,
            _ => 1,
        };
        proof {
            vstd::arithmetic::power2::lemma2_to64();
            assert(d == pow2((7 - self.pos() % 8) as nat)) by {
                vstd::arithmetic::div_mod::lemma_fundamental_div_mod_converse(
                    self.pos(),
                    8,
                    self.byte_index as int,
                    self.bit_index as int,
                );
            }
        }
        let bit = (byte / d) % 2 == 1;
        proof {
            vstd::arithmetic::div_mod::lemma_fundamental_div_mod_converse(
                self.pos(),
                8,
                self.byte_index as int,
                self.bit_index as int,
            );
        }
        if self.bit_index >= 7 {
            self.bit_index = 0;
            self.byte_index = self.byte_index + 1;
        } else {
            self.bit_index = self.bit_index + 1;
        }
        Some(bit)
    }

    /// Reads `n` bits as an unsigned value, first bit most significant;
    /// `None` when fewer than `n` bits remain.
    pub fn read_bits_as_int(&mut self, n: usize) -> (r: Option<u32>)
        requires
            old(self).wf(),
            n <= 32,
        ensures
            final(self).wf(),
            final(self).buf() == old(self).buf(),
            old(self).pos() + n <= bitlen(old(self).buf()) ==> r == Some(
                bits_val(old(self).buf(), old(self).pos(), n as int) as u32,
            ) && final(self).pos() == old(self).pos() + n,
            old(self).pos() + n > bitlen(old(self).buf()) ==> r is None,
    {
        let ghost start = self.pos();
        let ghost s = self.buf();
        let mut value: u32 = 0;
        let mut i: usize = 0;
        proof {
            vstd::arithmetic::power2::lemma2_to64();
        }
        while i < n
            invariant
                self.wf(),
                self.buf() == s,
                s == old(self).buf(),
                start == old(self).pos(),
                i <= n <= 32,
                start + i == self.pos(),
                start + i <= bitlen(s),
                value == bits_val(s, start, i as int),
                value < pow2(i as nat),
            decreases n - i,
        {
            proof {
                vstd::arithmetic::power2::lemma2_to64();
                if i < 31 {
                    vstd::arithmetic::power2::lemma_pow2_strictly_increases(i as nat, 31);
                }
            }
            match self.read_bit() {
                None => {
                    return None;
                },
                Some(b) => {
                    proof {
                        vstd::arithmetic::power2::lemma_pow2_unfold((i + 1) as nat);
                    }
                    value = value * 2 + if b {
                        1
                    } else {
                        0
                    };
                    i = i + 1;
                },
            }
        }
        Some(value)
    }

    /// Reads a 0th-order exponential-Golomb code; `None` when the stream
    /// ends inside the code or more than 31 leading zeros appear.
    pub fn read_ue(&mut self) -> (r: Option<u32>)
        requires
            old(self).wf(),
        ensures
            final(self).wf(),
            final(self).buf() == old(self).buf(),
            ue_at(old(self).buf(), old(self).pos()) matches Some((v, newpos)) ==> r == Some(
                v as u32,
            ) && 0 <= v < 0xFFFFFFFF && final(self).pos() == newpos,
            ue_at(old(self).buf(), old(self).pos()) is None ==> r is None,
    {
        let ghost s = self.buf();
        let ghost start = self.pos();
        let mut k: usize = 0;
        loop
            invariant_except_break
                k == self.pos() - start,
                ue_scan(s, start, 0) == ue_scan(s, self.pos(), k as int),
            invariant
                self.wf(),
                self.buf() == s,
                s == old(self).buf(),
                start == old(self).pos(),
                start <= self.pos() <= bitlen(s),
            ensures
                1 <= self.pos() <= bitlen(s),
                k == self.pos() - 1 - start,
                bit_at(s, self.pos() - 1),
                ue_scan(s, start, 0) == ue_scan(s, self.pos() - 1, k as int),
            decreases bitlen(s) - self.pos(),
        {
            match self.read_bit() {
                None => {
                    return None;
                },
                Some(false) => {
                    k = k + 1;
                },
                Some(true) => {
                    break;
                },
            }
        }
        let ghost p = self.pos() - 1;
        if k >= 32 {
            return None;
        }
        proof {
            lemma_bits_val_bound(s, p + 1, k as int);
            vstd::arithmetic::power2::lemma2_to64();
            if k < 31 {
                vstd::arithmetic::power2::lemma_pow2_strictly_increases(k as nat, 31);
            }
        }
        let mut base: u32 = 1;
        let mut j: usize = 0;
        proof {
            vstd::arithmetic::power2::lemma2_to64();
        }
        while j < k
            invariant
                j <= k <= 31,
                base == pow2(j as nat),
            decreases k - j,
        {
            proof {
                vstd::arithmetic::power2::lemma_pow2_unfold((j + 1) as nat);
                vstd::arithmetic::power2::lemma2_to64();
                if j + 1 < 31 {
                    vstd::arithmetic::power2::lemma_pow2_strictly_increases((j + 1) as nat, 31);
                }
            }
            base = base * 2;
            j = j + 1;
        }
        match self.read_bits_as_int(k) {
            None => None,
            Some(v) => Some(base - 1 + v),
        }
    }

    /// Reads a signed exponential-Golomb code.
    pub fn read_se(&mut self) -> (r: Option<i32>)
        requires
            old(self).wf(),
        ensures
            final(self).wf(),
            final(self).buf() == old(self).buf(),
            ue_at(old(self).buf(), old(self).pos()) matches Some((v, newpos)) ==> r == Some(
                se_of(v) as i32,
            ) && final(self).pos() == newpos,
            ue_at(old(self).buf(), old(self).pos()) is None ==> r is None,
    {
        match self.read_ue() {
            None => None,
            Some(code_num) => {
                if code_num % 2 == 0 {
                    Some((code_num / 2) as i32)
                } else {
                    let half: u32 = (code_num + 1) / 2;
                    Some(-(half as i32))
                }
            },
        }
    }
}

} // verus!
