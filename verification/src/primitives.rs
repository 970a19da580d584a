//! Ledger primitives: 20-byte account addresses and 256-bit unsigned words.

use vstd::prelude::*;

verus! {

/// A 20-byte ledger address.
#[derive(Clone, Copy, Debug, Eq, Hash)]
pub struct Address {
    pub bytes: [u8; 20],
}

impl View for Address {
    type V = Seq<u8>;

    open spec fn view(&self) -> Seq<u8> {
        self.bytes@
    }
}

impl Address {
    /// The address is the all-zero address.
    pub open spec fn spec_is_zero(self) -> bool {
        forall|i: int| 0 <= i < 20 ==> self@[i] == 0u8
    }

    /// The all-zero address.
    pub fn zero() -> (a: Address)
        ensures
            a.spec_is_zero(),
    {
        Address { bytes: [0u8; 20] }
    }

    /// Builds an address from its 20 bytes.
    pub fn new(bytes: [u8; 20]) -> (a: Address)
        ensures
            a@ == bytes@,
    {
        Address { bytes }
    }

    /// Tells whether every byte is zero.
    pub fn is_zero(&self) -> (z: bool)
        ensures
            z == self.spec_is_zero(),
    {
        let mut i: usize = 0;
        while i < 20
            invariant
                i <= 20,
                forall|j: int| 0 <= j < i ==> self@[j] == 0u8,
            decreases 20 - i,
        {
            if self.bytes[i] != 0 {
                assert(self@[i as int] != 0u8);
                return false;
            }
            i += 1;
        }
        true
    }

    /// Tells whether two addresses hold the same bytes.
    pub fn same(&self, other: &Address) -> (e: bool)
        ensures
            e == (self@ == other@),
    {
        let mut i: usize = 0;
        while i < 20
            invariant
                i <= 20,
                forall|j: int| 0 <= j < i ==> self@[j] == other@[j],
            decreases 20 - i,
        {
            if self.bytes[i] != other.bytes[i] {
                return false;
            }
            i += 1;
        }
        assert(self@ =~= other@);
        true
    }
}

impl PartialEq for Address {
    fn eq(&self, other: &Address) -> (r: bool) {
        self.same(other)
    }
}

impl vstd::std_specs::cmp::PartialEqSpecImpl for Address {
    open spec fn obeys_eq_spec() -> bool {
        true
    }

    open spec fn eq_spec(&self, other: &Address) -> bool {
        self@ == other@
    }
}

/// Two addresses with the same bytes are the same address.
pub proof fn lemma_address_ext(a: Address, b: Address)
    requires
        a@ == b@,
    ensures
        a == b,
{
    assert(a.bytes =~= b.bytes);
}

/// The address whose 20 bytes start at `offset` in the data.
pub open spec fn address_in(data: Seq<u8>, offset: int) -> Address {
    choose|a: Address| a@ == data.subrange(offset, offset + 20)
}

/// Bit `k` of a 64-bit word, counted from the least significant one.
pub open spec fn word_bit(w: u64, k: int) -> bool {
    (w >> (k as u64)) & 1u64 == 1u64
}

/// A 256-bit unsigned word, kept as four 64-bit limbs, least significant
/// first.
#[derive(Clone, Copy, Debug, PartialEq, Eq, Hash, Structural)]
pub struct U256 {
    pub w0: u64,
    pub w1: u64,
    pub w2: u64,
    pub w3: u64,
}

impl U256 {
    /// The number that the word stands for.
    pub open spec fn value(self) -> int {
        self.w0 + 0x1_0000_0000_0000_0000 * (self.w1 + 0x1_0000_0000_0000_0000 * (self.w2
            + 0x1_0000_0000_0000_0000 * self.w3))
    }

    /// The number that the word stands for when read as two's complement:
    /// the most significant limb counts as a signed 64-bit number.
    pub open spec fn signed_value(self) -> int {
        let top: int = if self.w3 < 0x8000_0000_0000_0000 {
            self.w3 as int
        } else {
            self.w3 - 0x1_0000_0000_0000_0000
        };
        self.w0 + 0x1_0000_0000_0000_0000 * (self.w1 + 0x1_0000_0000_0000_0000 * (self.w2
            + 0x1_0000_0000_0000_0000 * top))
    }

    /// The limb that holds bit `i`.
    pub open spec fn limb(self, n: int) -> u64 {
        if n == 0 {
            self.w0
        } else if n == 1 {
            self.w1
        } else if n == 2 {
            self.w2
        } else {
            self.w3
        }
    }

    /// Bit `i` of the word, for `0 <= i < 256`.
    pub open spec fn bit(self, i: int) -> bool {
        word_bit(self.limb(i / 64), i % 64)
    }

    /// The word with every bit clear.
    pub open spec fn spec_zero() -> U256 {
        U256 { w0: 0, w1: 0, w2: 0, w3: 0 }
    }

    /// The word in which bit `i` alone is set, for `0 <= i < 256`.
    pub open spec fn spec_single_bit(i: int) -> U256 {
        let m: u64 = 1u64 << ((i % 64) as u64);
        U256 {
            w0: if i / 64 == 0 { m } else { 0 },
            w1: if i / 64 == 1 { m } else { 0 },
            w2: if i / 64 == 2 { m } else { 0 },
            w3: if i / 64 == 3 { m } else { 0 },
        }
    }

    /// The bitwise exclusive or of two words.
    pub open spec fn spec_xor(self, other: U256) -> U256 {
        U256 {
            w0: self.w0 ^ other.w0,
            w1: self.w1 ^ other.w1,
            w2: self.w2 ^ other.w2,
            w3: self.w3 ^ other.w3,
        }
    }

    /// The word with bit `i` inverted, for `0 <= i < 256`.
    pub open spec fn spec_toggle(self, i: int) -> U256 {
        self.spec_xor(U256::spec_single_bit(i))
    }

    /// The word with every bit clear.
    pub fn zero() -> (r: U256)
        ensures
            r == U256::spec_zero(),
            r.value() == 0,
            forall|i: int| 0 <= i < 256 ==> !#[trigger] r.bit(i),
    {
        let r = U256 { w0: 0, w1: 0, w2: 0, w3: 0 };
        proof {
            assert forall|i: int| 0 <= i < 256 implies !#[trigger] r.bit(i) by {
                let k: u64 = (i % 64) as u64;
                assert((0u64 >> k) & 1u64 != 1u64) by (bit_vector);
            }
        }
        r
    }

    /// The word that stands for a 64-bit number.
    pub fn from_u64(x: u64) -> (r: U256)
        ensures
            r.value() == x,
            r == (U256 { w0: x, w1: 0, w2: 0, w3: 0 }),
    {
        U256 { w0: x, w1: 0, w2: 0, w3: 0 }
    }

    /// The word that stands for a 128-bit number.
    pub fn from_u128(x: u128) -> (r: U256)
        ensures
            r.value() == x,
            r.w2 == 0,
            r.w3 == 0,
    {
        let low: u128 = x % 0x1_0000_0000_0000_0000u128;
        let high: u128 = x / 0x1_0000_0000_0000_0000u128;
        U256 { w0: low as u64, w1: high as u64, w2: 0, w3: 0 }
    }

    /// The word made of four limbs, least significant first.
    pub fn from_limbs(limbs: [u64; 4]) -> (r: U256)
        ensures
            r == (U256 { w0: limbs@[0], w1: limbs@[1], w2: limbs@[2], w3: limbs@[3] }),
    {
        U256 { w0: limbs[0], w1: limbs[1], w2: limbs[2], w3: limbs[3] }
    }

    /// The four limbs, least significant first.
    pub fn into_limbs(self) -> (limbs: [u64; 4])
        ensures
            limbs@ == seq![self.w0, self.w1, self.w2, self.w3],
    {
        let limbs: [u64; 4] = [self.w0, self.w1, self.w2, self.w3];
        assert(limbs@ =~= seq![self.w0, self.w1, self.w2, self.w3]);
        limbs
    }

    /// Tells whether the word stands for zero.
    pub fn is_zero(&self) -> (z: bool)
        ensures
            z == (self.value() == 0),
    {
        self.w0 == 0 && self.w1 == 0 && self.w2 == 0 && self.w3 == 0
    }

    /// The number as 8 bits, where it fits.
    pub fn to_u8(&self) -> (r: Option<u8>)
        ensures
            r == (if self.value() <= u8::MAX {
                Some(self.value() as u8)
            } else {
                None
            }),
    {
        if self.w1 == 0 && self.w2 == 0 && self.w3 == 0 && self.w0 <= 255 {
            Some(self.w0 as u8)
        } else {
            None
        }
    }

    /// The number as 32 bits, where it fits.
    pub fn to_u32(&self) -> (r: Option<u32>)
        ensures
            r == (if self.value() <= u32::MAX {
                Some(self.value() as u32)
            } else {
                None
            }),
    {
        if self.w1 == 0 && self.w2 == 0 && self.w3 == 0 && self.w0 <= 0xffff_ffff {
            Some(self.w0 as u32)
        } else {
            None
        }
    }

    /// The number as 128 bits, where it fits.
    pub fn to_u128(&self) -> (r: Option<u128>)
        ensures
            r == (if self.value() <= u128::MAX {
                Some(self.value() as u128)
            } else {
                None
            }),
    {
        if self.w2 == 0 && self.w3 == 0 {
            let high: u128 = self.w1 as u128;
            let low: u128 = self.w0 as u128;
            Some(high * 0x1_0000_0000_0000_0000u128 + low)
        } else {
            None
        }
    }

    /// The two's complement reading as a signed 32-bit number, where it fits.
    pub fn to_i32(&self) -> (r: Option<i32>)
        ensures
            r == (if i32::MIN <= self.signed_value() <= i32::MAX {
                Some(self.signed_value() as i32)
            } else {
                None
            }),
    {
        if self.w1 == 0 && self.w2 == 0 && self.w3 == 0 && self.w0 <= 0x7fff_ffff {
            Some(self.w0 as i32)
        } else if self.w1 == u64::MAX && self.w2 == u64::MAX && self.w3 == u64::MAX && self.w0
            >= 0xffff_ffff_8000_0000 {
            let below: u64 = u64::MAX - self.w0;
            Some(-1i32 - (below as i32))
        } else {
            None
        }
    }

    /// Tells whether bit `i` is set.
    pub fn get_bit(&self, i: u8) -> (b: bool)
        ensures
            b == self.bit(i as int),
    {
        let n: u8 = i / 64;
        let k: u64 = (i % 64) as u64;
        let w: u64 = if n == 0 {
            self.w0
        } else if n == 1 {
            self.w1
        } else if n == 2 {
            self.w2
        } else {
            self.w3
        };
        (w >> k) & 1 == 1
    }

    /// The word in which bit `i` alone is set: one shifted left by `i`.
    pub fn single_bit(i: u8) -> (r: U256)
        ensures
            r == U256::spec_single_bit(i as int),
            forall|j: int| 0 <= j < 256 ==> #[trigger] r.bit(j) == (j == i as int),
    {
        let n: u8 = i / 64;
        let k: u64 = (i % 64) as u64;
        let m: u64 = 1u64 << k;
        let r = U256 {
            w0: if n == 0 { m } else { 0 },
            w1: if n == 1 { m } else { 0 },
            w2: if n == 2 { m } else { 0 },
            w3: if n == 3 { m } else { 0 },
        };
        proof {
            assert forall|j: int| 0 <= j < 256 implies #[trigger] r.bit(j) == (j == i as int) by {
                let t: u64 = (j % 64) as u64;
                assert((0u64 >> t) & 1u64 != 1u64) by (bit_vector);
                assert((((1u64 << k) >> t) & 1u64 == 1u64) == (t == k)) by (bit_vector)
                    requires
                        k < 64,
                        t < 64,
                ;
            }
        }
        r
    }

    /// The bitwise exclusive or of two words.
    pub fn xor(&self, other: &U256) -> (r: U256)
        ensures
            r == self.spec_xor(*other),
            forall|j: int| 0 <= j < 256 ==> #[trigger] r.bit(j) == (self.bit(j) != other.bit(j)),
    {
        let r = U256 {
            w0: self.w0 ^ other.w0,
            w1: self.w1 ^ other.w1,
            w2: self.w2 ^ other.w2,
            w3: self.w3 ^ other.w3,
        };
        proof {
            assert forall|j: int| 0 <= j < 256 implies #[trigger] r.bit(j) == (self.bit(j)
                != other.bit(j)) by {
                let t: u64 = (j % 64) as u64;
                lemma_xor_bit(self.limb(j / 64), other.limb(j / 64), t);
            }
        }
        r
    }
}

/// The number that eight bytes stand for, most significant byte first.
pub open spec fn be_u64(bytes: Seq<u8>) -> int {
    (((((((bytes[0] as int) * 256 + bytes[1]) * 256 + bytes[2]) * 256 + bytes[3]) * 256
        + bytes[4]) * 256 + bytes[5]) * 256 + bytes[6]) * 256 + bytes[7]
}

/// The word that 32 bytes stand for, most significant byte first: each limb
/// is made of eight of the bytes.
pub open spec fn word_from_be(bytes: Seq<u8>) -> U256 {
    U256 {
        w3: be_u64(bytes.subrange(0, 8)) as u64,
        w2: be_u64(bytes.subrange(8, 16)) as u64,
        w1: be_u64(bytes.subrange(16, 24)) as u64,
        w0: be_u64(bytes.subrange(24, 32)) as u64,
    }
}

/// Reads eight bytes at `offset` as a number, most significant byte first.
pub fn read_be_u64(data: &[u8], offset: usize) -> (r: u64)
    requires
        offset + 8 <= data@.len(),
    ensures
        r == be_u64(data@.subrange(offset as int, offset + 8)),
{
    let ghost bytes = data@.subrange(offset as int, offset + 8);
    proof {
        assert(bytes[0] == data@[offset + 0]);
        assert(bytes[1] == data@[offset + 1]);
        assert(bytes[2] == data@[offset + 2]);
        assert(bytes[3] == data@[offset + 3]);
        assert(bytes[4] == data@[offset + 4]);
        assert(bytes[5] == data@[offset + 5]);
        assert(bytes[6] == data@[offset + 6]);
        assert(bytes[7] == data@[offset + 7]);
    }
    let b0: u64 = data[offset] as u64;
    let b1: u64 = data[offset + 1] as u64;
    let b2: u64 = data[offset + 2] as u64;
    let b3: u64 = data[offset + 3] as u64;
    let b4: u64 = data[offset + 4] as u64;
    let b5: u64 = data[offset + 5] as u64;
    let b6: u64 = data[offset + 6] as u64;
    let b7: u64 = data[offset + 7] as u64;
    let a1: u64 = b0 * 256 + b1;
    let a2: u64 = a1 * 256 + b2;
    let a3: u64 = a2 * 256 + b3;
    let a4: u64 = a3 * 256 + b4;
    let a5: u64 = a4 * 256 + b5;
    let a6: u64 = a5 * 256 + b6;
    a6 * 256 + b7
}

/// The eight bytes that stand for a number, most significant byte first.
pub fn be_bytes_of(n: u64) -> (r: [u8; 8])
    ensures
        be_u64(r@) == n,
{
    let b0: u8 = ((n >> 56) & 0xff) as u8;
    let b1: u8 = ((n >> 48) & 0xff) as u8;
    let b2: u8 = ((n >> 40) & 0xff) as u8;
    let b3: u8 = ((n >> 32) & 0xff) as u8;
    let b4: u8 = ((n >> 24) & 0xff) as u8;
    let b5: u8 = ((n >> 16) & 0xff) as u8;
    let b6: u8 = ((n >> 8) & 0xff) as u8;
    let b7: u8 = (n & 0xff) as u8;
    proof {
        let c0: u64 = (n >> 56) & 0xff;
        let c1: u64 = (n >> 48) & 0xff;
        let c2: u64 = (n >> 40) & 0xff;
        let c3: u64 = (n >> 32) & 0xff;
        let c4: u64 = (n >> 24) & 0xff;
        let c5: u64 = (n >> 16) & 0xff;
        let c6: u64 = (n >> 8) & 0xff;
        let c7: u64 = n & 0xff;
        assert(c0 <= 255 && c1 <= 255 && c2 <= 255 && c3 <= 255 && c4 <= 255 && c5 <= 255 && c6
            <= 255 && c7 <= 255) by (bit_vector)
            requires
                c0 == (n >> 56) & 0xff,
                c1 == (n >> 48) & 0xff,
                c2 == (n >> 40) & 0xff,
                c3 == (n >> 32) & 0xff,
                c4 == (n >> 24) & 0xff,
                c5 == (n >> 16) & 0xff,
                c6 == (n >> 8) & 0xff,
                c7 == n & 0xff,
        ;
        assert(n == c0 * 0x100_0000_0000_0000 + c1 * 0x1_0000_0000_0000 + c2 * 0x100_0000_0000
            + c3 * 0x1_0000_0000 + c4 * 0x100_0000 + c5 * 0x1_0000 + c6 * 0x100 + c7)
            by (bit_vector)
            requires
                c0 == (n >> 56) & 0xff,
                c1 == (n >> 48) & 0xff,
                c2 == (n >> 40) & 0xff,
                c3 == (n >> 32) & 0xff,
                c4 == (n >> 24) & 0xff,
                c5 == (n >> 16) & 0xff,
                c6 == (n >> 8) & 0xff,
                c7 == n & 0xff,
        ;
    }
    [b0, b1, b2, b3, b4, b5, b6, b7]
}

/// Reads the 32 bytes at `offset` as a word, most significant byte first;
/// none where the data ends before the word does.
pub fn read_word(data: &[u8], offset: usize) -> (r: Option<U256>)
    ensures
        r == (if offset + 32 <= data@.len() {
            Some(word_from_be(data@.subrange(offset as int, offset + 32)))
        } else {
            None
        }),
{
    if data.len() < 32 || data.len() - 32 < offset {
        return None;
    }
    let ghost word = data@.subrange(offset as int, offset + 32);
    proof {
        assert(word.subrange(0, 8) =~= data@.subrange(offset as int, offset + 8));
        assert(word.subrange(8, 16) =~= data@.subrange(offset + 8, offset + 16));
        assert(word.subrange(16, 24) =~= data@.subrange(offset + 16, offset + 24));
        assert(word.subrange(24, 32) =~= data@.subrange(offset + 24, offset + 32));
    }
    Some(
        U256 {
            w3: read_be_u64(data, offset),
            w2: read_be_u64(data, offset + 8),
            w1: read_be_u64(data, offset + 16),
            w0: read_be_u64(data, offset + 24),
        },
    )
}

/// Inverting bit `i` of a word changes that bit and no other.
pub proof fn lemma_toggle_bits(w: U256, i: int)
    requires
        0 <= i < 256,
    ensures
        forall|j: int| 0 <= j < 256 ==> #[trigger] w.spec_toggle(i).bit(j) == (w.bit(j) != (j == i)),
{
    let m = U256::spec_single_bit(i);
    let k: u64 = (i % 64) as u64;
    assert forall|j: int| 0 <= j < 256 implies #[trigger] w.spec_toggle(i).bit(j) == (w.bit(j) != (j
        == i)) by {
        let t: u64 = (j % 64) as u64;
        assert((0u64 >> t) & 1u64 != 1u64) by (bit_vector);
        assert((((1u64 << k) >> t) & 1u64 == 1u64) == (t == k)) by (bit_vector)
            requires
                k < 64,
                t < 64,
        ;
        lemma_xor_bit(w.limb(j / 64), m.limb(j / 64), t);
    }
}

/// Inverting the same bit twice gives the word back.
pub proof fn lemma_toggle_twice(w: U256, i: int)
    requires
        0 <= i < 256,
    ensures
        w.spec_toggle(i).spec_toggle(i) == w,
{
    let m = U256::spec_single_bit(i);
    lemma_xor_twice(w.w0, m.w0);
    lemma_xor_twice(w.w1, m.w1);
    lemma_xor_twice(w.w2, m.w2);
    lemma_xor_twice(w.w3, m.w3);
}

/// Inverting two bits and then the same two bits again gives the word back.
pub proof fn lemma_toggle_pair_twice(w: U256, i: int, j: int)
    requires
        0 <= i < 256,
        0 <= j < 256,
    ensures
        w.spec_toggle(i).spec_toggle(j).spec_toggle(i).spec_toggle(j) == w,
{
    let a = U256::spec_single_bit(i);
    let b = U256::spec_single_bit(j);
    lemma_xor_pair_twice(w.w0, a.w0, b.w0);
    lemma_xor_pair_twice(w.w1, a.w1, b.w1);
    lemma_xor_pair_twice(w.w2, a.w2, b.w2);
    lemma_xor_pair_twice(w.w3, a.w3, b.w3);
}

/// Two exclusive ors undo themselves when repeated in the same order.
pub proof fn lemma_xor_pair_twice(a: u64, b: u64, c: u64)
    ensures
        (((a ^ b) ^ c) ^ b) ^ c == a,
{
    assert((((a ^ b) ^ c) ^ b) ^ c == a) by (bit_vector);
}

/// An exclusive or undoes itself.
pub proof fn lemma_xor_twice(a: u64, b: u64)
    ensures
        (a ^ b) ^ b == a,
{
    assert((a ^ b) ^ b == a) by (bit_vector);
}

/// Bit `t` of an exclusive or is set where exactly one operand has it set.
pub proof fn lemma_xor_bit(a: u64, b: u64, t: u64)
    requires
        t < 64,
    ensures
        word_bit(a ^ b, t as int) == (word_bit(a, t as int) != word_bit(b, t as int)),
{
    assert((((a ^ b) >> t) & 1u64 == 1u64) == ((((a >> t) & 1u64) == 1u64) != (((b >> t) & 1u64)
        == 1u64))) by (bit_vector);
}

} // verus!