//! Decoded bulk-read fields and the layouts that name their types.

use vstd::prelude::*;
use crate::errors::PoolSyncError;
use crate::pools::pool_fetchers::address_at;
use crate::primitives::{
    address_in, be_bytes_of, be_u64, lemma_address_ext, read_word, word_from_be, Address, U256,
};

verus! {

/// The decimals assumed for a token whose reported decimals do not fit a
/// byte.
pub const DEFAULT_DECIMALS: u8 = 18;

/// The fee assumed for a pool whose reported fee does not fit 32 bits.
pub const DEFAULT_FEE: u32 = 3000;

/// The type of one field of a bulk-read record.
#[derive(Debug, Clone, Copy, PartialEq, Eq, Structural)]
pub enum AbiType {
    /// A 20-byte address.
    Address,
    /// An unsigned number of the given width in bits.
    Uint(usize),
    /// A signed number of the given width in bits.
    Int(usize),
}

/// One decoded field of a bulk-read record.
#[derive(Debug, Clone, Copy, PartialEq, Eq)]
pub enum AbiValue {
    /// An address.
    Address(Address),
    /// An unsigned number and its declared width in bits.
    Uint(U256, usize),
    /// A signed number in two's complement and its declared width in bits.
    Int(U256, usize),
    /// A value of any other type.
    Other,
}

impl AbiValue {
    /// The address that the field holds; a field of another type is rejected.
    pub open spec fn spec_address(self) -> Result<Address, PoolSyncError> {
        match self {
            AbiValue::Address(a) => Ok(a),
            _ => Err(PoolSyncError::MalformedRecord),
        }
    }

    /// The unsigned number that the field holds; a field of another type is
    /// rejected.
    pub open spec fn spec_uint(self) -> Result<U256, PoolSyncError> {
        match self {
            AbiValue::Uint(u, _) => Ok(u),
            _ => Err(PoolSyncError::MalformedRecord),
        }
    }

    /// Token decimals: the number itself where it fits a byte, else the
    /// default.
    pub open spec fn spec_decimals(self) -> Result<u8, PoolSyncError> {
        match self {
            AbiValue::Uint(u, _) => Ok(
                if u.value() <= u8::MAX {
                    u.value() as u8
                } else {
                    DEFAULT_DECIMALS
                },
            ),
            _ => Err(PoolSyncError::MalformedRecord),
        }
    }

    /// A fee: the number itself where it fits 32 bits, else the default.
    pub open spec fn spec_fee(self) -> Result<u32, PoolSyncError> {
        match self {
            AbiValue::Uint(u, _) => Ok(
                if u.value() <= u32::MAX {
                    u.value() as u32
                } else {
                    DEFAULT_FEE
                },
            ),
            _ => Err(PoolSyncError::MalformedRecord),
        }
    }

    /// Aggregate liquidity: the number itself where it fits 128 bits, else
    /// zero.
    pub open spec fn spec_liquidity(self) -> Result<u128, PoolSyncError> {
        match self {
            AbiValue::Uint(u, _) => Ok(
                if u.value() <= u128::MAX {
                    u.value() as u128
                } else {
                    0
                },
            ),
            _ => Err(PoolSyncError::MalformedRecord),
        }
    }

    /// A tick-like field: the signed number itself where it fits 32 bits, and
    /// zero where it does not or where the field is of another type.
    pub open spec fn spec_tick(self) -> i32 {
        match self {
            AbiValue::Int(u, _) => if i32::MIN <= u.signed_value() <= i32::MAX {
                u.signed_value() as i32
            } else {
                0
            },
            _ => 0,
        }
    }

    /// Reads the field as an address.
    pub fn as_address(&self) -> (r: Result<Address, PoolSyncError>)
        ensures
            r == self.spec_address(),
    {
        match self {
            AbiValue::Address(a) => Ok(*a),
            _ => Err(PoolSyncError::MalformedRecord),
        }
    }

    /// Reads the field as an unsigned number.
    pub fn as_uint(&self) -> (r: Result<U256, PoolSyncError>)
        ensures
            r == self.spec_uint(),
    {
        match self {
            AbiValue::Uint(u, _) => Ok(*u),
            _ => Err(PoolSyncError::MalformedRecord),
        }
    }

    /// Reads the field as token decimals.
    pub fn as_decimals(&self) -> (r: Result<u8, PoolSyncError>)
        ensures
            r == self.spec_decimals(),
    {
        match self {
            AbiValue::Uint(u, _) => match u.to_u8() {
                Some(d) => Ok(d),
                None => Ok(DEFAULT_DECIMALS),
            },
            _ => Err(PoolSyncError::MalformedRecord),
        }
    }

    /// Reads the field as a fee.
    pub fn as_fee(&self) -> (r: Result<u32, PoolSyncError>)
        ensures
            r == self.spec_fee(),
    {
        match self {
            AbiValue::Uint(u, _) => match u.to_u32() {
                Some(f) => Ok(f),
                None => Ok(DEFAULT_FEE),
            },
            _ => Err(PoolSyncError::MalformedRecord),
        }
    }

    /// Reads the field as aggregate liquidity.
    pub fn as_liquidity(&self) -> (r: Result<u128, PoolSyncError>)
        ensures
            r == self.spec_liquidity(),
    {
        match self {
            AbiValue::Uint(u, _) => match u.to_u128() {
                Some(l) => Ok(l),
                None => Ok(0),
            },
            _ => Err(PoolSyncError::MalformedRecord),
        }
    }

    /// Reads the field as a tick or a tick spacing.
    pub fn as_tick(&self) -> (r: i32)
        ensures
            r == self.spec_tick(),
    {
        match self {
            AbiValue::Int(u, _) => match u.to_i32() {
                Some(t) => t,
                None => 0,
            },
            _ => 0,
        }
    }
}

/// The records of a bulk read as a sequence of field sequences.
pub open spec fn records_view(records: Seq<Vec<AbiValue>>) -> Seq<Seq<AbiValue>> {
    records.map_values(|record: Vec<AbiValue>| record@)
}

/// The field of the given type that a 32-byte word encodes: an address is
/// the word's last 20 bytes, a number the whole word.
pub open spec fn field_decoded(kind: AbiType, word: Seq<u8>) -> AbiValue {
    match kind {
        AbiType::Address => AbiValue::Address(address_in(word, 12)),
        AbiType::Uint(bits) => AbiValue::Uint(word_from_be(word), bits),
        AbiType::Int(bits) => AbiValue::Int(word_from_be(word), bits),
    }
}

/// The record whose fields are the consecutive words that start at `start`.
pub open spec fn record_at(layout: Seq<AbiType>, bytes: Seq<u8>, start: int) -> Seq<AbiValue> {
    Seq::new(
        layout.len(),
        |j: int| field_decoded(layout[j], bytes.subrange(start + 32 * j, start + 32 * j + 32)),
    )
}

/// The number of bytes that one record of a layout takes.
pub open spec fn record_size(layout: Seq<AbiType>) -> int {
    32 * (layout.len() as int)
}

/// The number of records that the answer of a bulk read announces: its
/// second word.
pub open spec fn record_count(bytes: Seq<u8>) -> int {
    word_from_be(bytes.subrange(32, 64)).value()
}

/// Whether the bytes have the shape of an encoded array of records: a first
/// word that holds 32, the offset of the array; a second word that holds the
/// number of records; and after it at least the words of that many records.
pub open spec fn records_well_formed(layout: Seq<AbiType>, bytes: Seq<u8>) -> bool {
    &&& layout.len() > 0
    &&& bytes.len() >= 64
    &&& word_from_be(bytes.subrange(0, 32)).value() == 32
    &&& 64 + record_count(bytes) * record_size(layout) <= bytes.len()
}

/// The records that the answer of a bulk read encodes, in order; bytes of
/// another shape are rejected.
pub open spec fn records_decoded(layout: Seq<AbiType>, bytes: Seq<u8>) -> Result<
    Seq<Seq<AbiValue>>,
    PoolSyncError,
> {
    if records_well_formed(layout, bytes) {
        Ok(
            Seq::new(
                record_count(bytes) as nat,
                |i: int| record_at(layout, bytes, 64 + i * record_size(layout)),
            ),
        )
    } else {
        Err(PoolSyncError::MalformedRecord)
    }
}

/// Decodes the field of the given type from the word at `offset`.
pub fn decode_field(kind: AbiType, bytes: &[u8], offset: usize) -> (value: AbiValue)
    requires
        offset + 32 <= bytes@.len(),
    ensures
        value == field_decoded(kind, bytes@.subrange(offset as int, offset + 32)),
{
    assert(bytes@.len() == bytes.len());
    let ghost word = bytes@.subrange(offset as int, offset + 32);
    match kind {
        AbiType::Address => match address_at(bytes, offset + 12) {
            Ok(a) => {
                proof {
                    assert(word.subrange(12, 32) =~= bytes@.subrange(offset + 12, offset + 32));
                    lemma_address_ext(address_in(word, 12), a);
                }
                AbiValue::Address(a)
            },
            Err(_) => AbiValue::Other,
        },
        AbiType::Uint(bits) => match read_word(bytes, offset) {
            Some(w) => AbiValue::Uint(w, bits),
            None => AbiValue::Other,
        },
        AbiType::Int(bits) => match read_word(bytes, offset) {
            Some(w) => AbiValue::Int(w, bits),
            None => AbiValue::Other,
        },
    }
}

/// Decodes the record whose words start at `start`.
pub fn decode_record(layout: &[AbiType], bytes: &[u8], start: usize) -> (record: Vec<AbiValue>)
    requires
        start + record_size(layout@) <= bytes@.len(),
    ensures
        record@ == record_at(layout@, bytes@, start as int),
{
    assert(bytes@.len() == bytes.len());
    let mut record: Vec<AbiValue> = Vec::new();
    let mut j: usize = 0;
    while j < layout.len()
        invariant
            j <= layout.len(),
            start + 32 * layout@.len() <= bytes@.len() <= usize::MAX,
            record@.len() == j,
            forall|k: int|
                0 <= k < j ==> #[trigger] record@[k] == field_decoded(
                    layout@[k],
                    bytes@.subrange(start + 32 * k, start + 32 * k + 32),
                ),
        decreases layout.len() - j,
    {
        let value: AbiValue = decode_field(layout[j], bytes, start + 32 * j);
        record.push(value);
        j += 1;
    }
    assert(record@ =~= record_at(layout@, bytes@, start as int));
    record
}

/// Decodes the answer of a bulk read into its records.
pub fn decode_records(layout: &[AbiType], bytes: &[u8]) -> (r: Result<
    Vec<Vec<AbiValue>>,
    PoolSyncError,
>)
    ensures
        match r {
            Ok(records) => records_decoded(layout@, bytes@) == Ok::<
                Seq<Seq<AbiValue>>,
                PoolSyncError,
            >(records_view(records@)),
            Err(e) => records_decoded(layout@, bytes@) == Err::<
                Seq<Seq<AbiValue>>,
                PoolSyncError,
            >(e),
        },
{
    assert(bytes@.len() == bytes.len());
    if layout.len() == 0 || bytes.len() < 64 {
        return Err(PoolSyncError::MalformedRecord);
    }
    let head: U256 = match read_word(bytes, 0) {
        Some(w) => w,
        None => {
            return Err(PoolSyncError::MalformedRecord);
        },
    };
    let announced: U256 = match read_word(bytes, 32) {
        Some(w) => w,
        None => {
            return Err(PoolSyncError::MalformedRecord);
        },
    };
    if head.w0 != 32 || head.w1 != 0 || head.w2 != 0 || head.w3 != 0 {
        return Err(PoolSyncError::MalformedRecord);
    }
    let mut records: Vec<Vec<AbiValue>> = Vec::new();
    let ghost size = record_size(layout@);
    let ghost count = record_count(bytes@);
    if announced.w0 == 0 && announced.w1 == 0 && announced.w2 == 0 && announced.w3 == 0 {
        assert(records_view(records@) =~= Seq::new(
            count as nat,
            |i: int| record_at(layout@, bytes@, 64 + i * size),
        ));
        return Ok(records);
    }
    if announced.w1 != 0 || announced.w2 != 0 || announced.w3 != 0 {
        proof {
            assert(count * size >= count) by (nonlinear_arith)
                requires
                    count >= 0,
                    size >= 1,
            ;
        }
        return Err(PoolSyncError::MalformedRecord);
    }
    let available: usize = bytes.len() - 64;
    let stride: usize = match layout.len().checked_mul(32) {
        Some(s) => s,
        None => {
            proof {
                assert(count * size >= size) by (nonlinear_arith)
                    requires
                        count >= 1,
                        size >= 0,
                ;
            }
            return Err(PoolSyncError::MalformedRecord);
        },
    };
    let room: usize = available / stride;
    proof {
        let a: int = available as int;
        let q: int = room as int;
        let m: int = a % size;
        vstd::arithmetic::div_mod::lemma_fundamental_div_mod(a, size);
        assert(count <= q <==> count * size <= a) by (nonlinear_arith)
            requires
                a == size * q + m,
                0 <= m < size,
                size > 0,
        ;
    }
    if announced.w0 > room as u64 {
        return Err(PoolSyncError::MalformedRecord);
    }
    let total: usize = announced.w0 as usize;
    let mut i: usize = 0;
    let mut start: usize = 64;
    while i < total
        invariant
            i <= total,
            total == count,
            size == record_size(layout@),
            size == stride,
            size > 0,
            count * size <= available,
            available == bytes@.len() - 64,
            bytes@.len() <= usize::MAX,
            start == 64 + i * size,
            records@.len() == i,
            forall|k: int|
                0 <= k < i ==> (#[trigger] records@[k])@ == record_at(
                    layout@,
                    bytes@,
                    64 + k * size,
                ),
        decreases total - i,
    {
        proof {
            assert((i + 1) * size == i * size + size) by (nonlinear_arith);
            assert((i + 1) * size <= count * size) by (nonlinear_arith)
                requires
                    i + 1 <= count,
                    size > 0,
            ;
        }
        let record: Vec<AbiValue> = decode_record(layout, bytes, start);
        records.push(record);
        start = start + stride;
        i += 1;
    }
    assert(records_view(records@) =~= Seq::new(
        count as nat,
        |i: int| record_at(layout@, bytes@, 64 + i * size),
    ));
    Ok(records)
}

/// The 32-byte word that encodes an address: twelve zero bytes, then the
/// address.
pub open spec fn address_word(a: Address) -> Seq<u8> {
    Seq::new(12, |k: int| 0u8) + a@
}

/// The record that holds one address and nothing else.
pub open spec fn address_record(a: Address) -> Seq<AbiValue> {
    seq![AbiValue::Address(a)]
}

/// The bytes that encode a list of addresses as the argument of a bulk
/// read: a word that holds 32, a word that holds the number of addresses,
/// and one word for each address.
pub open spec fn addresses_encoded(addresses: Seq<Address>, bytes: Seq<u8>) -> bool {
    &&& bytes.len() == 64 + 32 * addresses.len()
    &&& word_from_be(bytes.subrange(0, 32)) == U256 { w0: 32, w1: 0, w2: 0, w3: 0 }
    &&& word_from_be(bytes.subrange(32, 64)) == U256 {
        w0: addresses.len() as u64,
        w1: 0,
        w2: 0,
        w3: 0,
    }
    &&& forall|i: int|
        0 <= i < addresses.len() ==> #[trigger] bytes.subrange(64 + 32 * i, 64 + 32 * i + 32)
            == address_word(addresses[i])
}

/// An encoded list of addresses decodes, under the layout of one address,
/// to the records that hold those addresses in their order.
pub proof fn lemma_addresses_round_trip(addresses: Seq<Address>, bytes: Seq<u8>)
    requires
        addresses_encoded(addresses, bytes),
        addresses.len() <= u64::MAX,
    ensures
        records_decoded(seq![AbiType::Address], bytes) == Ok::<Seq<Seq<AbiValue>>, PoolSyncError>(
            Seq::new(addresses.len(), |i: int| address_record(addresses[i])),
        ),
{
    let layout = seq![AbiType::Address];
    assert(record_size(layout) == 32);
    assert(record_count(bytes) == addresses.len());
    assert(records_well_formed(layout, bytes));
    let decoded = records_decoded(layout, bytes)->Ok_0;
    assert forall|i: int| 0 <= i < addresses.len() implies #[trigger] decoded[i] == address_record(
        addresses[i],
    ) by {
        let word = bytes.subrange(64 + 32 * i, 64 + 32 * i + 32);
        assert(bytes.subrange(64 + i * 32 + 32 * 0, 64 + i * 32 + 32 * 0 + 32) == word);
        assert(word.subrange(12, 32) =~= addresses[i]@);
        lemma_address_ext(address_in(word, 12), addresses[i]);
        assert(record_at(layout, bytes, 64 + i * 32) =~= address_record(addresses[i]));
    }
    assert(decoded =~= Seq::new(addresses.len(), |i: int| address_record(addresses[i])));
}

/// The word that encodes a number of 64 bits.
pub fn number_word(n: u64) -> (r: Vec<u8>)
    ensures
        r@.len() == 32,
        word_from_be(r@) == (U256 { w0: n, w1: 0, w2: 0, w3: 0 }),
{
    let low: [u8; 8] = be_bytes_of(n);
    let mut r: Vec<u8> = Vec::new();
    let mut k: usize = 0;
    while k < 24
        invariant
            k <= 24,
            r@.len() == k,
            forall|j: int| 0 <= j < k ==> r@[j] == 0u8,
        decreases 24 - k,
    {
        r.push(0u8);
        k += 1;
    }
    let mut m: usize = 0;
    while m < 8
        invariant
            m <= 8,
            r@.len() == 24 + m,
            forall|j: int| 0 <= j < 24 ==> r@[j] == 0u8,
            forall|p: int| 24 <= p < 24 + m ==> r@[p] == low@[p - 24],
        decreases 8 - m,
    {
        r.push(low[m]);
        m += 1;
    }
    proof {
        assert(r@.subrange(24, 32) =~= low@);
        assert(be_u64(r@.subrange(0, 8)) == 0);
        assert(be_u64(r@.subrange(8, 16)) == 0);
        assert(be_u64(r@.subrange(16, 24)) == 0);
    }
    r
}

/// Encodes a list of addresses as the argument of a bulk read.
pub fn encode_addresses(addresses: &Vec<Address>) -> (r: Vec<u8>)
    ensures
        addresses_encoded(addresses@, r@),
{
    assert(addresses@.len() == addresses.len());
    let mut out: Vec<u8> = number_word(32);
    let mut count: Vec<u8> = number_word(addresses.len() as u64);
    let ghost head = out@;
    let ghost announced = count@;
    out.append(&mut count);
    proof {
        assert(out@.subrange(0, 32) =~= head);
        assert(out@.subrange(32, 64) =~= announced);
    }
    let mut i: usize = 0;
    while i < addresses.len()
        invariant
            i <= addresses.len(),
            out@.len() == 64 + 32 * i,
            out@.subrange(0, 32) == head,
            out@.subrange(32, 64) == announced,
            forall|k: int|
                0 <= k < i ==> #[trigger] out@.subrange(64 + 32 * k, 64 + 32 * k + 32)
                    == address_word(addresses@[k]),
        decreases addresses.len() - i,
    {
        let ghost before = out@;
        let a: Address = addresses[i];
        let mut k: usize = 0;
        while k < 12
            invariant
                k <= 12,
                out@.len() == before.len() + k,
                out@.subrange(0, before.len() as int) == before,
                forall|p: int| before.len() <= p < before.len() + k ==> out@[p] == 0u8,
            decreases 12 - k,
        {
            let ghost prior = out@;
            out.push(0u8);
            assert(out@.subrange(0, before.len() as int) =~= prior.subrange(
                0,
                before.len() as int,
            ));
            k += 1;
        }
        let mut m: usize = 0;
        while m < 20
            invariant
                m <= 20,
                out@.len() == before.len() + 12 + m,
                out@.subrange(0, before.len() as int) == before,
                forall|p: int| before.len() <= p < before.len() + 12 ==> out@[p] == 0u8,
                forall|p: int|
                    before.len() + 12 <= p < before.len() + 12 + m ==> out@[p] == a@[p
                        - before.len() - 12],
            decreases 20 - m,
        {
            let ghost prior = out@;
            out.push(a.bytes[m]);
            assert(out@.subrange(0, before.len() as int) =~= prior.subrange(
                0,
                before.len() as int,
            ));
            m += 1;
        }
        proof {
            assert(out@.subrange(0, 32) =~= before.subrange(0, 32));
            assert(out@.subrange(32, 64) =~= before.subrange(32, 64));
            assert forall|k: int| 0 <= k < i + 1 implies #[trigger] out@.subrange(
                64 + 32 * k,
                64 + 32 * k + 32,
            ) == address_word(addresses@[k]) by {
                if k < i {
                    assert(out@.subrange(64 + 32 * k, 64 + 32 * k + 32) =~= before.subrange(
                        64 + 32 * k,
                        64 + 32 * k + 32,
                    ));
                } else {
                    assert(out@.subrange(64 + 32 * k, 64 + 32 * k + 32) =~= address_word(
                        addresses@[k],
                    ));
                }
            }
        }
        i += 1;
    }
    out
}

} // verus!
