//! The ping record, its fixed 24-byte layout, and the envelope that frames
//! it on the wire.
use crate::bytes::{
    be_bytes, be_value, leb128, lemma_be_bytes_len, lemma_be_value_bound, lemma_be_value_of_bytes,
    lemma_radix_pow_values, radix_pow,
};
use mc_varint::{VarInt, VarIntWrite};
use vstd::prelude::*;

verus! {

/// Sentinel byte that opens every envelope.
pub const MAGIC_BYTE: u8 = 0xFF;

/// UUID `58bc9ae9-c7a8-45e4-a11c-efbb67199425`, naming protocol version `CHECK_V1`.
pub const PROTOCOL_ID: u128 = 0x58bc9ae9_c7a8_45e4_a11c_efbb67199425;

/// Byte length of an encoded ping record: a 16-byte identifier and an
/// 8-byte timestamp.
pub const RECORD_LEN: usize = 24;

/// Byte length of a framed ping record.
pub const FRAME_LEN: usize = 42;

/// One ping: a 128-bit identifier and a timestamp in milliseconds since the
/// Unix epoch.
#[derive(Clone, Copy, Debug, PartialEq, Eq, Structural)]
pub struct PingRecord {
    pub id: u128,
    pub timestamp: i64,
}

#[derive(Clone, Copy, Debug, PartialEq, Eq, Structural)]
pub enum DecodeError {
    /// Fewer bytes than the layout needs.
    Truncated,
    /// The magic byte, protocol id or payload length is not this protocol's.
    BadEnvelope,
}

/// The encoding of a record: identifier then timestamp, both big-endian.
pub open spec fn record_bytes(r: PingRecord) -> Seq<u8> {
    be_bytes(r.id as nat, 16) + be_bytes(r.timestamp as u64 as nat, 8)
}

/// The record that a byte string starts with.
pub open spec fn record_of(s: Seq<u8>) -> Result<PingRecord, DecodeError> {
    if s.len() < RECORD_LEN {
        Err(DecodeError::Truncated)
    } else {
        Ok(
            PingRecord {
                id: be_value(s.subrange(0, 16)) as u128,
                timestamp: be_value(s.subrange(16, 24)) as u64 as i64,
            },
        )
    }
}

/// Magic byte, protocol id, and the LEB128 length of the record.
pub open spec fn envelope_header() -> Seq<u8> {
    seq![MAGIC_BYTE] + be_bytes(PROTOCOL_ID as nat, 16) + leb128(RECORD_LEN as nat)
}

pub open spec fn framed(r: PingRecord) -> Seq<u8> {
    envelope_header() + record_bytes(r)
}

/// What a received datagram decodes to: the envelope is checked, then the
/// record after it is read; bytes past the record are ignored.
pub open spec fn unframed(s: Seq<u8>) -> Result<PingRecord, DecodeError> {
    if s.len() < 18 {
        Err(DecodeError::Truncated)
    } else if s.subrange(0, 18) != envelope_header() {
        Err(DecodeError::BadEnvelope)
    } else {
        record_of(s.subrange(18, s.len() as int))
    }
}

/// Relies on uuid::Uuid::from_u128: the UUID's sixteen octets are `v`'s
/// bytes, most significant first.
#[verifier::external_body]
fn uuid_octets(v: u128) -> (r: Vec<u8>)
    ensures
        r@ == be_bytes(v as nat, 16),
{
    uuid::Uuid::from_u128(v).as_bytes().to_vec()
}

/// Relies on uuid::Uuid::from_slice and Uuid::as_u128: sixteen octets read
/// back as a number, most significant first.
#[verifier::external_body]
fn uuid_value(b: &[u8]) -> (r: u128)
    requires
        b@.len() == 16,
    ensures
        r as nat == be_value(b@),
{
    match uuid::Uuid::from_slice(b) {
        Ok(u) => u.as_u128(),
        Err(_) => 0,
    }
}

/// Relies on uuid::Uuid::new_v4: a random identifier.
#[verifier::external_body]
fn random_id() -> (r: u128) {
    uuid::Uuid::new_v4().as_u128()
}

/// Relies on mc_varint's VarInt::from and write_var_int: a non-negative
/// value is written in LEB128. Writing into a `Vec` does not fail.
#[verifier::external_body]
fn varint_bytes(v: i32) -> (r: Vec<u8>)
    ensures
        v >= 0 ==> r@ == leb128(v as nat),
{
    let mut out: Vec<u8> = Vec::new();
    match out.write_var_int(VarInt::from(v)) {
        Ok(()) => out,
        Err(_) => Vec::new(),
    }
}

proof fn lemma_radix_pow_mono(i: nat, j: nat)
    requires
        i <= j,
    ensures
        radix_pow(i) <= radix_pow(j),
    decreases j,
{
    if i < j {
        lemma_radix_pow_mono(i, (j - 1) as nat);
    }
}

/// Appends the `k` low-order bytes of `n`, most significant first.
fn push_be(out: &mut Vec<u8>, n: u64, k: usize)
    ensures
        final(out)@ == old(out)@ + be_bytes(n as nat, k as nat),
    decreases k,
{
    if k > 0 {
        push_be(out, n / 256, k - 1);
        out.push((n % 256) as u8);
        proof {
            assert(out@ =~= old(out)@ + be_bytes(n as nat, k as nat));
        }
    }
}

/// Reads eight bytes at `start` as a big-endian number.
fn read_be_u64(data: &[u8], start: usize) -> (r: u64)
    requires
        start + 8 <= data@.len(),
    ensures
        r as nat == be_value(data@.subrange(start as int, start + 8)),
{
    let len = data.len();
    let mut acc: u64 = 0;
    let mut i: usize = 0;
    while i < 8
        invariant
            i <= 8,
            start + 8 <= data@.len(),
            len == data@.len(),
            acc as nat == be_value(data@.subrange(start as int, start + i)),
        decreases 8 - i,
    {
        let ghost prev = data@.subrange(start as int, start + i);
        proof {
            lemma_be_value_bound(prev);
            lemma_radix_pow_mono((i + 1) as nat, 8);
            lemma_radix_pow_values();
            assert(radix_pow((i + 1) as nat) == 256 * radix_pow(i as nat));
            let p = radix_pow(i as nat);
            let a = acc as nat;
            let b = data@[start + i] as nat;
            assert(a * 256 + b < 256 * p) by (nonlinear_arith)
                requires
                    a < p,
                    b < 256,
            ;
        }
        acc = acc * 256 + data[start + i] as u64;
        i = i + 1;
        assert(data@.subrange(start as int, start + i).drop_last() =~= prev);
    }
    acc
}

/// The LEB128 length byte of this protocol's fixed-size record.
proof fn lemma_record_len_varint()
    ensures
        leb128(RECORD_LEN as nat) == seq![24u8],
{
    reveal_with_fuel(leb128, 2);
}

fn envelope_header_bytes() -> (r: Vec<u8>)
    ensures
        r@ == envelope_header(),
        r@.len() == 18,
{
    let mut out: Vec<u8> = Vec::new();
    out.push(MAGIC_BYTE);
    let mut id = uuid_octets(PROTOCOL_ID);
    out.append(&mut id);
    let mut len = varint_bytes(RECORD_LEN as i32);
    out.append(&mut len);
    proof {
        lemma_record_len_varint();
        lemma_be_bytes_len(PROTOCOL_ID as nat, 16);
        assert(out@ =~= envelope_header());
    }
    out
}

impl PingRecord {
    pub fn new(id: u128, timestamp: i64) -> (r: PingRecord)
        ensures
            r.id == id,
            r.timestamp == timestamp,
    {
        PingRecord { id, timestamp }
    }

    /// A record with a fresh random identifier and the given timestamp.
    pub fn fresh(timestamp: i64) -> (r: PingRecord)
        ensures
            r.timestamp == timestamp,
    {
        PingRecord { id: random_id(), timestamp }
    }

    /// Encodes the record into its 24 bytes.
    pub fn to_bytes(&self) -> (r: Vec<u8>)
        ensures
            r@ == record_bytes(*self),
            r@.len() == RECORD_LEN,
    {
        let mut out = uuid_octets(self.id);
        push_be(&mut out, self.timestamp as u64, 8);
        proof {
            lemma_be_bytes_len(self.id as nat, 16);
            lemma_be_bytes_len(self.timestamp as u64 as nat, 8);
        }
        out
    }

    /// Decodes a record from the first 24 bytes of `data`.
    pub fn from_bytes(data: &[u8]) -> (r: Result<PingRecord, DecodeError>)
        ensures
            r == record_of(data@),
    {
        if data.len() < RECORD_LEN {
            return Err(DecodeError::Truncated);
        }
        let id = uuid_value(vstd::slice::slice_subrange(data, 0, 16));
        let stamp = read_be_u64(data, 16);
        Ok(PingRecord { id, timestamp: stamp as i64 })
    }

    /// The record inside its envelope: magic byte, protocol id, payload
    /// length, payload.
    pub fn frame(&self) -> (r: Vec<u8>)
        ensures
            r@ == framed(*self),
            r@.len() == FRAME_LEN,
    {
        let mut out = envelope_header_bytes();
        let mut payload = self.to_bytes();
        out.append(&mut payload);
        out
    }

    /// Reads a framed record back from a received datagram.
    pub fn unframe(data: &[u8]) -> (r: Result<PingRecord, DecodeError>)
        ensures
            r == unframed(data@),
    {
        if data.len() < 18 {
            return Err(DecodeError::Truncated);
        }
        let header = envelope_header_bytes();
        let mut i: usize = 0;
        while i < 18
            invariant
                i <= 18,
                data@.len() >= 18,
                header@ == envelope_header(),
                header@.len() == 18,
                forall|j: int| 0 <= j < i ==> data@[j] == header@[j],
            decreases 18 - i,
        {
            if data[i] != header[i] {
                assert(data@.subrange(0, 18)[i as int] != envelope_header()[i as int]);
                return Err(DecodeError::BadEnvelope);
            }
            i = i + 1;
        }
        assert(data@.subrange(0, 18) =~= envelope_header());
        let rest = vstd::slice::slice_subrange(data, 18, data.len());
        PingRecord::from_bytes(rest)
    }
}

/// Decoding an encoded record gives the record back.
pub proof fn lemma_round_trip(r: PingRecord)
    ensures
        record_of(record_bytes(r)) == Ok::<PingRecord, DecodeError>(r),
{
    let s = record_bytes(r);
    let u = r.timestamp as u64;
    lemma_be_bytes_len(r.id as nat, 16);
    lemma_be_bytes_len(u as nat, 8);
    assert(s.subrange(0, 16) =~= be_bytes(r.id as nat, 16));
    assert(s.subrange(16, 24) =~= be_bytes(u as nat, 8));
    lemma_be_value_of_bytes(r.id as nat, 16);
    lemma_be_value_of_bytes(u as nat, 8);
    lemma_radix_pow_values();
    assert(be_value(s.subrange(16, 24)) == u as nat);
    let t = r.timestamp;
    assert((u as i64) == t) by (bit_vector)
        requires
            u == t as u64,
    ;
}

/// Unframing a framed record gives the record back.
pub proof fn lemma_frame_round_trip(r: PingRecord)
    ensures
        unframed(framed(r)) == Ok::<PingRecord, DecodeError>(r),
{
    let s = framed(r);
    lemma_frame_len(r);
    assert(s.subrange(0, 18) =~= envelope_header());
    assert(s.subrange(18, s.len() as int) =~= record_bytes(r));
    lemma_round_trip(r);
}

/// Every framed record is 42 bytes long.
pub proof fn lemma_frame_len(r: PingRecord)
    ensures
        framed(r).len() == FRAME_LEN,
        envelope_header().len() == 18,
{
    lemma_record_len_varint();
    lemma_be_bytes_len(PROTOCOL_ID as nat, 16);
    lemma_be_bytes_len(r.id as nat, 16);
    lemma_be_bytes_len(r.timestamp as u64 as nat, 8);
}

} // verus!
