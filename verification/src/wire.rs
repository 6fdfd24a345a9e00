//! Protobuf wire primitives.
//!
//! The model is arithmetic: a varint is a little-endian base-128 number whose
//! digits carry a continuation flag (128) on all bytes but the last. The
//! executable primitives are those of `prost`; their contracts here are
//! trusted and stated over the model.

use vstd::prelude::*;

verus! {

/// Wire type number of a length-delimited field.
pub const WIRE_LENGTH_DELIMITED: u8 = 2;

/// Largest field number that a key can carry.
pub const MAX_TAG: u32 = 0x1FFF_FFFF;

/// The bytes of `v` as a varint.
pub open spec fn varint_bytes(v: nat) -> Seq<u8>
    decreases v,
{
    if v < 128 {
        seq![v as u8]
    } else {
        seq![(v % 128 + 128) as u8] + varint_bytes(v / 128)
    }
}

/// Reads a varint of at most `budget` bytes from the front of `s`: its value
/// and its length. The tenth byte may only hold the top bit of a `u64`.
pub open spec fn varint_parse_within(s: Seq<u8>, budget: nat) -> Option<(nat, nat)>
    decreases budget,
{
    if budget == 0 || s.len() == 0 {
        None
    } else if s[0] < 128 {
        if budget == 1 && s[0] >= 2 {
            None
        } else {
            Some((s[0] as nat, 1nat))
        }
    } else {
        match varint_parse_within(s.skip(1), (budget - 1) as nat) {
            Some((v, n)) => Some((((s[0] - 128) + 128 * v) as nat, n + 1)),
            None => None,
        }
    }
}

/// Reads a varint from the front of `s`: its value and its length.
pub open spec fn varint_parse(s: Seq<u8>) -> Option<(nat, nat)> {
    varint_parse_within(s, 10)
}

/// The key of a field: its number and wire type in one varint.
pub open spec fn key_value(tag: u32, wire: u8) -> nat {
    (tag * 8 + wire) as nat
}

/// Reads a field key from the front of `s`: field number, wire type number
/// and length. The key must fit 32 bits, the wire type must exist and the
/// field number must not be 0.
pub open spec fn key_parse(s: Seq<u8>) -> Option<(u32, u8, nat)> {
    match varint_parse(s) {
        Some((k, n)) => if k <= u32::MAX && k % 8 <= 5 && k / 8 >= 1 {
            Some(((k / 8) as u32, (k % 8) as u8, n))
        } else {
            None
        },
        None => None,
    }
}

/// Reads the body of a bytes field from the front of `s`: a varint length,
/// then that many bytes. Gives the payload and the length of the whole body.
pub open spec fn bytes_body_parse(wire: u8, s: Seq<u8>) -> Option<(Seq<u8>, nat)> {
    if wire != WIRE_LENGTH_DELIMITED {
        None
    } else {
        match varint_parse(s) {
            Some((len, n)) => if n + len <= s.len() {
                Some((s.subrange(n as int, (n + len) as int), n + len))
            } else {
                None
            },
            None => None,
        }
    }
}

/// The bytes of a bytes field with number `tag` and payload `data`.
pub open spec fn bytes_field(tag: u32, data: Seq<u8>) -> Seq<u8> {
    varint_bytes(key_value(tag, WIRE_LENGTH_DELIMITED)) + varint_bytes(data.len()) + data
}

/// 128 to the power `n`.
pub open spec fn pow128(n: nat) -> nat
    decreases n,
{
    if n == 0 {
        1
    } else {
        128 * pow128((n - 1) as nat)
    }
}

/// A varint that parses takes at least one byte, no more than the budget and
/// no more than there are.
pub proof fn lemma_varint_parse_length(s: Seq<u8>, budget: nat)
    ensures
        varint_parse_within(s, budget) matches Some((v, n)) ==> 1 <= n <= s.len() && n <= budget,
    decreases budget,
{
    if budget > 0 && s.len() > 0 && s[0] >= 128 {
        lemma_varint_parse_length(s.skip(1), (budget - 1) as nat);
    }
}

/// A varint that parses within a budget holds a value below twice 128 to the
/// power of the budget less one: within ten bytes, a value that fits 64 bits.
pub proof fn lemma_varint_parse_bound(s: Seq<u8>, budget: nat)
    requires
        budget >= 1,
    ensures
        varint_parse_within(s, budget) matches Some((v, n)) ==> v < 2 * pow128((budget - 1) as nat),
    decreases budget,
{
    if s.len() > 0 && s[0] >= 128 {
        if budget >= 2 {
            lemma_varint_parse_bound(s.skip(1), (budget - 1) as nat);
        }
    } else if s.len() > 0 && budget > 1 {
        lemma_pow128_positive((budget - 2) as nat);
    }
}

/// Powers of 128 are positive.
pub proof fn lemma_pow128_positive(n: nat)
    ensures
        pow128(n) >= 1,
    decreases n,
{
    if n > 0 {
        lemma_pow128_positive((n - 1) as nat);
    }
}

/// Twice the ninth power of 128 is the number of `u64` values.
pub proof fn lemma_pow128_nine()
    ensures
        2 * pow128(9) == 0x1_0000_0000_0000_0000,
{
    reveal_with_fuel(pow128, 10);
}

/// The bytes of a varint are at least one.
pub proof fn lemma_varint_bytes_nonempty(v: nat)
    ensures
        varint_bytes(v).len() >= 1,
    decreases v,
{
    if v >= 128 {
        lemma_varint_bytes_nonempty(v / 128);
    }
}

/// The bytes of a value below twice the power of the budget less one parse
/// back to that value, whatever follows them.
pub proof fn lemma_varint_round_trip_within(v: nat, rest: Seq<u8>, budget: nat)
    requires
        budget >= 1,
        v < 2 * pow128((budget - 1) as nat),
    ensures
        varint_parse_within(varint_bytes(v) + rest, budget) == Some((v, varint_bytes(v).len())),
    decreases budget,
{
    let s = varint_bytes(v) + rest;
    if v < 128 {
        assert(s[0] == v as u8);
    } else {
        let tail = varint_bytes(v / 128);
        assert(budget >= 2);
        assert(s[0] == (v % 128 + 128) as u8);
        assert(s.skip(1) =~= tail + rest);
        lemma_varint_round_trip_within(v / 128, rest, (budget - 1) as nat);
    }
}

/// The varint of any `u64` parses back to it, whatever follows.
pub proof fn lemma_varint_round_trip(v: u64, rest: Seq<u8>)
    ensures
        varint_parse(varint_bytes(v as nat) + rest) == Some(
            (v as nat, varint_bytes(v as nat).len()),
        ),
{
    lemma_pow128_nine();
    lemma_varint_round_trip_within(v as nat, rest, 10);
}

/// What `prost::encoding::skip_field` leaves of `input` when it skips the body
/// of a field with the given wire type number and field number: the count of
/// bytes that remain, or `None` where it reports an error.
pub uninterp spec fn skip_field_rest(wire: u8, tag: u32, input: Seq<u8>) -> Option<nat>;

/// `prost::encoding::bytes::encode` on a `Vec<u8>` buffer. Trusted: it appends
/// the key varint of `(tag, length-delimited)`, the varint of the payload's
/// length and the payload, and leaves what the buffer held in front.
#[verifier::external_body]
pub(crate) fn put_bytes_field(tag: u32, value: &Vec<u8>, buf: &mut Vec<u8>)
    requires
        1 <= tag <= MAX_TAG,
    ensures
        final(buf)@ == old(buf)@ + bytes_field(tag, value@),
{
    prost::encoding::bytes::encode(tag, value, buf);
}

/// `prost::encoding::decode_key` on a byte slice. Trusted: it reads one varint
/// and splits it as `key_parse` says; on success it gives the field number,
/// the wire type's number and the count of bytes left behind the key; it
/// fails, and `None` comes back, exactly where `key_parse` gives nothing.
#[verifier::external_body]
pub(crate) fn read_key(input: &[u8]) -> (r: Option<(u32, u8, usize)>)
    ensures
        match key_parse(input@) {
            Some((tag, wire, n)) => r == Some((tag, wire, (input@.len() - n) as usize)),
            None => r is None,
        },
{
    let mut rest = input;
    let (tag, wire_type) = prost::encoding::decode_key(&mut rest).ok()?;
    Some((tag, wire_type as u8, rest.len()))
}

/// `prost::encoding::bytes::merge` into a fresh `Vec<u8>`. Trusted: it accepts
/// only the length-delimited wire type, reads a varint length and copies that
/// many bytes; on success it gives the payload and the count of bytes left
/// behind it; it fails, and `None` comes back, exactly where
/// `bytes_body_parse` gives nothing.
#[verifier::external_body]
pub(crate) fn read_bytes_body(wire: u8, input: &[u8]) -> (r: Option<(Vec<u8>, usize)>)
    ensures
        match bytes_body_parse(wire, input@) {
            Some((data, n)) => r matches Some((v, left)) && v@ == data && left == input@.len() - n,
            None => r is None,
        },
{
    let mut rest = input;
    let mut value: Vec<u8> = Vec::new();
    let wire_type = prost::encoding::WireType::try_from(u64::from(wire)).ok()?;
    let ctx = prost::encoding::DecodeContext::default();
    prost::encoding::bytes::merge(wire_type, &mut value, &mut rest, ctx).ok()?;
    Some((value, rest.len()))
}

/// `prost::encoding::skip_field` on a byte slice, with a fresh decode
/// context. Trusted: its outcome is a function of the three arguments, named
/// `skip_field_rest`, with `None` for its error; it only ever consumes bytes,
/// so no more are left than came in.
#[verifier::external_body]
pub(crate) fn skip_field_body(wire: u8, tag: u32, input: &[u8]) -> (r: Option<usize>)
    ensures
        match skip_field_rest(wire, tag, input@) {
            Some(left) => r matches Some(l) && l == left,
            None => r is None,
        },
        r matches Some(l) ==> l <= input@.len(),
{
    let mut rest = input;
    let wire_type = prost::encoding::WireType::try_from(u64::from(wire)).ok()?;
    let ctx = prost::encoding::DecodeContext::default();
    prost::encoding::skip_field(wire_type, tag, &mut rest, ctx).ok()?;
    Some(rest.len())
}

} // verus!
