//! Codec for the consensus messages.
//!
//! A `Value` travels as a protobuf message with one optional bytes field,
//! number 1. Fields with other numbers are skipped; where field 1 occurs more
//! than once the last occurrence counts; where it does not occur the payload
//! is empty.

use crate::wire::{
    bytes_body_parse, bytes_field, key_parse, lemma_varint_bytes_nonempty,
    lemma_varint_parse_length, lemma_varint_round_trip, put_bytes_field, read_bytes_body,
    read_key, skip_field_body, skip_field_rest, varint_bytes,
};
use vstd::array::ArrayAdditionalExecFns;
use vstd::prelude::*;
use vstd::slice::slice_subrange;

verus! {

/// Why bytes could not be decoded.
#[derive(Clone, Copy, Debug, PartialEq, Eq)]
pub enum DecodeError {
    /// The bytes do not parse as the message's wire format.
    Malformed,
    /// A field of fixed size has another length.
    InvalidLength,
    /// An enumeration holds a number that stands for no variant.
    UnknownVariant,
}

/// The kinds of message that the consensus engine sends and receives.
#[derive(Clone, Copy, Debug, PartialEq, Eq)]
pub enum MessageKind {
    Value,
    ProposalPart,
    SignedConsensusMsg,
    ProposedValue,
    LivenessMsg,
    StreamMessage,
    SyncStatus,
    SyncRequest,
    SyncResponse,
}

/// Why a message could not be encoded or decoded.
#[derive(Clone, Copy, Debug, PartialEq, Eq)]
pub enum CodecError {
    /// The bytes were refused.
    Decode(DecodeError),
    /// The codec of this kind of message does not exist yet.
    Unimplemented(MessageKind),
}

/// The content that consensus decides on: an opaque byte payload.
#[derive(Clone, Debug, PartialEq, Eq)]
pub struct Value {
    pub data: Vec<u8>,
}

impl View for Value {
    type V = Seq<u8>;

    open spec fn view(&self) -> Seq<u8> {
        self.data@
    }
}

/// Number of the payload field of a `Value` message.
pub const VALUE_FIELD: u32 = 1;

/// The payload that a decoder holds, as a sequence.
pub open spec fn payload_view(field: Option<Vec<u8>>) -> Option<Seq<u8>> {
    match field {
        Some(v) => Some(v@),
        None => None,
    }
}

/// Reads one field from the front of `s`, which is not empty: the count of
/// bytes that the field takes and the payload held after it, given the one
/// held before. Field 1 replaces the payload; any other field is skipped.
pub open spec fn value_field_parse(s: Seq<u8>, held: Option<Seq<u8>>) -> Option<
    (nat, Option<Seq<u8>>),
> {
    match key_parse(s) {
        None => None,
        Some((tag, wire, n)) => {
            let body = s.skip(n as int);
            if tag == VALUE_FIELD {
                match bytes_body_parse(wire, body) {
                    Some((data, m)) => Some((n + m, Some(data))),
                    None => None,
                }
            } else {
                match skip_field_rest(wire, tag, body) {
                    Some(left) => if left <= body.len() {
                        Some(((s.len() - left) as nat, held))
                    } else {
                        None
                    },
                    None => None,
                }
            }
        },
    }
}

/// Reads fields from `s` until it is used up: the payload field as it stands
/// at the end, given the one held at the start; `None` where a field does not
/// parse.
pub open spec fn value_fields_parse(s: Seq<u8>, held: Option<Seq<u8>>) -> Option<Option<Seq<u8>>>
    decreases s.len(),
{
    if s.len() == 0 {
        Some(held)
    } else {
        match value_field_parse(s, held) {
            Some((n, next)) => if 1 <= n <= s.len() {
                value_fields_parse(s.skip(n as int), next)
            } else {
                None
            },
            None => None,
        }
    }
}

/// The payload of a `Value` message: that of its last field 1, or nothing
/// where there is none; `None` where the bytes do not parse.
pub open spec fn value_parse(s: Seq<u8>) -> Option<Seq<u8>> {
    match value_fields_parse(s, None) {
        Some(Some(data)) => Some(data),
        Some(None) => Some(Seq::empty()),
        None => None,
    }
}

/// The bytes of a `Value` message with the given payload.
pub open spec fn value_bytes(data: Seq<u8>) -> Seq<u8> {
    bytes_field(VALUE_FIELD, data)
}

/// A field that parses takes at least one byte and no more than there are.
pub proof fn lemma_value_field_length(s: Seq<u8>, held: Option<Seq<u8>>)
    ensures
        value_field_parse(s, held) matches Some((n, next)) ==> 1 <= n <= s.len(),
{
    lemma_varint_parse_length(s, 10);
    if let Some((tag, wire, n)) = key_parse(s) {
        lemma_varint_parse_length(s.skip(n as int), 10);
    }
}

/// Where reading goes on after a field was skipped, given how many of the
/// `total` bytes the skip has left unread. A skip that failed, or that claims
/// to leave more than there is, makes the message malformed.
pub fn offset_after_skip(total: usize, left: Option<usize>) -> (r: Result<usize, DecodeError>)
    ensures
        match left {
            Some(l) => if l <= total {
                r == Ok::<usize, DecodeError>((total - l) as usize)
            } else {
                r == Err::<usize, DecodeError>(DecodeError::Malformed)
            },
            None => r == Err::<usize, DecodeError>(DecodeError::Malformed),
        },
{
    match left {
        Some(l) => if l <= total {
            Ok(total - l)
        } else {
            Err(DecodeError::Malformed)
        },
        None => Err(DecodeError::Malformed),
    }
}

/// Reads the fields of a `Value` message: the payload field as it stands at
/// the end, `Malformed` where the bytes do not parse.
pub fn decode_value_fields(bytes: &[u8]) -> (r: Result<Option<Vec<u8>>, DecodeError>)
    ensures
        match value_fields_parse(bytes@, None) {
            Some(field) => r matches Ok(got) && payload_view(got) == field,
            None => r == Err::<Option<Vec<u8>>, DecodeError>(DecodeError::Malformed),
        },
{
    let total = bytes.len();
    let mut pos: usize = 0;
    let mut field: Option<Vec<u8>> = None;
    proof {
        assert(bytes@.skip(0) =~= bytes@);
    }
    while pos < total
        invariant
            total == bytes@.len(),
            pos <= total,
            value_fields_parse(bytes@, None) == value_fields_parse(
                bytes@.skip(pos as int),
                payload_view(field),
            ),
        decreases total - pos,
    {
        let rest = slice_subrange(bytes, pos, total);
        proof {
            assert(rest@ =~= bytes@.skip(pos as int));
            lemma_value_field_length(rest@, payload_view(field));
            lemma_varint_parse_length(rest@, 10);
        }
        match read_key(rest) {
            None => {
                return Err(DecodeError::Malformed);
            },
            Some((tag, wire, left)) => {
                let body = slice_subrange(rest, rest.len() - left, rest.len());
                let ghost n = (rest@.len() - left) as nat;
                proof {
                    assert(body@ =~= rest@.skip(n as int));
                    lemma_varint_parse_length(body@, 10);
                }
                if tag == VALUE_FIELD {
                    match read_bytes_body(wire, body) {
                        None => {
                            return Err(DecodeError::Malformed);
                        },
                        Some((data, left_after)) => {
                            proof {
                                let m = (body@.len() - left_after) as nat;
                                assert(rest@.skip((n + m) as int) =~= bytes@.skip(
                                    (total - left_after) as int,
                                ));
                            }
                            field = Some(data);
                            pos = total - left_after;
                        },
                    }
                } else {
                    let skipped = skip_field_body(wire, tag, body);
                    match offset_after_skip(total, skipped) {
                        Err(e) => {
                            return Err(e);
                        },
                        Ok(next) => {
                            proof {
                                assert(rest@.skip((rest@.len() - (total - next)) as int)
                                    =~= bytes@.skip(next as int));
                            }
                            pos = next;
                        },
                    }
                }
            },
        }
    }
    proof {
        assert(bytes@.skip(pos as int).len() == 0);
    }
    Ok(field)
}

/// A `Value` message always parses back to its payload.
pub proof fn lemma_value_bytes_parse(data: Seq<u8>)
    requires
        data.len() <= u64::MAX,
    ensures
        value_parse(value_bytes(data)) == Some(data),
{
    let len_bytes = varint_bytes(data.len());
    let body = len_bytes + data;
    let s = value_bytes(data);
    assert(varint_bytes(10) =~= seq![10u8]);
    assert(s =~= varint_bytes(10) + body);
    lemma_varint_round_trip(10u64, body);
    assert(key_parse(s) == Some((1u32, 2u8, 1nat)));
    assert(s.skip(1) =~= body);
    lemma_varint_round_trip(data.len() as u64, data);
    let n = len_bytes.len();
    assert(body.subrange(n as int, (n + data.len()) as int) =~= data);
    let total = (1 + n + data.len()) as nat;
    assert(total == s.len());
    assert(value_field_parse(s, None) == Some((total, Some(data))));
    lemma_varint_bytes_nonempty(data.len());
    assert(s.skip(total as int).len() == 0);
    assert(value_fields_parse(s.skip(total as int), Some(data)) == Some(Some(data)));
    assert(value_fields_parse(s, None) == Some(Some(data)));
}

/// A consensus message. Only a `Value` carries its content here: the other
/// kinds have no codec yet and stand for themselves.
#[derive(Clone, Debug, PartialEq, Eq)]
pub enum Message {
    Value(Value),
    ProposalPart,
    SignedConsensusMsg,
    ProposedValue,
    LivenessMsg,
    StreamMessage,
    SyncStatus,
    SyncRequest,
    SyncResponse,
}

impl Message {
    /// The kind of this message.
    pub open spec fn kind_spec(&self) -> MessageKind {
        match *self {
            Message::Value(_) => MessageKind::Value,
            Message::ProposalPart => MessageKind::ProposalPart,
            Message::SignedConsensusMsg => MessageKind::SignedConsensusMsg,
            Message::ProposedValue => MessageKind::ProposedValue,
            Message::LivenessMsg => MessageKind::LivenessMsg,
            Message::StreamMessage => MessageKind::StreamMessage,
            Message::SyncStatus => MessageKind::SyncStatus,
            Message::SyncRequest => MessageKind::SyncRequest,
            Message::SyncResponse => MessageKind::SyncResponse,
        }
    }

    /// The kind of this message.
    pub fn kind(&self) -> (r: MessageKind)
        ensures
            r == self.kind_spec(),
    {
        match self {
            Message::Value(_) => MessageKind::Value,
            Message::ProposalPart => MessageKind::ProposalPart,
            Message::SignedConsensusMsg => MessageKind::SignedConsensusMsg,
            Message::ProposedValue => MessageKind::ProposedValue,
            Message::LivenessMsg => MessageKind::LivenessMsg,
            Message::StreamMessage => MessageKind::StreamMessage,
            Message::SyncStatus => MessageKind::SyncStatus,
            Message::SyncRequest => MessageKind::SyncRequest,
            Message::SyncResponse => MessageKind::SyncResponse,
        }
    }
}

/// What `decode` owes for a kind and bytes: the payload of a `Value`, or the
/// error. `Ok` holds the payload.
pub open spec fn decode_outcome(kind: MessageKind, bytes: Seq<u8>) -> Result<Seq<u8>, CodecError> {
    match kind {
        MessageKind::Value => match value_parse(bytes) {
            Some(data) => Ok(data),
            None => Err(CodecError::Decode(DecodeError::Malformed)),
        },
        _ => Err(CodecError::Unimplemented(kind)),
    }
}

/// What `encode` owes for a message: its bytes, or the error.
pub open spec fn encode_outcome(msg: Message) -> Result<Seq<u8>, CodecError> {
    match msg {
        Message::Value(v) => Ok(value_bytes(v@)),
        _ => Err(CodecError::Unimplemented(msg.kind_spec())),
    }
}

/// Decodes a `Value` message.
pub fn decode_value(bytes: &[u8]) -> (r: Result<Value, DecodeError>)
    ensures
        match value_parse(bytes@) {
            Some(data) => r matches Ok(v) && v@ == data,
            None => r == Err::<Value, DecodeError>(DecodeError::Malformed),
        },
{
    match decode_value_fields(bytes) {
        Ok(Some(data)) => Ok(Value { data }),
        Ok(None) => Ok(Value { data: Vec::new() }),
        Err(e) => Err(e),
    }
}

/// Encodes a `Value` message.
pub fn encode_value(msg: &Value) -> (r: Vec<u8>)
    ensures
        r@ == value_bytes(msg@),
{
    let mut buf: Vec<u8> = Vec::new();
    put_bytes_field(VALUE_FIELD, &msg.data, &mut buf);
    proof {
        assert(Seq::<u8>::empty() + value_bytes(msg@) =~= value_bytes(msg@));
    }
    buf
}

/// Protobuf codec for the consensus messages.
#[derive(Copy, Clone, Debug)]
pub struct ProtoCodec;

impl ProtoCodec {
    /// Decodes a message of the given kind. A `Value` comes back where the
    /// bytes parse, `Malformed` where they do not; every other kind gives
    /// `Unimplemented` with that kind, whatever the bytes.
    pub fn decode(&self, kind: MessageKind, bytes: &[u8]) -> (r: Result<Message, CodecError>)
        ensures
            match decode_outcome(kind, bytes@) {
                Ok(data) => r matches Ok(Message::Value(v)) && v@ == data,
                Err(e) => r matches Err(got) && got == e,
            },
    {
        match kind {
            MessageKind::Value => match decode_value(bytes) {
                Ok(v) => Ok(Message::Value(v)),
                Err(e) => Err(CodecError::Decode(e)),
            },
            _ => Err(CodecError::Unimplemented(kind)),
        }
    }

    /// Encodes a message. A `Value` always encodes; every other kind gives
    /// `Unimplemented` with that kind.
    pub fn encode(&self, msg: &Message) -> (r: Result<Vec<u8>, CodecError>)
        ensures
            match encode_outcome(*msg) {
                Ok(bytes) => r matches Ok(got) && got@ == bytes,
                Err(e) => r matches Err(got) && got == e,
            },
    {
        match msg {
            Message::Value(v) => Ok(encode_value(v)),
            _ => Err(CodecError::Unimplemented(msg.kind())),
        }
    }
}

/// Round trip: what `encode` gives for a `Value`, `decode` turns back into a
/// `Value` with the same payload.
pub proof fn lemma_value_round_trip(v: Value)
    ensures
        encode_outcome(Message::Value(v)) matches Ok(bytes) && decode_outcome(
            MessageKind::Value,
            bytes,
        ) == Ok::<Seq<u8>, CodecError>(v@),
{
    assert(v.data@.len() == v.data.len());
    lemma_value_bytes_parse(v@);
}

/// Absence: bytes without any field, and bytes whose fields parse but are
/// all other than the payload field, decode to the empty payload.
pub proof fn lemma_absent_payload_is_empty(bytes: Seq<u8>)
    requires
        value_fields_parse(bytes, None) == Some(None::<Seq<u8>>),
    ensures
        decode_outcome(MessageKind::Value, bytes) == Ok::<Seq<u8>, CodecError>(Seq::empty()),
        decode_outcome(MessageKind::Value, Seq::empty()) == Ok::<Seq<u8>, CodecError>(Seq::empty()),
{
}

/// A kind without a codec decodes to `Unimplemented`, never to a parse error,
/// and a message of such a kind encodes to the same.
pub proof fn lemma_unimplemented_kinds(kind: MessageKind, bytes: Seq<u8>, msg: Message)
    requires
        kind != MessageKind::Value,
        msg.kind_spec() == kind,
    ensures
        decode_outcome(kind, bytes) == Err::<Seq<u8>, CodecError>(CodecError::Unimplemented(kind)),
        encode_outcome(msg) == Err::<Seq<u8>, CodecError>(CodecError::Unimplemented(kind)),
{
}

impl MessageKind {
    /// The name of this kind, as it stands in reports.
    pub open spec fn name_spec(self) -> Seq<char> {
        match self {
            MessageKind::Value => "Value"@,
            MessageKind::ProposalPart => "ProposalPart"@,
            MessageKind::SignedConsensusMsg => "SignedConsensusMsg"@,
            MessageKind::ProposedValue => "ProposedValue"@,
            MessageKind::LivenessMsg => "LivenessMsg"@,
            MessageKind::StreamMessage => "StreamMessage"@,
            MessageKind::SyncStatus => "SyncStatus"@,
            MessageKind::SyncRequest => "SyncRequest"@,
            MessageKind::SyncResponse => "SyncResponse"@,
        }
    }

    /// The name of this kind, as it stands in reports.
    pub fn name(self) -> (r: &'static str)
        ensures
            r@ == self.name_spec(),
    {
        match self {
            MessageKind::Value => "Value",
            MessageKind::ProposalPart => "ProposalPart",
            MessageKind::SignedConsensusMsg => "SignedConsensusMsg",
            MessageKind::ProposedValue => "ProposedValue",
            MessageKind::LivenessMsg => "LivenessMsg",
            MessageKind::StreamMessage => "StreamMessage",
            MessageKind::SyncStatus => "SyncStatus",
            MessageKind::SyncRequest => "SyncRequest",
            MessageKind::SyncResponse => "SyncResponse",
        }
    }

    /// Whether messages of this kind can be encoded and decoded.
    pub fn is_implemented(self) -> (r: bool)
        ensures
            r == (self == MessageKind::Value),
    {
        match self {
            MessageKind::Value => true,
            _ => false,
        }
    }
}

/// The kind of a vote.
#[derive(Clone, Copy, Debug, PartialEq, Eq)]
pub enum VoteType {
    Prevote,
    Precommit,
}

/// The kind of a vote as the wire format knows it.
#[derive(Clone, Copy, Debug, PartialEq, Eq)]
pub enum ProtoVoteType {
    Prevote,
    Precommit,
}

impl ProtoVoteType {
    /// The number that stands for this variant on the wire.
    pub open spec fn number_spec(self) -> i32 {
        match self {
            ProtoVoteType::Prevote => 0,
            ProtoVoteType::Precommit => 1,
        }
    }

    /// The variant that a number stands for, if any.
    pub open spec fn from_number_spec(number: i32) -> Option<ProtoVoteType> {
        if number == 0 {
            Some(ProtoVoteType::Prevote)
        } else if number == 1 {
            Some(ProtoVoteType::Precommit)
        } else {
            None
        }
    }

    /// The number that stands for this variant on the wire.
    pub fn number(self) -> (r: i32)
        ensures
            r == self.number_spec(),
    {
        match self {
            ProtoVoteType::Prevote => 0,
            ProtoVoteType::Precommit => 1,
        }
    }

    /// The variant that a number stands for, if any.
    pub fn from_number(number: i32) -> (r: Option<ProtoVoteType>)
        ensures
            r == Self::from_number_spec(number),
    {
        if number == 0 {
            Some(ProtoVoteType::Prevote)
        } else if number == 1 {
            Some(ProtoVoteType::Precommit)
        } else {
            None
        }
    }
}

/// The wire variant of a vote type.
pub open spec fn vote_type_to_proto(vote_type: VoteType) -> ProtoVoteType {
    match vote_type {
        VoteType::Prevote => ProtoVoteType::Prevote,
        VoteType::Precommit => ProtoVoteType::Precommit,
    }
}

/// The vote type that a wire number stands for; `UnknownVariant` for a
/// number that stands for none.
pub open spec fn vote_type_from_number(number: i32) -> Result<VoteType, DecodeError> {
    match ProtoVoteType::from_number_spec(number) {
        Some(ProtoVoteType::Prevote) => Ok(VoteType::Prevote),
        Some(ProtoVoteType::Precommit) => Ok(VoteType::Precommit),
        None => Err(DecodeError::UnknownVariant),
    }
}

/// Turns a vote type into its wire variant.
pub fn encode_votetype(vote_type: VoteType) -> (r: ProtoVoteType)
    ensures
        r == vote_type_to_proto(vote_type),
{
    match vote_type {
        VoteType::Prevote => ProtoVoteType::Prevote,
        VoteType::Precommit => ProtoVoteType::Precommit,
    }
}

/// Turns a wire number into a vote type. A number that stands for no variant
/// is an error and never a default: a vote must not change its kind.
pub fn decode_votetype(vote_type: i32) -> (r: Result<VoteType, DecodeError>)
    ensures
        r == vote_type_from_number(vote_type),
        r is Ok <==> (vote_type == 0 || vote_type == 1),
{
    match ProtoVoteType::from_number(vote_type) {
        Some(ProtoVoteType::Prevote) => Ok(VoteType::Prevote),
        Some(ProtoVoteType::Precommit) => Ok(VoteType::Precommit),
        None => Err(DecodeError::UnknownVariant),
    }
}

/// Every vote type comes back from the number of its wire variant, and a
/// number outside the two known ones gives `UnknownVariant`.
pub proof fn lemma_vote_type_round_trip(vote_type: VoteType, number: i32)
    ensures
        vote_type_from_number(vote_type_to_proto(vote_type).number_spec()) == Ok::<
            VoteType,
            DecodeError,
        >(vote_type),
        (number != 0 && number != 1) ==> vote_type_from_number(number) == Err::<
            VoteType,
            DecodeError,
        >(DecodeError::UnknownVariant),
{
}

/// Length of a signature in bytes.
pub const SIGNATURE_LENGTH: usize = 64;

/// An Ed25519 signature: 64 bytes.
#[derive(Clone, Copy, Debug, PartialEq, Eq)]
pub struct Signature {
    bytes: [u8; 64],
}

impl View for Signature {
    type V = Seq<u8>;

    closed spec fn view(&self) -> Seq<u8> {
        self.bytes@
    }
}

impl Signature {
    /// A signature from its 64 bytes.
    pub fn from_bytes(bytes: [u8; 64]) -> (r: Signature)
        ensures
            r@ == bytes@,
    {
        Signature { bytes }
    }

    /// The 64 bytes of the signature.
    pub fn to_bytes(&self) -> (r: [u8; 64])
        ensures
            r@ == self@,
    {
        self.bytes
    }

    /// A signature is always 64 bytes long.
    pub proof fn lemma_length(self)
        ensures
            self@.len() == SIGNATURE_LENGTH,
    {
    }
}

/// A signature as the wire format holds it: bytes of any length.
#[derive(Clone, Debug, PartialEq, Eq)]
pub struct ProtoSignature {
    pub bytes: Vec<u8>,
}

/// Turns a signature into its wire form.
pub fn encode_signature(signature: &Signature) -> (r: ProtoSignature)
    ensures
        r.bytes@ == signature@,
{
    let source = signature.to_bytes();
    let mut bytes: Vec<u8> = Vec::new();
    let mut i: usize = 0;
    while i < SIGNATURE_LENGTH
        invariant
            i <= SIGNATURE_LENGTH,
            source@ == signature@,
            bytes@ == source@.take(i as int),
        decreases SIGNATURE_LENGTH - i,
    {
        bytes.push(source[i]);
        i = i + 1;
        proof {
            assert(bytes@ =~= source@.take(i as int));
        }
    }
    proof {
        assert(source@.take(64) =~= source@);
    }
    ProtoSignature { bytes }
}

/// Turns the wire form of a signature into a signature. Any length other
/// than 64 is `InvalidLength`: the bytes are never cut or padded.
pub fn decode_signature(signature: ProtoSignature) -> (r: Result<Signature, DecodeError>)
    ensures
        signature.bytes@.len() == SIGNATURE_LENGTH ==> (r matches Ok(s) && s@ == signature.bytes@),
        signature.bytes@.len() != SIGNATURE_LENGTH ==> r == Err::<Signature, DecodeError>(
            DecodeError::InvalidLength,
        ),
{
    if signature.bytes.len() != SIGNATURE_LENGTH {
        return Err(DecodeError::InvalidLength);
    }
    let mut bytes: [u8; 64] = [0u8; 64];
    let mut i: usize = 0;
    while i < SIGNATURE_LENGTH
        invariant
            i <= SIGNATURE_LENGTH,
            signature.bytes@.len() == SIGNATURE_LENGTH,
            forall|j: int| 0 <= j < i ==> bytes@[j] == signature.bytes@[j],
        decreases SIGNATURE_LENGTH - i,
    {
        bytes.set(i, signature.bytes[i]);
        i = i + 1;
    }
    proof {
        assert(bytes@ =~= signature.bytes@);
    }
    Ok(Signature { bytes })
}

} // verus!
