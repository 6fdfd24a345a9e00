use malachite_reth::codec::{
    decode_signature, decode_value, decode_value_fields, decode_votetype, encode_signature,
    encode_value, encode_votetype, offset_after_skip, CodecError, DecodeError, Message, MessageKind, ProtoCodec,
    ProtoSignature, ProtoVoteType, Signature, Value, SIGNATURE_LENGTH, VALUE_FIELD,
};

fn value(data: Vec<u8>) -> Value {
    Value { data }
}

fn all_kinds() -> Vec<MessageKind> {
    vec![
        MessageKind::Value,
        MessageKind::ProposalPart,
        MessageKind::SignedConsensusMsg,
        MessageKind::ProposedValue,
        MessageKind::LivenessMsg,
        MessageKind::StreamMessage,
        MessageKind::SyncStatus,
        MessageKind::SyncRequest,
        MessageKind::SyncResponse,
    ]
}

fn stub_messages() -> Vec<Message> {
    vec![
        Message::ProposalPart,
        Message::SignedConsensusMsg,
        Message::ProposedValue,
        Message::LivenessMsg,
        Message::StreamMessage,
        Message::SyncStatus,
        Message::SyncRequest,
        Message::SyncResponse,
    ]
}

#[test]
fn value_round_trip_one_two_three() {
    let codec = ProtoCodec;
    let msg = Message::Value(value(vec![1, 2, 3]));
    let bytes = codec.encode(&msg).unwrap();
    let back = codec.decode(MessageKind::Value, &bytes).unwrap();
    assert_eq!(back, Message::Value(value(vec![1, 2, 3])));
}

#[test]
fn value_encodes_to_exact_bytes() {
    assert_eq!(encode_value(&value(vec![1, 2, 3])), vec![0x0A, 0x03, 1, 2, 3]);
    assert_eq!(encode_value(&value(vec![])), vec![0x0A, 0x00]);
    assert_eq!(encode_value(&value(vec![0xFF])), vec![0x0A, 0x01, 0xFF]);
}

#[test]
fn value_decodes_from_exact_bytes() {
    assert_eq!(decode_value(&[0x0A, 0x03, 1, 2, 3]), Ok(value(vec![1, 2, 3])));
    assert_eq!(decode_value(&[0x0A, 0x00]), Ok(value(vec![])));
}

#[test]
fn empty_bytes_decode_to_empty_value() {
    let codec = ProtoCodec;
    assert_eq!(codec.decode(MessageKind::Value, &[]), Ok(Message::Value(value(vec![]))));
    assert_eq!(decode_value(&[]), Ok(value(vec![])));
    assert_eq!(decode_value_fields(&[]), Ok(None));
}

#[test]
fn absent_payload_field_decodes_to_empty_value() {
    // Field 2, varint 5: the payload field is not there.
    assert_eq!(decode_value(&[0x10, 0x05]), Ok(value(vec![])));
    assert_eq!(decode_value_fields(&[0x10, 0x05]), Ok(None));
}

#[test]
fn present_empty_payload_is_told_from_absent() {
    assert_eq!(decode_value_fields(&[0x0A, 0x00]), Ok(Some(vec![])));
}

#[test]
fn round_trip_of_many_lengths() {
    let codec = ProtoCodec;
    for len in [0usize, 1, 2, 127, 128, 129, 255, 256, 300, 16383, 16384, 70000] {
        let mut data = Vec::with_capacity(len);
        for i in 0..len {
            data.push((i % 251) as u8);
        }
        let msg = Message::Value(value(data.clone()));
        let bytes = codec.encode(&msg).unwrap();
        assert_eq!(codec.decode(MessageKind::Value, &bytes), Ok(msg));
        assert_eq!(decode_value(&encode_value(&value(data.clone()))), Ok(value(data)));
    }
}

#[test]
fn length_prefix_is_a_varint() {
    let bytes = encode_value(&value(vec![7u8; 300]));
    assert_eq!(bytes.len(), 303);
    assert_eq!(&bytes[..3], &[0x0A, 0xAC, 0x02]);
    assert!(bytes[3..].iter().all(|b| *b == 7));

    let bytes = encode_value(&value(vec![9u8; 128]));
    assert_eq!(&bytes[..3], &[0x0A, 0x80, 0x01]);
    assert_eq!(bytes.len(), 131);
}

#[test]
fn encoding_agrees_with_the_varint_of_prost() {
    for len in [0usize, 5, 127, 128, 20000] {
        let data = vec![3u8; len];
        let mut expected = Vec::new();
        prost::encoding::encode_varint(u64::from(VALUE_FIELD << 3 | 2), &mut expected);
        prost::encoding::encode_varint(len as u64, &mut expected);
        expected.extend_from_slice(&data);
        assert_eq!(encode_value(&value(data)), expected);
    }
}

#[test]
fn unknown_fields_are_skipped() {
    // varint field 2
    assert_eq!(decode_value(&[0x10, 0x96, 0x01, 0x0A, 0x02, 8, 9]), Ok(value(vec![8, 9])));
    // 64-bit field 3
    assert_eq!(
        decode_value(&[0x19, 1, 2, 3, 4, 5, 6, 7, 8, 0x0A, 0x01, 5]),
        Ok(value(vec![5]))
    );
    // 32-bit field 4
    assert_eq!(decode_value(&[0x25, 1, 2, 3, 4, 0x0A, 0x01, 5]), Ok(value(vec![5])));
    // length-delimited field 2
    assert_eq!(decode_value(&[0x12, 0x02, 0xAA, 0xBB, 0x0A, 0x01, 5]), Ok(value(vec![5])));
    // unknown field behind the payload
    assert_eq!(decode_value(&[0x0A, 0x01, 5, 0x10, 0x01]), Ok(value(vec![5])));
    // group of field 2 holding a varint field 1
    assert_eq!(decode_value(&[0x13, 0x08, 0x01, 0x14, 0x0A, 0x01, 5]), Ok(value(vec![5])));
}

#[test]
fn last_payload_field_wins() {
    assert_eq!(decode_value(&[0x0A, 0x01, 1, 0x0A, 0x02, 2, 3]), Ok(value(vec![2, 3])));
    assert_eq!(decode_value(&[0x0A, 0x02, 2, 3, 0x0A, 0x00]), Ok(value(vec![])));
}

#[test]
fn long_form_varints_are_accepted() {
    // length 3 written in two bytes
    assert_eq!(decode_value(&[0x0A, 0x83, 0x00, 1, 2, 3]), Ok(value(vec![1, 2, 3])));
    // key 10 written in two bytes
    assert_eq!(decode_value(&[0x8A, 0x00, 0x01, 4]), Ok(value(vec![4])));
}

#[test]
fn truncated_bytes_are_malformed() {
    assert_eq!(decode_value(&[0x0A]), Err(DecodeError::Malformed));
    assert_eq!(decode_value(&[0x0A, 0x05, 1, 2]), Err(DecodeError::Malformed));
    assert_eq!(decode_value(&[0x0A, 0x80]), Err(DecodeError::Malformed));
    assert_eq!(decode_value(&[0x80]), Err(DecodeError::Malformed));
    assert_eq!(decode_value(&[0x19, 1, 2, 3]), Err(DecodeError::Malformed));
    assert_eq!(decode_value(&[0x25, 1]), Err(DecodeError::Malformed));
    assert_eq!(decode_value(&[0x12, 0x03, 1]), Err(DecodeError::Malformed));
    assert_eq!(decode_value(&[0x10]), Err(DecodeError::Malformed));
}

#[test]
fn bad_keys_are_malformed() {
    // field number 0
    assert_eq!(decode_value(&[0x02, 0x00]), Err(DecodeError::Malformed));
    assert_eq!(decode_value(&[0x00]), Err(DecodeError::Malformed));
    // wire types 6 and 7
    assert_eq!(decode_value(&[0x0E, 0x00]), Err(DecodeError::Malformed));
    assert_eq!(decode_value(&[0x0F, 0x00]), Err(DecodeError::Malformed));
    // key beyond 32 bits
    assert_eq!(
        decode_value(&[0x8A, 0x80, 0x80, 0x80, 0x10, 0x00]),
        Err(DecodeError::Malformed)
    );
    // end of a group that was never opened
    assert_eq!(decode_value(&[0x14]), Err(DecodeError::Malformed));
    // group closed under another field number
    assert_eq!(decode_value(&[0x13, 0x1C]), Err(DecodeError::Malformed));
}

#[test]
fn payload_field_of_wrong_wire_type_is_malformed() {
    assert_eq!(decode_value(&[0x08, 0x01]), Err(DecodeError::Malformed));
    assert_eq!(decode_value(&[0x0D, 1, 2, 3, 4]), Err(DecodeError::Malformed));
    assert_eq!(decode_value(&[0x09, 1, 2, 3, 4, 5, 6, 7, 8]), Err(DecodeError::Malformed));
}

#[test]
fn overlong_varints_are_malformed() {
    // eleven bytes
    let mut bytes = vec![0x0A];
    bytes.extend_from_slice(&[0x80; 10]);
    bytes.push(0x00);
    assert_eq!(decode_value(&bytes), Err(DecodeError::Malformed));
    // tenth byte above 1
    let mut bytes = vec![0x10];
    bytes.extend_from_slice(&[0xFF; 9]);
    bytes.push(0x02);
    assert_eq!(decode_value(&bytes), Err(DecodeError::Malformed));
    // the largest u64 is fine as a skipped varint
    let mut bytes = vec![0x10];
    bytes.extend_from_slice(&[0xFF; 9]);
    bytes.push(0x01);
    assert_eq!(decode_value(&bytes), Ok(value(vec![])));
}

#[test]
fn length_beyond_input_is_malformed() {
    let mut bytes = vec![0x0A];
    bytes.extend_from_slice(&[0xFF; 9]);
    bytes.push(0x01);
    bytes.extend_from_slice(&[1, 2, 3]);
    assert_eq!(decode_value(&bytes), Err(DecodeError::Malformed));
}

#[test]
fn codec_reports_malformed_as_decode_error() {
    let codec = ProtoCodec;
    assert_eq!(
        codec.decode(MessageKind::Value, &[0x0A, 0x05, 1]),
        Err(CodecError::Decode(DecodeError::Malformed))
    );
}

#[test]
fn stream_message_decode_is_unimplemented() {
    let codec = ProtoCodec;
    assert_eq!(
        codec.decode(MessageKind::StreamMessage, &[0x0A, 0x03, 1, 2, 3]),
        Err(CodecError::Unimplemented(MessageKind::StreamMessage))
    );
    assert_eq!(
        codec.decode(MessageKind::StreamMessage, &[]),
        Err(CodecError::Unimplemented(MessageKind::StreamMessage))
    );
    // bytes that do not parse still give "unimplemented", not a parse failure
    assert_eq!(
        codec.decode(MessageKind::StreamMessage, &[0xFF]),
        Err(CodecError::Unimplemented(MessageKind::StreamMessage))
    );
}

#[test]
fn every_stub_kind_decodes_to_unimplemented() {
    let codec = ProtoCodec;
    for kind in all_kinds() {
        if kind == MessageKind::Value {
            continue;
        }
        for bytes in [vec![], vec![0x0A, 0x00], vec![0xFF, 0xFF]] {
            assert_eq!(codec.decode(kind, &bytes), Err(CodecError::Unimplemented(kind)));
        }
    }
}

#[test]
fn every_stub_kind_encodes_to_unimplemented() {
    let codec = ProtoCodec;
    for msg in stub_messages() {
        assert_eq!(codec.encode(&msg), Err(CodecError::Unimplemented(msg.kind())));
    }
    assert_eq!(
        codec.encode(&Message::ProposalPart),
        Err(CodecError::Unimplemented(MessageKind::ProposalPart))
    );
}

#[test]
fn message_kinds_and_names() {
    assert_eq!(Message::Value(value(vec![])).kind(), MessageKind::Value);
    assert_eq!(Message::SyncResponse.kind(), MessageKind::SyncResponse);
    assert_eq!(MessageKind::Value.name(), "Value");
    assert_eq!(MessageKind::ProposalPart.name(), "ProposalPart");
    assert_eq!(MessageKind::SignedConsensusMsg.name(), "SignedConsensusMsg");
    assert_eq!(MessageKind::ProposedValue.name(), "ProposedValue");
    assert_eq!(MessageKind::LivenessMsg.name(), "LivenessMsg");
    assert_eq!(MessageKind::StreamMessage.name(), "StreamMessage");
    assert_eq!(MessageKind::SyncStatus.name(), "SyncStatus");
    assert_eq!(MessageKind::SyncRequest.name(), "SyncRequest");
    assert_eq!(MessageKind::SyncResponse.name(), "SyncResponse");
    for kind in all_kinds() {
        assert_eq!(kind.is_implemented(), kind == MessageKind::Value);
    }
}

#[test]
fn signature_of_64_bytes_round_trips() {
    let mut raw = [0u8; 64];
    for i in 0..64 {
        raw[i] = (i as u8) * 3 + 1;
    }
    let signature = Signature::from_bytes(raw);
    assert_eq!(signature.to_bytes(), raw);
    let proto = encode_signature(&signature);
    assert_eq!(proto.bytes, raw.to_vec());
    assert_eq!(decode_signature(proto), Ok(signature));
}

#[test]
fn signature_of_other_length_is_invalid() {
    assert_eq!(SIGNATURE_LENGTH, 64);
    for len in [0usize, 1, 32, 63, 65, 128] {
        let proto = ProtoSignature { bytes: vec![7u8; len] };
        assert_eq!(decode_signature(proto), Err(DecodeError::InvalidLength));
    }
    let proto = ProtoSignature { bytes: vec![7u8; 64] };
    assert_eq!(decode_signature(proto), Ok(Signature::from_bytes([7u8; 64])));
}

#[test]
fn vote_types_round_trip() {
    assert_eq!(encode_votetype(malachite_reth::codec::VoteType::Prevote), ProtoVoteType::Prevote);
    assert_eq!(
        encode_votetype(malachite_reth::codec::VoteType::Precommit),
        ProtoVoteType::Precommit
    );
    assert_eq!(ProtoVoteType::Prevote.number(), 0);
    assert_eq!(ProtoVoteType::Precommit.number(), 1);
    assert_eq!(decode_votetype(0), Ok(malachite_reth::codec::VoteType::Prevote));
    assert_eq!(decode_votetype(1), Ok(malachite_reth::codec::VoteType::Precommit));
    for vote_type in [
        malachite_reth::codec::VoteType::Prevote,
        malachite_reth::codec::VoteType::Precommit,
    ] {
        assert_eq!(decode_votetype(encode_votetype(vote_type).number()), Ok(vote_type));
    }
}

#[test]
fn unknown_vote_type_is_an_error() {
    for number in [2, 3, -1, 100, i32::MAX, i32::MIN] {
        assert_eq!(decode_votetype(number), Err(DecodeError::UnknownVariant));
        assert_eq!(ProtoVoteType::from_number(number), None);
    }
    assert_eq!(ProtoVoteType::from_number(0), Some(ProtoVoteType::Prevote));
    assert_eq!(ProtoVoteType::from_number(1), Some(ProtoVoteType::Precommit));
}

#[test]
fn offset_after_a_skip() {
    assert_eq!(offset_after_skip(10, Some(4)), Ok(6));
    assert_eq!(offset_after_skip(10, Some(0)), Ok(10));
    assert_eq!(offset_after_skip(10, Some(10)), Ok(0));
    assert_eq!(offset_after_skip(0, Some(0)), Ok(0));
    assert_eq!(offset_after_skip(10, Some(11)), Err(DecodeError::Malformed));
    assert_eq!(offset_after_skip(10, None), Err(DecodeError::Malformed));
}
