use rust_amps::decimal::{decimal_string, read_decimal};
use rust_amps::field::field_of_tag;
use rust_amps::{cast, decode, encode, AmpsError, FieldID};

const KNOWN: [FieldID; 37] = [
    FieldID::AMPS_Command,
    FieldID::AMPS_Topic,
    FieldID::AMPS_CommandId,
    FieldID::AMPS_ClientName,
    FieldID::AMPS_UserId,
    FieldID::AMPS_Timestamp,
    FieldID::AMPS_Filter,
    FieldID::AMPS_MessageType,
    FieldID::AMPS_AckType,
    FieldID::AMPS_SubscriptionId,
    FieldID::AMPS_Version,
    FieldID::AMPS_Expiration,
    FieldID::AMPS_Heartbeat,
    FieldID::AMPS_TimeoutInterval,
    FieldID::AMPS_LeasePeriod,
    FieldID::AMPS_Status,
    FieldID::AMPS_QueryID,
    FieldID::AMPS_BatchSize,
    FieldID::AMPS_TopNRecordsReturned,
    FieldID::AMPS_OrderBy,
    FieldID::AMPS_SowKeys,
    FieldID::AMPS_CorrelationId,
    FieldID::AMPS_Sequence,
    FieldID::AMPS_Bookmark,
    FieldID::AMPS_Password,
    FieldID::AMPS_Options,
    FieldID::AMPS_RecordsInserted,
    FieldID::AMPS_RecordsUpdated,
    FieldID::AMPS_SowDelete,
    FieldID::AMPS_RecordsReturned,
    FieldID::AMPS_TopicMatches,
    FieldID::AMPS_Matches,
    FieldID::AMPS_MessageLength,
    FieldID::AMPS_SowKey,
    FieldID::AMPS_GroupSequenceNumber,
    FieldID::AMPS_SubscriptionIds,
    FieldID::AMPS_Reason,
];

#[test]
fn cast_gives_wire_identifiers() {
    assert_eq!(cast(FieldID::AMPS_Command), 0);
    assert_eq!(cast(FieldID::AMPS_Topic), 1);
    assert_eq!(cast(FieldID::AMPS_MessageType), 7);
    assert_eq!(cast(FieldID::AMPS_CorrelationId), 21);
    assert_eq!(cast(FieldID::AMPS_Reason), 36);
    assert_eq!(cast(FieldID::AMPS_Unknown_Field), -1);
    for (i, f) in KNOWN.iter().enumerate() {
        assert_eq!(cast(*f), i as i32);
        assert_eq!(field_of_tag(i as u8), Some(*f));
    }
    assert_eq!(field_of_tag(37), None);
    assert_eq!(field_of_tag(255), None);
}

#[test]
fn encode_then_decode_round_trips_every_field() {
    let values = ["", "orders", "35=D; 22=5; 55=NVDA.O", "héllo wörld", "日本語", "🦀 crab"];
    for f in KNOWN.iter() {
        for v in values.iter() {
            let e = encode(*f, v).unwrap();
            let (g, s) = decode(&e.bytes).unwrap();
            assert_eq!(g, *f);
            assert_eq!(s, *v);
        }
    }
}

#[test]
fn encode_lays_out_tag_length_and_bytes() {
    let e = encode(FieldID::AMPS_Topic, "orders").unwrap();
    assert_eq!(e.bytes, vec![1, 0, 6, b'o', b'r', b'd', b'e', b'r', b's']);
    let e = encode(FieldID::AMPS_Reason, "é").unwrap();
    assert_eq!(e.bytes, vec![36, 0, 2, 0xC3, 0xA9]);
}

#[test]
fn encode_rejects_unknown_field() {
    assert!(matches!(encode(FieldID::AMPS_Unknown_Field, "x"), Err(AmpsError::UnknownField)));
}

#[test]
fn encode_length_bound_is_in_bytes() {
    let at_limit = "a".repeat(4096);
    let e = encode(FieldID::AMPS_Filter, &at_limit).unwrap();
    assert_eq!(e.bytes.len(), 4099);
    assert_eq!(e.bytes[1], 16);
    assert_eq!(e.bytes[2], 0);
    let over = "a".repeat(4097);
    assert!(matches!(encode(FieldID::AMPS_Filter, &over), Err(AmpsError::FieldTooLong)));
    // 2049 characters of two bytes each: under the limit in characters, over it in bytes
    let wide = "é".repeat(2049);
    assert!(matches!(encode(FieldID::AMPS_Filter, &wide), Err(AmpsError::FieldTooLong)));
}

#[test]
fn decode_rejects_bad_buffers() {
    assert!(matches!(decode(&[]), Err(AmpsError::MalformedFrame)));
    assert!(matches!(decode(&[1, 0]), Err(AmpsError::MalformedFrame)));
    assert!(matches!(decode(&[37, 0, 0]), Err(AmpsError::UnknownField)));
    assert!(matches!(decode(&[1, 0, 3, b'a']), Err(AmpsError::MalformedFrame)));
    assert!(matches!(decode(&[1, 0, 1, b'a', b'b']), Err(AmpsError::MalformedFrame)));
    assert!(matches!(decode(&[1, 16, 1]), Err(AmpsError::FieldTooLong)));
    assert!(matches!(decode(&[1, 0, 1, 0xFF]), Err(AmpsError::MalformedFrame)));
    let (f, s) = decode(&[0, 0, 0]).unwrap();
    assert_eq!(f, FieldID::AMPS_Command);
    assert_eq!(s, "");
}

#[test]
fn decimal_text_of_numbers() {
    for n in [0u64, 7, 10, 99, 100, 1234567890, u64::MAX] {
        assert_eq!(decimal_string(n), n.to_string());
        assert_eq!(read_decimal(decimal_string(n).as_bytes()), Some(n));
    }
    assert_eq!(read_decimal(b"007"), Some(7));
    assert_eq!(read_decimal(b""), None);
    assert_eq!(read_decimal(b"-1"), None);
}
