use vstd::prelude::*;
use vstd::utf8::{decode_utf8, encode_utf8, valid_utf8};
use crate::error::AmpsError;

verus! {

broadcast use {vstd::utf8::encode_utf8_valid_utf8, vstd::utf8::encode_utf8_decode_utf8};

/// The closed set of protocol field tags. `AMPS_Unknown_Field` stands for a
/// tag outside the set: it is never encoded.
#[allow(non_camel_case_types)]
#[derive(Copy, Clone, Debug, PartialEq, Eq, Structural)]
pub enum FieldID {
    AMPS_Command,
    AMPS_Topic,
    AMPS_CommandId,
    AMPS_ClientName,
    AMPS_UserId,
    AMPS_Timestamp,
    AMPS_Filter,
    AMPS_MessageType,
    AMPS_AckType,
    AMPS_SubscriptionId,
    AMPS_Version,
    AMPS_Expiration,
    AMPS_Heartbeat,
    AMPS_TimeoutInterval,
    AMPS_LeasePeriod,
    AMPS_Status,
    AMPS_QueryID,
    AMPS_BatchSize,
    AMPS_TopNRecordsReturned,
    AMPS_OrderBy,
    AMPS_SowKeys,
    AMPS_CorrelationId,
    AMPS_Sequence,
    AMPS_Bookmark,
    AMPS_Password,
    AMPS_Options,
    AMPS_RecordsInserted,
    AMPS_RecordsUpdated,
    AMPS_SowDelete,
    AMPS_RecordsReturned,
    AMPS_TopicMatches,
    AMPS_Matches,
    AMPS_MessageLength,
    AMPS_SowKey,
    AMPS_GroupSequenceNumber,
    AMPS_SubscriptionIds,
    AMPS_Reason,
    AMPS_Unknown_Field,
}

/// Number of known fields; their wire identifiers are `0 .. N_FIELDS`.
pub const N_FIELDS: usize = 37;

/// Largest value, in UTF-8 bytes, that a field may carry.
pub const MAX_FIELD_LEN: usize = 4096;

/// The wire identifier of a field; `-1` for the unknown field.
pub open spec fn wire_id(f: FieldID) -> int {
    match f {
        FieldID::AMPS_Command => 0,
        FieldID::AMPS_Topic => 1,
        FieldID::AMPS_CommandId => 2,
        FieldID::AMPS_ClientName => 3,
        FieldID::AMPS_UserId => 4,
        FieldID::AMPS_Timestamp => 5,
        FieldID::AMPS_Filter => 6,
        FieldID::AMPS_MessageType => 7,
        FieldID::AMPS_AckType => 8,
        FieldID::AMPS_SubscriptionId => 9,
        FieldID::AMPS_Version => 10,
        FieldID::AMPS_Expiration => 11,
        FieldID::AMPS_Heartbeat => 12,
        FieldID::AMPS_TimeoutInterval => 13,
        FieldID::AMPS_LeasePeriod => 14,
        FieldID::AMPS_Status => 15,
        FieldID::AMPS_QueryID => 16,
        FieldID::AMPS_BatchSize => 17,
        FieldID::AMPS_TopNRecordsReturned => 18,
        FieldID::AMPS_OrderBy => 19,
        FieldID::AMPS_SowKeys => 20,
        FieldID::AMPS_CorrelationId => 21,
        FieldID::AMPS_Sequence => 22,
        FieldID::AMPS_Bookmark => 23,
        FieldID::AMPS_Password => 24,
        FieldID::AMPS_Options => 25,
        FieldID::AMPS_RecordsInserted => 26,
        FieldID::AMPS_RecordsUpdated => 27,
        FieldID::AMPS_SowDelete => 28,
        FieldID::AMPS_RecordsReturned => 29,
        FieldID::AMPS_TopicMatches => 30,
        FieldID::AMPS_Matches => 31,
        FieldID::AMPS_MessageLength => 32,
        FieldID::AMPS_SowKey => 33,
        FieldID::AMPS_GroupSequenceNumber => 34,
        FieldID::AMPS_SubscriptionIds => 35,
        FieldID::AMPS_Reason => 36,
        FieldID::AMPS_Unknown_Field => -1,
    }
}

pub open spec fn is_known(f: FieldID) -> bool {
    f != FieldID::AMPS_Unknown_Field
}

/// The field whose wire identifier is `k`, for `0 <= k < N_FIELDS`.
pub open spec fn field_at(k: int) -> FieldID {
    if k == 0 {
        FieldID::AMPS_Command
    } else if k == 1 {
        FieldID::AMPS_Topic
    } else if k == 2 {
        FieldID::AMPS_CommandId
    } else if k == 3 {
        FieldID::AMPS_ClientName
    } else if k == 4 {
        FieldID::AMPS_UserId
    } else if k == 5 {
        FieldID::AMPS_Timestamp
    } else if k == 6 {
        FieldID::AMPS_Filter
    } else if k == 7 {
        FieldID::AMPS_MessageType
    } else if k == 8 {
        FieldID::AMPS_AckType
    } else if k == 9 {
        FieldID::AMPS_SubscriptionId
    } else if k == 10 {
        FieldID::AMPS_Version
    } else if k == 11 {
        FieldID::AMPS_Expiration
    } else if k == 12 {
        FieldID::AMPS_Heartbeat
    } else if k == 13 {
        FieldID::AMPS_TimeoutInterval
    } else if k == 14 {
        FieldID::AMPS_LeasePeriod
    } else if k == 15 {
        FieldID::AMPS_Status
    } else if k == 16 {
        FieldID::AMPS_QueryID
    } else if k == 17 {
        FieldID::AMPS_BatchSize
    } else if k == 18 {
        FieldID::AMPS_TopNRecordsReturned
    } else if k == 19 {
        FieldID::AMPS_OrderBy
    } else if k == 20 {
        FieldID::AMPS_SowKeys
    } else if k == 21 {
        FieldID::AMPS_CorrelationId
    } else if k == 22 {
        FieldID::AMPS_Sequence
    } else if k == 23 {
        FieldID::AMPS_Bookmark
    } else if k == 24 {
        FieldID::AMPS_Password
    } else if k == 25 {
        FieldID::AMPS_Options
    } else if k == 26 {
        FieldID::AMPS_RecordsInserted
    } else if k == 27 {
        FieldID::AMPS_RecordsUpdated
    } else if k == 28 {
        FieldID::AMPS_SowDelete
    } else if k == 29 {
        FieldID::AMPS_RecordsReturned
    } else if k == 30 {
        FieldID::AMPS_TopicMatches
    } else if k == 31 {
        FieldID::AMPS_Matches
    } else if k == 32 {
        FieldID::AMPS_MessageLength
    } else if k == 33 {
        FieldID::AMPS_SowKey
    } else if k == 34 {
        FieldID::AMPS_GroupSequenceNumber
    } else if k == 35 {
        FieldID::AMPS_SubscriptionIds
    } else {
        FieldID::AMPS_Reason
    }
}

/// A known field's wire identifier lies in range and names that field back.
pub broadcast proof fn lemma_field_at_wire_id(f: FieldID)
    ensures
        is_known(f) ==> 0 <= #[trigger] wire_id(f) < N_FIELDS && field_at(wire_id(f)) == f,
{
}

/// Every identifier in range names a known field with that identifier.
pub proof fn lemma_wire_id_field_at(k: int)
    requires
        0 <= k < N_FIELDS,
    ensures
        is_known(field_at(k)),
        wire_id(field_at(k)) == k,
{
}

/// The wire identifier of a field, as the protocol numbers it.
pub fn cast(v: FieldID) -> (r: i32)
    ensures
        r == wire_id(v),
{
    match v {
        FieldID::AMPS_Command => 0,
        FieldID::AMPS_Topic => 1,
        FieldID::AMPS_CommandId => 2,
        FieldID::AMPS_ClientName => 3,
        FieldID::AMPS_UserId => 4,
        FieldID::AMPS_Timestamp => 5,
        FieldID::AMPS_Filter => 6,
        FieldID::AMPS_MessageType => 7,
        FieldID::AMPS_AckType => 8,
        FieldID::AMPS_SubscriptionId => 9,
        FieldID::AMPS_Version => 10,
        FieldID::AMPS_Expiration => 11,
        FieldID::AMPS_Heartbeat => 12,
        FieldID::AMPS_TimeoutInterval => 13,
        FieldID::AMPS_LeasePeriod => 14,
        FieldID::AMPS_Status => 15,
        FieldID::AMPS_QueryID => 16,
        FieldID::AMPS_BatchSize => 17,
        FieldID::AMPS_TopNRecordsReturned => 18,
        FieldID::AMPS_OrderBy => 19,
        FieldID::AMPS_SowKeys => 20,
        FieldID::AMPS_CorrelationId => 21,
        FieldID::AMPS_Sequence => 22,
        FieldID::AMPS_Bookmark => 23,
        FieldID::AMPS_Password => 24,
        FieldID::AMPS_Options => 25,
        FieldID::AMPS_RecordsInserted => 26,
        FieldID::AMPS_RecordsUpdated => 27,
        FieldID::AMPS_SowDelete => 28,
        FieldID::AMPS_RecordsReturned => 29,
        FieldID::AMPS_TopicMatches => 30,
        FieldID::AMPS_Matches => 31,
        FieldID::AMPS_MessageLength => 32,
        FieldID::AMPS_SowKey => 33,
        FieldID::AMPS_GroupSequenceNumber => 34,
        FieldID::AMPS_SubscriptionIds => 35,
        FieldID::AMPS_Reason => 36,
        FieldID::AMPS_Unknown_Field => -1,
    }
}

/// The known field whose wire identifier is `tag`, if any.
pub fn field_of_tag(tag: u8) -> (r: Option<FieldID>)
    ensures
        tag < N_FIELDS ==> r == Some(field_at(tag as int)),
        tag >= N_FIELDS ==> r is None,
{
    match tag {
            0 => Some(FieldID::AMPS_Command),
            1 => Some(FieldID::AMPS_Topic),
            2 => Some(FieldID::AMPS_CommandId),
            3 => Some(FieldID::AMPS_ClientName),
            4 => Some(FieldID::AMPS_UserId),
            5 => Some(FieldID::AMPS_Timestamp),
            6 => Some(FieldID::AMPS_Filter),
            7 => Some(FieldID::AMPS_MessageType),
            8 => Some(FieldID::AMPS_AckType),
            9 => Some(FieldID::AMPS_SubscriptionId),
            10 => Some(FieldID::AMPS_Version),
            11 => Some(FieldID::AMPS_Expiration),
            12 => Some(FieldID::AMPS_Heartbeat),
            13 => Some(FieldID::AMPS_TimeoutInterval),
            14 => Some(FieldID::AMPS_LeasePeriod),
            15 => Some(FieldID::AMPS_Status),
            16 => Some(FieldID::AMPS_QueryID),
            17 => Some(FieldID::AMPS_BatchSize),
            18 => Some(FieldID::AMPS_TopNRecordsReturned),
            19 => Some(FieldID::AMPS_OrderBy),
            20 => Some(FieldID::AMPS_SowKeys),
            21 => Some(FieldID::AMPS_CorrelationId),
            22 => Some(FieldID::AMPS_Sequence),
            23 => Some(FieldID::AMPS_Bookmark),
            24 => Some(FieldID::AMPS_Password),
            25 => Some(FieldID::AMPS_Options),
            26 => Some(FieldID::AMPS_RecordsInserted),
            27 => Some(FieldID::AMPS_RecordsUpdated),
            28 => Some(FieldID::AMPS_SowDelete),
            29 => Some(FieldID::AMPS_RecordsReturned),
            30 => Some(FieldID::AMPS_TopicMatches),
            31 => Some(FieldID::AMPS_Matches),
            32 => Some(FieldID::AMPS_MessageLength),
            33 => Some(FieldID::AMPS_SowKey),
            34 => Some(FieldID::AMPS_GroupSequenceNumber),
            35 => Some(FieldID::AMPS_SubscriptionIds),
            36 => Some(FieldID::AMPS_Reason),
            _ => None,
    }
}

} // verus!
