use vstd::prelude::*;
use vstd::utf8::{decode_utf8, encode_utf8, valid_utf8};
use crate::error::AmpsError;
use crate::field::{field_at, field_of_tag, is_known, wire_id, FieldID, MAX_FIELD_LEN, N_FIELDS, cast};
use crate::text::utf8_string;

verus! {

broadcast use {vstd::utf8::encode_utf8_valid_utf8, vstd::utf8::encode_utf8_decode_utf8};

/// Two bytes, most significant first, for a number below 65536.
pub open spec fn be16(n: nat) -> Seq<u8> {
    seq![(n / 256) as u8, (n % 256) as u8]
}

/// The wire form of one field: its tag byte, the value's byte length in two
/// bytes, then the value's UTF-8 bytes.
pub open spec fn field_record(f: FieldID, v: Seq<char>) -> Seq<u8> {
    seq![wire_id(f) as u8] + be16(encode_utf8(v).len()) + encode_utf8(v)
}

/// What encoding `v` under `f` gives.
pub open spec fn encode_spec(f: FieldID, v: Seq<char>) -> Result<Seq<u8>, AmpsError> {
    if !is_known(f) {
        Err(AmpsError::UnknownField)
    } else if encode_utf8(v).len() > MAX_FIELD_LEN {
        Err(AmpsError::FieldTooLong)
    } else {
        Ok(field_record(f, v))
    }
}

/// The declared value length of the record that starts at `pos`.
pub open spec fn declared_len(b: Seq<u8>, pos: int) -> int {
    b[pos + 1] as int * 256 + b[pos + 2] as int
}

/// Reading one field record that starts at `pos`: the field, its value, and
/// the position just past the record.
pub open spec fn record_at(b: Seq<u8>, pos: int) -> Result<(FieldID, Seq<char>, int), AmpsError> {
    if pos + 3 > b.len() {
        Err(AmpsError::MalformedFrame)
    } else if b[pos] >= N_FIELDS {
        Err(AmpsError::UnknownField)
    } else if declared_len(b, pos) > MAX_FIELD_LEN {
        Err(AmpsError::FieldTooLong)
    } else if pos + 3 + declared_len(b, pos) > b.len() {
        Err(AmpsError::MalformedFrame)
    } else if !valid_utf8(b.subrange(pos + 3, pos + 3 + declared_len(b, pos))) {
        Err(AmpsError::MalformedFrame)
    } else {
        Ok(
            (
                field_at(b[pos] as int),
                decode_utf8(b.subrange(pos + 3, pos + 3 + declared_len(b, pos))),
                pos + 3 + declared_len(b, pos),
            ),
        )
    }
}

/// Decoding a buffer that holds exactly one field record.
pub open spec fn decode_spec(b: Seq<u8>) -> Result<(FieldID, Seq<char>), AmpsError> {
    match record_at(b, 0) {
        Ok((f, v, end)) => if end == b.len() {
            Ok((f, v))
        } else {
            Err(AmpsError::MalformedFrame)
        },
        Err(e) => Err(e),
    }
}

/// One field in its wire form.
pub struct EncodedField {
    pub bytes: Vec<u8>,
}

/// Encodes `value` under `field`; fails for the unknown field and for a value
/// longer than `MAX_FIELD_LEN` bytes.
pub fn encode(field: FieldID, value: &str) -> (r: Result<EncodedField, AmpsError>)
    ensures
        match r {
            Ok(e) => encode_spec(field, value@) == Ok::<Seq<u8>, AmpsError>(e.bytes@),
            Err(x) => encode_spec(field, value@) == Err::<Seq<u8>, AmpsError>(x),
        },
{
    if let FieldID::AMPS_Unknown_Field = field {
        return Err(AmpsError::UnknownField);
    }
    let src = value.as_bytes();
    let n = src.len();
    if n > MAX_FIELD_LEN {
        return Err(AmpsError::FieldTooLong);
    }
    let mut bytes: Vec<u8> = Vec::new();
    push_record(&mut bytes, field, src);
    Ok(EncodedField { bytes })
}

/// Appends `src[start..end]` to `out`.
pub(crate) fn append_range(out: &mut Vec<u8>, src: &[u8], start: usize, end: usize)
    requires
        start <= end <= src@.len(),
    ensures
        final(out)@ == old(out)@ + src@.subrange(start as int, end as int),
{
    let ghost before = out@;
    let mut i = start;
    while i < end
        invariant
            start <= i <= end <= src@.len(),
            out@ == before + src@.subrange(start as int, i as int),
        decreases end - i,
    {
        out.push(src[i]);
        i += 1;
        assert(src@.subrange(start as int, i as int) == src@.subrange(start as int, i - 1) + seq![
            src@[i - 1],
        ]);
    }
}

/// Appends the record of `field` with value bytes `src` to `out`.
pub(crate) fn push_record(out: &mut Vec<u8>, field: FieldID, src: &[u8])
    requires
        is_known(field),
        src@.len() <= MAX_FIELD_LEN,
    ensures
        final(out)@ == old(out)@ + seq![wire_id(field) as u8] + be16(src@.len()) + src@,
{
    let n = src.len();
    out.push(cast(field) as u8);
    out.push((n / 256) as u8);
    out.push((n % 256) as u8);
    append_range(out, src, 0, n);
    assert(src@.subrange(0, n as int) == src@);
}

/// Reads the field record that starts at `pos` in `b`.
pub fn read_record(b: &[u8], pos: usize) -> (r: Result<(FieldID, String, usize), AmpsError>)
    requires
        pos <= b@.len(),
    ensures
        match r {
            Ok((f, s, end)) => record_at(b@, pos as int) == Ok::<_, AmpsError>((f, s@, end as int)),
            Err(x) => record_at(b@, pos as int) == Err::<(FieldID, Seq<char>, int), AmpsError>(x),
        },
{
    if b.len() - pos < 3 {
        return Err(AmpsError::MalformedFrame);
    }
    let f = match field_of_tag(b[pos]) {
        Some(f) => f,
        None => return Err(AmpsError::UnknownField),
    };
    let n: usize = (b[pos + 1] as usize) * 256 + (b[pos + 2] as usize);
    if n > MAX_FIELD_LEN {
        return Err(AmpsError::FieldTooLong);
    }
    if b.len() - pos - 3 < n {
        return Err(AmpsError::MalformedFrame);
    }
    let start = pos + 3;
    let end = start + n;
    let mut body: Vec<u8> = Vec::new();
    append_range(&mut body, b, start, end);
    match utf8_string(body) {
        Some(s) => Ok((f, s, end)),
        None => Err(AmpsError::MalformedFrame),
    }
}

/// Decodes a buffer that holds exactly one field record.
pub fn decode(bytes: &[u8]) -> (r: Result<(FieldID, String), AmpsError>)
    ensures
        match r {
            Ok((f, s)) => decode_spec(bytes@) == Ok::<_, AmpsError>((f, s@)),
            Err(x) => decode_spec(bytes@) == Err::<(FieldID, Seq<char>), AmpsError>(x),
        },
{
    match read_record(bytes, 0) {
        Ok((f, s, end)) => {
            if end == bytes.len() {
                Ok((f, s))
            } else {
                Err(AmpsError::MalformedFrame)
            }
        },
        Err(e) => Err(e),
    }
}

/// A string takes at most four bytes of UTF-8 per character.
pub proof fn lemma_utf8_len(s: Seq<char>)
    ensures
        encode_utf8(s).len() <= 4 * s.len(),
    decreases s.len(),
{
    if s.len() > 0 {
        lemma_utf8_len(s.drop_first());
    }
}

/// Encoding a known field's value within the length bound and decoding the
/// bytes gives back that field and exactly that value.
pub proof fn lemma_encode_decode(f: FieldID, v: Seq<char>)
    requires
        is_known(f),
        encode_utf8(v).len() <= MAX_FIELD_LEN,
    ensures
        encode_spec(f, v) matches Ok(b) && decode_spec(b) == Ok::<_, AmpsError>((f, v)),
{
    broadcast use crate::field::lemma_field_at_wire_id;

    let b = field_record(f, v);
    let n = encode_utf8(v).len();
    assert(b[0] == wire_id(f) as u8);
    assert(declared_len(b, 0) == n);
    assert(b.subrange(3, 3 + n as int) == encode_utf8(v));
}

} // verus!
