use vstd::prelude::*;
use vstd::utf8::encode_utf8;
use crate::codec::{append_range, declared_len, field_record, push_record, read_record, record_at};
use crate::error::AmpsError;
use crate::field::{field_at, field_of_tag, is_known, wire_id, FieldID, MAX_FIELD_LEN, N_FIELDS, cast};

verus! {

broadcast use {
    vstd::utf8::encode_utf8_valid_utf8,
    vstd::utf8::encode_utf8_decode_utf8,
    crate::field::lemma_field_at_wire_id,
    vstd::utf8::decode_utf8_encode_utf8,
};

/// Largest payload, in bytes: the most that the frame's four-byte length
/// can declare.
pub const MAX_PAYLOAD_LEN: usize = 4294967295;

/// The byte that ends the field records of a frame; no field has it as tag.
pub const FIELDS_END: u8 = 255;

/// What a message holds: a value for each field that was set, and the payload.
pub struct MessageView {
    pub fields: Map<FieldID, Seq<char>>,
    pub payload: Seq<u8>,
}

/// The fields that a slot table holds, slot `k` holding field `field_at(k)`.
pub open spec fn slots_map(slots: Seq<Option<String>>) -> Map<FieldID, Seq<char>> {
    Map::new(
        |f: FieldID| is_known(f) && slots[wire_id(f)] is Some,
        |f: FieldID| slots[wire_id(f)]->Some_0@,
    )
}

/// `m` with `f` set to `v`, replacing an earlier value of `f`.
pub open spec fn with_field(m: MessageView, f: FieldID, v: Seq<char>) -> MessageView {
    MessageView { fields: m.fields.insert(f, v), payload: m.payload }
}

/// Setting a field twice leaves only the second value: the message is the
/// same as after setting the field once, to that value.
pub proof fn lemma_last_write_wins(m: MessageView, f: FieldID, v1: Seq<char>, v2: Seq<char>)
    ensures
        with_field(with_field(m, f, v1), f, v2) == with_field(m, f, v2),
        with_field(with_field(m, f, v1), f, v2).fields[f] == v2,
{
    assert(m.fields.insert(f, v1).insert(f, v2) =~= m.fields.insert(f, v2));
}

/// A message whose fields and payload are within their bounds.
pub open spec fn view_wf(m: MessageView) -> bool {
    &&& forall|f: FieldID| #[trigger] m.fields.contains_key(f) ==> is_known(f)
        && encode_utf8(m.fields[f]).len() <= MAX_FIELD_LEN
    &&& m.payload.len() <= MAX_PAYLOAD_LEN
}

/// Four bytes, most significant first, for a number below 2^32.
pub open spec fn be32(n: nat) -> Seq<u8> {
    seq![(n / 16777216) as u8, ((n / 65536) % 256) as u8, ((n / 256) % 256) as u8, (n % 256) as u8]
}

/// The records of the fields with identifiers below `k`, in identifier order.
pub open spec fn records_upto(fields: Map<FieldID, Seq<char>>, k: nat) -> Seq<u8>
    decreases k,
{
    if k == 0 {
        Seq::empty()
    } else {
        let f = field_at(k - 1);
        records_upto(fields, (k - 1) as nat) + if fields.contains_key(f) {
            field_record(f, fields[f])
        } else {
            Seq::empty()
        }
    }
}

/// The wire frame of a message: its field records in identifier order, the end
/// byte, the payload length in four bytes, then the payload.
pub open spec fn frame_of(m: MessageView) -> Seq<u8> {
    records_upto(m.fields, N_FIELDS as nat) + seq![FIELDS_END] + be32(m.payload.len()) + m.payload
}

/// Reading field records from `pos` up to and including the end byte, adding
/// each to `acc`; a field that appears twice makes the frame malformed.
pub open spec fn fields_from(b: Seq<u8>, pos: int, acc: Map<FieldID, Seq<char>>) -> Result<
    (Map<FieldID, Seq<char>>, int),
    AmpsError,
>
    decreases b.len() - pos,
{
    if pos < 0 || pos >= b.len() {
        Err(AmpsError::MalformedFrame)
    } else if b[pos] == FIELDS_END {
        Ok((acc, pos + 1))
    } else {
        match record_at(b, pos) {
            Ok((f, v, end)) => if acc.contains_key(f) {
                Err(AmpsError::MalformedFrame)
            } else {
                fields_from(b, end, acc.insert(f, v))
            },
            Err(e) => Err(e),
        }
    }
}

/// The declared payload length at `pos`.
pub open spec fn declared_payload_len(b: Seq<u8>, pos: int) -> int {
    b[pos] as int * 16777216 + b[pos + 1] as int * 65536 + b[pos + 2] as int * 256 + b[pos + 3] as int
}

/// Reading the payload section at `pos`, which must end the buffer exactly.
pub open spec fn payload_at(b: Seq<u8>, pos: int) -> Result<Seq<u8>, AmpsError> {
    if pos + 4 > b.len() {
        Err(AmpsError::MalformedFrame)
    } else if pos + 4 + declared_payload_len(b, pos) != b.len() {
        Err(AmpsError::MalformedFrame)
    } else {
        Ok(b.subrange(pos + 4, b.len() as int))
    }
}

/// Reading a whole frame.
pub open spec fn parse_frame(b: Seq<u8>) -> Result<MessageView, AmpsError> {
    match fields_from(b, 0, Map::empty()) {
        Ok((fields, pos)) => match payload_at(b, pos) {
            Ok(payload) => Ok(MessageView { fields, payload }),
            Err(e) => Err(e),
        },
        Err(e) => Err(e),
    }
}

/// The fields of `fields` whose identifiers are below `k`.
pub open spec fn fields_below(fields: Map<FieldID, Seq<char>>, k: int) -> Map<FieldID, Seq<char>> {
    Map::new(|f: FieldID| fields.contains_key(f) && wire_id(f) < k, |f: FieldID| fields[f])
}

proof fn lemma_records_prefix(fields: Map<FieldID, Seq<char>>, j: nat, k: nat)
    requires
        j <= k,
    ensures
        records_upto(fields, k).len() >= records_upto(fields, j).len(),
        records_upto(fields, k).subrange(0, records_upto(fields, j).len() as int) == records_upto(
            fields,
            j,
        ),
    decreases k,
{
    if j < k {
        lemma_records_prefix(fields, j, (k - 1) as nat);
        let a = records_upto(fields, (k - 1) as nat);
        let n = records_upto(fields, j).len() as int;
        assert(records_upto(fields, k).subrange(0, n) =~= a.subrange(0, n));
    } else {
        assert(records_upto(fields, k).subrange(0, records_upto(fields, k).len() as int)
            =~= records_upto(fields, k));
    }
}

proof fn lemma_record_at_copy(b: Seq<u8>, p: int, f: FieldID, v: Seq<char>)
    requires
        is_known(f),
        encode_utf8(v).len() <= MAX_FIELD_LEN,
        0 <= p,
        p + field_record(f, v).len() <= b.len(),
        b.subrange(p, p + field_record(f, v).len()) == field_record(f, v),
    ensures
        record_at(b, p) == Ok::<_, AmpsError>((f, v, p + field_record(f, v).len())),
{
    let rec = field_record(f, v);
    let n = encode_utf8(v).len() as int;
    let q = p + rec.len();
    assert(rec.len() == 3 + n);
    assert forall|i: int| 0 <= i < n implies b.subrange(p + 3, q)[i] == encode_utf8(v)[i] by {
        assert(b.subrange(p, q)[3 + i] == rec[3 + i]);
    }
    assert(b.subrange(p + 3, q) =~= encode_utf8(v));
    assert(b.subrange(p, q)[0] == rec[0] && b.subrange(p, q)[1] == rec[1] && b.subrange(p, q)[2] == rec[2]);
    assert(rec[1] == (n / 256) as u8 && rec[2] == (n % 256) as u8);
    assert(declared_len(b, p) == n);
    assert(b[p] == wire_id(f) as u8);
}

proof fn lemma_fields_from_frame(m: MessageView, k: nat)
    requires
        view_wf(m),
        k <= N_FIELDS,
    ensures
        fields_from(frame_of(m), records_upto(m.fields, k).len() as int, fields_below(m.fields, k as int))
            == Ok::<_, AmpsError>(
            (m.fields, records_upto(m.fields, N_FIELDS as nat).len() as int + 1),
        ),
    decreases N_FIELDS - k,
{
    let b = frame_of(m);
    let all = records_upto(m.fields, N_FIELDS as nat);
    let p = records_upto(m.fields, k).len() as int;
    lemma_records_prefix(m.fields, k, N_FIELDS as nat);
    if k == N_FIELDS {
        assert(b[p] == FIELDS_END);
        assert(fields_below(m.fields, k as int) =~= m.fields);
    } else {
        let f = field_at(k as int);
        crate::field::lemma_wire_id_field_at(k as int);
        lemma_records_prefix(m.fields, k + 1, N_FIELDS as nat);
        if m.fields.contains_key(f) {
            let v = m.fields[f];
            let rec = field_record(f, v);
            let q = records_upto(m.fields, k + 1).len() as int;
            assert(records_upto(m.fields, k + 1) == records_upto(m.fields, k) + rec);
            assert(q == p + rec.len());
            assert(all.subrange(0, q) == records_upto(m.fields, k) + rec);
            assert forall|i: int| 0 <= i < rec.len() implies b.subrange(p, q)[i] == rec[i] by {
                assert(b[p + i] == all[p + i]);
                assert(all.subrange(0, q)[p + i] == all[p + i]);
            }
            assert(b.subrange(p, q) =~= rec);
            lemma_record_at_copy(b, p, f, v);
            assert(fields_below(m.fields, k as int).insert(f, v) =~= fields_below(
                m.fields,
                (k + 1) as int,
            ));
            lemma_fields_from_frame(m, k + 1);
        } else {
            assert(fields_below(m.fields, k as int) =~= fields_below(m.fields, (k + 1) as int));
            lemma_fields_from_frame(m, k + 1);
        }
    }
}

/// Reading the frame of a well-formed message gives back that message: the
/// same fields and exactly the same payload bytes.
pub proof fn lemma_frame_round_trip(m: MessageView)
    requires
        view_wf(m),
    ensures
        parse_frame(frame_of(m)) == Ok::<MessageView, AmpsError>(m),
{
    lemma_fields_from_frame(m, 0);
    assert(fields_below(m.fields, 0) =~= Map::<FieldID, Seq<char>>::empty());
    let b = frame_of(m);
    let pos = records_upto(m.fields, N_FIELDS as nat).len() as int + 1;
    let n = m.payload.len();
    assert(b.subrange(pos + 4, b.len() as int) =~= m.payload);
    assert(declared_payload_len(b, pos) == n);
}

/// A message: a value for each field that was set, and a byte payload whose
/// length is exactly that of the bytes it was given.
pub struct Message {
    slots: Vec<Option<String>>,
    payload: Vec<u8>,
}

impl View for Message {
    type V = MessageView;

    closed spec fn view(&self) -> MessageView {
        MessageView { fields: slots_map(self.slots@), payload: self.payload@ }
    }
}

impl Message {
    pub closed spec fn wf(&self) -> bool {
        &&& self.slots@.len() == N_FIELDS
        &&& forall|k: int| 0 <= k < N_FIELDS && #[trigger] self.slots@[k] is Some
            ==> encode_utf8(self.slots@[k]->Some_0@).len() <= MAX_FIELD_LEN
        &&& self.payload@.len() <= MAX_PAYLOAD_LEN
    }

    /// A message with no field and an empty payload.
    fn empty() -> (r: Message)
        ensures
            r.wf(),
            r@.fields == Map::<FieldID, Seq<char>>::empty(),
            r@.payload == Seq::<u8>::empty(),
    {
        let mut slots: Vec<Option<String>> = Vec::new();
        let mut k: usize = 0;
        while k < N_FIELDS
            invariant
                k <= N_FIELDS,
                slots@.len() == k,
                forall|j: int| 0 <= j < k ==> slots@[j] is None,
            decreases N_FIELDS - k,
        {
            slots.push(None);
            k += 1;
        }
        let r = Message { slots, payload: Vec::new() };
        assert(r@.fields =~= Map::<FieldID, Seq<char>>::empty());
        r
    }

    /// Stores `value` under the known field `field`, replacing an earlier value.
    pub(crate) fn put(&mut self, field: FieldID, value: String)
        requires
            old(self).wf(),
            is_known(field),
            encode_utf8(value@).len() <= MAX_FIELD_LEN,
        ensures
            final(self).wf(),
            final(self)@.fields == old(self)@.fields.insert(field, value@),
            final(self)@.payload == old(self)@.payload,
    {
        let ghost v = value@;
        let k = cast(field) as usize;
        self.slots.set(k, Some(value));
        assert(self@.fields =~= old(self)@.fields.insert(field, v));
    }

    /// The value of `field`, if it was set.
    pub fn get_field(&self, field: FieldID) -> (r: Option<String>)
        requires
            self.wf(),
        ensures
            r is Some <==> self@.fields.contains_key(field),
            r matches Some(s) ==> s@ == self@.fields[field],
    {
        if let FieldID::AMPS_Unknown_Field = field {
            return None;
        }
        let k = cast(field) as usize;
        match &self.slots[k] {
            Some(s) => Some(s.clone()),
            None => None,
        }
    }

    /// The payload bytes.
    pub fn payload(&self) -> (r: &[u8])
        ensures
            r@ == self@.payload,
    {
        self.payload.as_slice()
    }

    /// The payload bytes, taken out of the message.
    pub fn into_payload(self) -> (r: Vec<u8>)
        ensures
            r@ == self@.payload,
    {
        self.payload
    }

    /// The wire frame of this message.
    pub fn to_frame(&self) -> (r: Vec<u8>)
        requires
            self.wf(),
        ensures
            r@ == frame_of(self@),
    {
        let mut out: Vec<u8> = Vec::new();
        let mut k: usize = 0;
        while k < N_FIELDS
            invariant
                self.wf(),
                k <= N_FIELDS,
                out@ == records_upto(self@.fields, k as nat),
            decreases N_FIELDS - k,
        {
            let ghost f = field_at(k as int);
            proof {
                crate::field::lemma_wire_id_field_at(k as int);
            }
            match &self.slots[k] {
                Some(s) => {
                    let fk = match field_of_tag(k as u8) {
                        Some(fk) => fk,
                        None => FieldID::AMPS_Unknown_Field,
                    };
                    assert(self.slots@[k as int] is Some);
                    push_record(&mut out, fk, s.as_str().as_bytes());
                    assert(self@.fields.contains_key(f));
                },
                None => {
                    assert(!self@.fields.contains_key(f));
                },
            }
            k += 1;
            assert(out@ == records_upto(self@.fields, k as nat));
        }
        out.push(FIELDS_END);
        let n = self.payload.len();
        out.push((n / 16777216) as u8);
        out.push(((n / 65536) % 256) as u8);
        out.push(((n / 256) % 256) as u8);
        out.push((n % 256) as u8);
        append_range(&mut out, self.payload.as_slice(), 0, n);
        assert(self.payload@.subrange(0, n as int) == self.payload@);
        out
    }

    pub(crate) fn has_field(&self, field: FieldID) -> (r: bool)
        requires
            self.wf(),
            is_known(field),
        ensures
            r == self@.fields.contains_key(field),
    {
        let k = cast(field) as usize;
        self.slots[k].is_some()
    }

    /// Reads a message from its wire frame.
    pub fn from_frame(b: &[u8]) -> (r: Result<Message, AmpsError>)
        ensures
            match r {
                Ok(m) => m.wf() && parse_frame(b@) == Ok::<MessageView, AmpsError>(m@),
                Err(e) => parse_frame(b@) == Err::<MessageView, AmpsError>(e),
            },
    {
        let mut msg = Message::empty();
        let mut pos: usize = 0;
        loop
            invariant
                msg.wf(),
                pos <= b@.len(),
                msg@.payload == Seq::<u8>::empty(),
                fields_from(b@, pos as int, msg@.fields) == fields_from(b@, 0, Map::empty()),
            decreases b@.len() - pos,
        {
            if pos >= b.len() {
                return Err(AmpsError::MalformedFrame);
            }
            if b[pos] == FIELDS_END {
                pos = pos + 1;
                return Self::with_payload_at(msg, b, pos);
            }
            match read_record(b, pos) {
                Ok((f, s, end)) => {
                    if msg.has_field(f) {
                        return Err(AmpsError::MalformedFrame);
                    }
                    msg.put(f, s);
                    pos = end;
                },
                Err(e) => return Err(e),
            }
        }
    }

    /// Completes a frame read: the payload section at `pos` goes into `msg`.
    fn with_payload_at(msg: Message, b: &[u8], pos: usize) -> (r: Result<Message, AmpsError>)
        requires
            msg.wf(),
            pos <= b@.len(),
            fields_from(b@, 0, Map::empty()) == Ok::<_, AmpsError>((msg@.fields, pos as int)),
        ensures
            match r {
                Ok(m) => m.wf() && parse_frame(b@) == Ok::<MessageView, AmpsError>(m@),
                Err(e) => parse_frame(b@) == Err::<MessageView, AmpsError>(e),
            },
    {
        if b.len() - pos < 4 {
            return Err(AmpsError::MalformedFrame);
        }
        let n: u64 = (b[pos] as u64) * 16777216 + (b[pos + 1] as u64) * 65536 + (b[pos + 2] as u64)
            * 256 + (b[pos + 3] as u64);
        if (b.len() - pos - 4) as u64 != n {
            return Err(AmpsError::MalformedFrame);
        }
        let mut payload: Vec<u8> = Vec::new();
        append_range(&mut payload, b, pos + 4, b.len());
        let mut m = msg;
        m.payload = payload;
        Ok(m)
    }
}

/// Builds one outbound message. A builder is single-use: once `finalize` has
/// succeeded, every later call fails with `AlreadyFinalized`.
pub struct MessageBuilder {
    msg: Message,
    finalized: bool,
}

impl View for MessageBuilder {
    type V = MessageView;

    closed spec fn view(&self) -> MessageView {
        self.msg@
    }
}

impl MessageBuilder {
    pub closed spec fn wf(&self) -> bool {
        &&& self.msg.wf()
        &&& self.finalized ==> self.msg@.fields.contains_key(FieldID::AMPS_Command)
    }

    pub closed spec fn is_finalized(&self) -> bool {
        self.finalized
    }

    /// A builder with no field and an empty payload.
    pub fn new() -> (r: MessageBuilder)
        ensures
            r.wf(),
            !r.is_finalized(),
            r@.fields == Map::<FieldID, Seq<char>>::empty(),
            r@.payload == Seq::<u8>::empty(),
    {
        MessageBuilder { msg: Message::empty(), finalized: false }
    }

    /// Sets `field` to `value`, replacing an earlier value of the same field.
    pub fn set_field(&mut self, field: FieldID, value: &str) -> (r: Result<(), AmpsError>)
        requires
            old(self).wf(),
        ensures
            final(self).wf(),
            final(self).is_finalized() == old(self).is_finalized(),
            old(self).is_finalized() ==> r == Err::<(), AmpsError>(AmpsError::AlreadyFinalized),
            !old(self).is_finalized() && !is_known(field) ==> r == Err::<(), AmpsError>(
                AmpsError::UnknownField,
            ),
            !old(self).is_finalized() && is_known(field) && encode_utf8(value@).len()
                > MAX_FIELD_LEN ==> r == Err::<(), AmpsError>(AmpsError::FieldTooLong),
            r is Err ==> final(self)@ == old(self)@,
            r is Ok ==> final(self)@ == with_field(old(self)@, field, value@),
            r is Ok <==> !old(self).is_finalized() && is_known(field) && encode_utf8(value@).len()
                <= MAX_FIELD_LEN,
    {
        if self.finalized {
            return Err(AmpsError::AlreadyFinalized);
        }
        if let FieldID::AMPS_Unknown_Field = field {
            return Err(AmpsError::UnknownField);
        }
        if value.as_bytes().len() > MAX_FIELD_LEN {
            return Err(AmpsError::FieldTooLong);
        }
        self.msg.put(field, value.to_owned());
        Ok(())
    }

    /// Sets the payload to exactly the bytes of `bytes`.
    pub fn set_payload(&mut self, bytes: &[u8]) -> (r: Result<(), AmpsError>)
        requires
            old(self).wf(),
        ensures
            final(self).wf(),
            final(self).is_finalized() == old(self).is_finalized(),
            old(self).is_finalized() ==> r == Err::<(), AmpsError>(AmpsError::AlreadyFinalized),
            !old(self).is_finalized() && bytes@.len() > MAX_PAYLOAD_LEN ==> r == Err::<
                (),
                AmpsError,
            >(AmpsError::FieldTooLong),
            r is Err ==> final(self)@ == old(self)@,
            r is Ok ==> final(self)@ == (MessageView {
                fields: old(self)@.fields,
                payload: bytes@,
            }),
            r is Ok <==> !old(self).is_finalized() && bytes@.len() <= MAX_PAYLOAD_LEN,
    {
        if self.finalized {
            return Err(AmpsError::AlreadyFinalized);
        }
        if bytes.len() > MAX_PAYLOAD_LEN {
            return Err(AmpsError::FieldTooLong);
        }
        let mut payload: Vec<u8> = Vec::new();
        append_range(&mut payload, bytes, 0, bytes.len());
        assert(bytes@.subrange(0, bytes@.len() as int) == bytes@);
        self.msg.payload = payload;
        Ok(())
    }

    /// Hands out the built message; fails without a Command field.
    pub fn finalize(&mut self) -> (r: Result<Message, AmpsError>)
        requires
            old(self).wf(),
        ensures
            final(self).wf(),
            final(self)@ == old(self)@,
            !old(self)@.fields.contains_key(FieldID::AMPS_Command) ==> r == Err::<Message, AmpsError>(
                AmpsError::MissingCommand,
            ) && !final(self).is_finalized(),
            old(self).is_finalized() ==> r == Err::<Message, AmpsError>(AmpsError::AlreadyFinalized)
                && final(self).is_finalized(),
            r is Ok <==> !old(self).is_finalized() && old(self)@.fields.contains_key(
                FieldID::AMPS_Command,
            ),
            r matches Ok(m) ==> m.wf() && m@ == old(self)@ && final(self).is_finalized(),
    {
        if !self.msg.has_field(FieldID::AMPS_Command) {
            return Err(AmpsError::MissingCommand);
        }
        if self.finalized {
            return Err(AmpsError::AlreadyFinalized);
        }
        self.finalized = true;
        let slots = self.msg.slots.clone();
        let payload = self.msg.payload.clone();
        Ok(Message { slots, payload })
    }
}

} // verus!
