//! The messages of the session protocol and how each is laid out in
//! fields. A field that holds its default value (no text, no bytes, zero) is
//! not written; a field that is missing reads as its default; where a field
//! occurs more than once, the last occurrence stands; fields with unknown
//! numbers are passed over, whatever their kind, and so are groups.

use vstd::prelude::*;
use vstd::utf8::{decode_utf8, encode_utf8, valid_utf8};
use crate::actor::refs::ActorRefErr;
use crate::remote::net::wire::{
    encode_fields, fields_view, lemma_encode_fields_concat, lemma_message_fields_round_trip, message_fields,
    read_message_fields, write_bytes_field, write_varint_field, Field, FieldValue, WireField, WireValue,
    MAX_FIELD_NUMBER,
};

verus! {

/// Why a message could not be put on the wire.
#[derive(Debug, Clone, Copy, PartialEq, Eq, Structural)]
pub enum MessageWrapErr {
    NotTransmittable,
    SerializationErr,
}

/// Why bytes from the wire could not be read as a message.
#[derive(Debug, Clone, Copy, PartialEq, Eq, Structural)]
pub enum MessageUnwrapErr {
    NotTransmittable,
    DeserializationErr,
}

impl MessageWrapErr {
    /// The error as the sender of the message sees it.
    pub fn into_ref_err(self) -> (e: ActorRefErr)
        ensures
            e == (match self {
                MessageWrapErr::NotTransmittable => ActorRefErr::NotSupported,
                MessageWrapErr::SerializationErr => ActorRefErr::SerializationErr,
            }),
    {
        match self {
            MessageWrapErr::NotTransmittable => ActorRefErr::NotSupported,
            MessageWrapErr::SerializationErr => ActorRefErr::SerializationErr,
        }
    }
}

impl MessageUnwrapErr {
    /// The error as the sender of the message sees it.
    pub fn into_ref_err(self) -> (e: ActorRefErr)
        ensures
            e == (match self {
                MessageUnwrapErr::NotTransmittable => ActorRefErr::NotSupported,
                MessageUnwrapErr::DeserializationErr => ActorRefErr::DeserializationErr,
            }),
    {
        match self {
            MessageUnwrapErr::NotTransmittable => ActorRefErr::NotSupported,
            MessageUnwrapErr::DeserializationErr => ActorRefErr::DeserializationErr,
        }
    }
}

/// Calls `String::from_utf8` on a copy of `bytes`: the text that `bytes`
/// encode, where they are valid UTF-8, and nothing where they are not.
#[verifier::external_body]
pub(crate) fn text_from_utf8(bytes: &[u8]) -> (text: Option<String>)
    ensures
        match text {
            Some(t) => valid_utf8(bytes@) && t@ == decode_utf8(bytes@),
            None => !valid_utf8(bytes@),
        },
{
    match String::from_utf8(bytes.to_vec()) {
        Ok(text) => Some(text),
        Err(_) => None,
    }
}

/// The field list of a text field: the UTF-8 bytes of `text` under
/// `number`, or no field for the empty text.
pub open spec fn text_field(number: u32, text: Seq<char>) -> Seq<Field> {
    if text.len() == 0 {
        Seq::empty()
    } else {
        seq![Field { number, value: FieldValue::Bytes(encode_utf8(text)) }]
    }
}

/// The field list of a bytes field: `bytes` under `number`, or no field for
/// no bytes.
pub open spec fn bytes_field(number: u32, bytes: Seq<u8>) -> Seq<Field> {
    if bytes.len() == 0 {
        Seq::empty()
    } else {
        seq![Field { number, value: FieldValue::Bytes(bytes) }]
    }
}

/// The field list of an integer field: `value` under `number`, or no field
/// for zero.
pub open spec fn number_field(number: u32, value: u64) -> Seq<Field> {
    if value == 0 {
        Seq::empty()
    } else {
        seq![Field { number, value: FieldValue::Varint(value) }]
    }
}

/// The field list of an optional nested message: its encoding under
/// `number` where there is one, even if that encoding is empty.
pub open spec fn nested_field(number: u32, encoded: Option<Seq<u8>>) -> Seq<Field> {
    match encoded {
        Some(bytes) => seq![Field { number, value: FieldValue::Bytes(bytes) }],
        None => Seq::empty(),
    }
}

/// The value of the last field numbered `number`, if there is one.
pub open spec fn last_value(fields: Seq<Field>, number: u32) -> Option<FieldValue>
    decreases fields.len(),
{
    if fields.len() == 0 {
        None
    } else if fields.last().number == number {
        Some(fields.last().value)
    } else {
        last_value(fields.drop_last(), number)
    }
}

/// The text under `number`: empty where the field is missing; nothing
/// where the field is not bytes or the bytes are not UTF-8.
pub open spec fn text_of(fields: Seq<Field>, number: u32) -> Option<Seq<char>> {
    match last_value(fields, number) {
        None => Some(Seq::empty()),
        Some(FieldValue::Bytes(bytes)) => if valid_utf8(bytes) {
            Some(decode_utf8(bytes))
        } else {
            None
        },
        Some(_) => None,
    }
}

/// The bytes under `number`: empty where the field is missing; nothing
/// where the field is an integer.
pub open spec fn bytes_of(fields: Seq<Field>, number: u32) -> Option<Seq<u8>> {
    match last_value(fields, number) {
        None => Some(Seq::empty()),
        Some(FieldValue::Bytes(bytes)) => Some(bytes),
        Some(_) => None,
    }
}

/// The integer under `number`: zero where the field is missing; nothing
/// where the field is bytes.
pub open spec fn number_of(fields: Seq<Field>, number: u32) -> Option<u64> {
    match last_value(fields, number) {
        None => Some(0),
        Some(FieldValue::Varint(v)) => Some(v),
        Some(_) => None,
    }
}

/// The encoding of the nested message under `number`, where there is one;
/// the outer `None` where the field is an integer.
pub open spec fn nested_of(fields: Seq<Field>, number: u32) -> Option<Option<Seq<u8>>> {
    match last_value(fields, number) {
        None => Some(None),
        Some(FieldValue::Bytes(bytes)) => Some(Some(bytes)),
        Some(_) => None,
    }
}

/// Every field in `fields` can be written, and none opens or closes a
/// group.
pub open spec fn all_wf(fields: Seq<Field>) -> bool {
    forall|i: int| 0 <= i < fields.len() ==> (#[trigger] fields[i]).wf() && !fields[i].is_mark()
}

/// A lookup in two field lists joined looks in the second first.
pub proof fn lemma_last_value_concat(a: Seq<Field>, b: Seq<Field>, number: u32)
    ensures
        last_value(a + b, number) == (match last_value(b, number) {
            Some(v) => Some(v),
            None => last_value(a, number),
        }),
    decreases b.len(),
{
    if b.len() == 0 {
        assert(a + b =~= a);
    } else {
        assert((a + b).last() == b.last());
        assert((a + b).drop_last() =~= a + b.drop_last());
        lemma_last_value_concat(a, b.drop_last(), number);
    }
}

/// A lookup in the field list of one field finds that field under its own
/// number and nothing under any other.
pub proof fn lemma_last_value_single(slot: Seq<Field>, own: u32, number: u32)
    requires
        slot.len() <= 1,
        forall|i: int| 0 <= i < slot.len() ==> (#[trigger] slot[i]).number == own,
    ensures
        last_value(slot, number) == (if number == own && slot.len() == 1 {
            Some(slot[0].value)
        } else {
            None
        }),
{
    reveal_with_fuel(last_value, 3);
    if slot.len() == 1 {
        assert(slot.last() == slot[0]);
        assert(slot.drop_last().len() == 0);
    }
}

proof fn lemma_all_wf_concat(a: Seq<Field>, b: Seq<Field>)
    requires
        all_wf(a),
        all_wf(b),
    ensures
        all_wf(a + b),
{
    assert forall|i: int| 0 <= i < (a + b).len() implies (#[trigger] (a + b)[i]).wf() by {
        if i < a.len() {
            assert((a + b)[i] == a[i]);
        } else {
            assert((a + b)[i] == b[i - a.len()]);
        }
    }
}

fn find_last(fields: &Vec<WireField>, number: u32) -> (found: Option<usize>)
    ensures
        match found {
            Some(i) => i < fields@.len() && last_value(fields_view(fields@), number) == Some(
                fields@[i as int]@.value,
            ),
            None => last_value(fields_view(fields@), number) is None,
        },
{
    let ghost all = fields_view(fields@);
    let mut i: usize = fields.len();
    proof {
        assert(all.take(i as int) =~= all);
    }
    while i > 0
        invariant
            i <= fields@.len(),
            all == fields_view(fields@),
            last_value(all, number) == last_value(all.take(i as int), number),
        decreases i,
    {
        proof {
            assert(all.take(i as int).last() == all[i - 1]);
            assert(all.take(i as int).drop_last() =~= all.take(i - 1));
        }
        if fields[i - 1].number == number {
            return Some(i - 1);
        }
        i -= 1;
    }
    None
}

fn copy_bytes(bytes: &Vec<u8>) -> (copy: Vec<u8>)
    ensures
        copy@ == bytes@,
{
    let mut copy: Vec<u8> = Vec::new();
    let mut i: usize = 0;
    while i < bytes.len()
        invariant
            i <= bytes@.len(),
            copy@ == bytes@.take(i as int),
        decreases bytes@.len() - i,
    {
        copy.push(bytes[i]);
        assert(copy@ =~= bytes@.take(i + 1));
        i += 1;
    }
    assert(bytes@.take(i as int) =~= bytes@);
    copy
}

/// Reads the text under `number`, as [`text_of`] says.
pub fn text_in(fields: &Vec<WireField>, number: u32) -> (text: Option<String>)
    ensures
        match text {
            Some(t) => text_of(fields_view(fields@), number) == Some(t@),
            None => text_of(fields_view(fields@), number) is None,
        },
{
    match find_last(fields, number) {
        None => Some(String::new()),
        Some(i) => match &fields[i].value {
            WireValue::Bytes(bytes) => text_from_utf8(bytes.as_slice()),
            _ => None,
        },
    }
}

/// Reads the bytes under `number`, as [`bytes_of`] says.
pub fn bytes_in(fields: &Vec<WireField>, number: u32) -> (bytes: Option<Vec<u8>>)
    ensures
        match bytes {
            Some(b) => bytes_of(fields_view(fields@), number) == Some(b@),
            None => bytes_of(fields_view(fields@), number) is None,
        },
{
    match find_last(fields, number) {
        None => Some(Vec::new()),
        Some(i) => match &fields[i].value {
            WireValue::Bytes(bytes) => Some(copy_bytes(bytes)),
            _ => None,
        },
    }
}

/// Reads the integer under `number`, as [`number_of`] says.
pub fn number_in(fields: &Vec<WireField>, number: u32) -> (value: Option<u64>)
    ensures
        value == number_of(fields_view(fields@), number),
{
    match find_last(fields, number) {
        None => Some(0),
        Some(i) => match &fields[i].value {
            WireValue::Varint(v) => Some(*v),
            _ => None,
        },
    }
}

/// Reads the nested message under `number`, as [`nested_of`] says.
pub fn nested_in(fields: &Vec<WireField>, number: u32) -> (nested: Option<Option<Vec<u8>>>)
    ensures
        match nested {
            Some(Some(b)) => nested_of(fields_view(fields@), number) == Some(Some(b@)),
            Some(None) => nested_of(fields_view(fields@), number) == Some(None::<Seq<u8>>),
            None => nested_of(fields_view(fields@), number) is None,
        },
{
    match find_last(fields, number) {
        None => Some(None),
        Some(i) => match &fields[i].value {
            WireValue::Bytes(bytes) => Some(Some(copy_bytes(bytes))),
            _ => None,
        },
    }
}

/// Appends the text field `number` to `out`.
pub fn write_text(out: &mut Vec<u8>, number: u32, text: &str)
    requires
        1 <= number <= MAX_FIELD_NUMBER,
    ensures
        final(out)@ == old(out)@ + encode_fields(text_field(number, text@)),
        encode_utf8(text@).len() <= usize::MAX,
{
    reveal_with_fuel(encode_fields, 3);
    let bytes = text.as_bytes();
    proof {
        vstd::utf8::encode_utf8_decode_utf8(text@);
        if text@.len() == 0 {
            assert(encode_utf8(text@).len() == 0);
        } else {
            if bytes@.len() == 0 {
                assert(decode_utf8(bytes@).len() == 0);
            }
        }
    }
    if bytes.len() > 0 {
        write_bytes_field(out, number, bytes);
        proof {
            let f = text_field(number, text@);
            assert(f.drop_first().len() == 0);
            assert(encode_fields(f) =~= f[0].encode());
        }
    } else {
        assert(out@ =~= old(out)@ + encode_fields(text_field(number, text@)));
    }
}

/// Appends the bytes field `number` to `out`.
pub fn write_bytes(out: &mut Vec<u8>, number: u32, bytes: &[u8])
    requires
        1 <= number <= MAX_FIELD_NUMBER,
    ensures
        final(out)@ == old(out)@ + encode_fields(bytes_field(number, bytes@)),
{
    reveal_with_fuel(encode_fields, 3);
    if bytes.len() > 0 {
        write_bytes_field(out, number, bytes);
        proof {
            let f = bytes_field(number, bytes@);
            assert(f.drop_first().len() == 0);
            assert(encode_fields(f) =~= f[0].encode());
        }
    } else {
        assert(out@ =~= old(out)@ + encode_fields(bytes_field(number, bytes@)));
    }
}

/// Appends the integer field `number` to `out`.
pub fn write_number(out: &mut Vec<u8>, number: u32, value: u64)
    requires
        1 <= number <= MAX_FIELD_NUMBER,
    ensures
        final(out)@ == old(out)@ + encode_fields(number_field(number, value)),
{
    reveal_with_fuel(encode_fields, 3);
    if value != 0 {
        write_varint_field(out, number, value);
        proof {
            let f = number_field(number, value);
            assert(f.drop_first().len() == 0);
            assert(encode_fields(f) =~= f[0].encode());
        }
    } else {
        assert(out@ =~= old(out)@ + encode_fields(number_field(number, value)));
    }
}

/// Appends the nested message `encoded`, if there is one, as field
/// `number` to `out`.
pub fn write_nested(out: &mut Vec<u8>, number: u32, encoded: &Option<Vec<u8>>)
    requires
        1 <= number <= MAX_FIELD_NUMBER,
    ensures
        final(out)@ == old(out)@ + encode_fields(
            nested_field(
                number,
                match *encoded {
                    Some(bytes) => Some(bytes@),
                    None => None,
                },
            ),
        ),
{
    reveal_with_fuel(encode_fields, 3);
    match encoded {
        Some(bytes) => {
            write_bytes_field(out, number, bytes.as_slice());
            proof {
                let f = nested_field(number, Some(bytes@));
                assert(f.drop_first().len() == 0);
                assert(encode_fields(f) =~= f[0].encode());
            }
        },
        None => {
            assert(out@ =~= old(out)@ + encode_fields(nested_field(number, None)));
        },
    }
}

/// What a lookup finds in the field list of a text field, and that the
/// text reads back from its bytes.
pub proof fn lemma_text_slot(own: u32, text: Seq<char>)
    requires
        1 <= own <= MAX_FIELD_NUMBER,
        encode_utf8(text).len() <= u64::MAX,
    ensures
        all_wf(text_field(own, text)),
        valid_utf8(encode_utf8(text)),
        decode_utf8(encode_utf8(text)) == text,
        forall|number: u32| #[trigger]
            last_value(text_field(own, text), number) == (if number == own && text.len() > 0 {
                Some(FieldValue::Bytes(encode_utf8(text)))
            } else {
                None
            }),
{
    vstd::utf8::encode_utf8_valid_utf8(text);
    vstd::utf8::encode_utf8_decode_utf8(text);
    assert forall|number: u32| #[trigger]
        last_value(text_field(own, text), number) == (if number == own && text.len() > 0 {
            Some(FieldValue::Bytes(encode_utf8(text)))
        } else {
            None
        }) by {
        lemma_last_value_single(text_field(own, text), own, number);
    }
}

/// What a lookup finds in the field list of a bytes field.
pub proof fn lemma_bytes_slot(own: u32, bytes: Seq<u8>)
    requires
        1 <= own <= MAX_FIELD_NUMBER,
        bytes.len() <= u64::MAX,
    ensures
        all_wf(bytes_field(own, bytes)),
        forall|number: u32| #[trigger]
            last_value(bytes_field(own, bytes), number) == (if number == own && bytes.len() > 0 {
                Some(FieldValue::Bytes(bytes))
            } else {
                None
            }),
{
    assert forall|number: u32| #[trigger]
        last_value(bytes_field(own, bytes), number) == (if number == own && bytes.len() > 0 {
            Some(FieldValue::Bytes(bytes))
        } else {
            None
        }) by {
        lemma_last_value_single(bytes_field(own, bytes), own, number);
    }
}

/// What a lookup finds in the field list of an integer field.
pub proof fn lemma_number_slot(own: u32, value: u64)
    requires
        1 <= own <= MAX_FIELD_NUMBER,
    ensures
        all_wf(number_field(own, value)),
        forall|number: u32| #[trigger]
            last_value(number_field(own, value), number) == (if number == own && value != 0 {
                Some(FieldValue::Varint(value))
            } else {
                None
            }),
{
    assert forall|number: u32| #[trigger]
        last_value(number_field(own, value), number) == (if number == own && value != 0 {
            Some(FieldValue::Varint(value))
        } else {
            None
        }) by {
        lemma_last_value_single(number_field(own, value), own, number);
    }
}

/// What a lookup finds in the field list of a nested message.
pub proof fn lemma_nested_slot(own: u32, encoded: Option<Seq<u8>>)
    requires
        1 <= own <= MAX_FIELD_NUMBER,
        encoded.is_some() ==> encoded.unwrap().len() <= u64::MAX,
    ensures
        all_wf(nested_field(own, encoded)),
        forall|number: u32| #[trigger]
            last_value(nested_field(own, encoded), number) == (if number == own
                && encoded.is_some() {
                Some(FieldValue::Bytes(encoded.unwrap()))
            } else {
                None
            }),
{
    assert forall|number: u32| #[trigger]
        last_value(nested_field(own, encoded), number) == (if number == own && encoded.is_some() {
            Some(FieldValue::Bytes(encoded.unwrap()))
        } else {
            None
        }) by {
        lemma_last_value_single(nested_field(own, encoded), own, number);
    }
}

/// Joining two field lists keeps them writable, and a lookup in the joined
/// list looks in the second list first.
pub proof fn lemma_join(a: Seq<Field>, b: Seq<Field>)
    requires
        all_wf(a),
        all_wf(b),
    ensures
        all_wf(a + b),
        forall|number: u32| #[trigger]
            last_value(a + b, number) == (match last_value(b, number) {
                Some(v) => Some(v),
                None => last_value(a, number),
            }),
{
    lemma_all_wf_concat(a, b);
    assert forall|number: u32| #[trigger]
        last_value(a + b, number) == (match last_value(b, number) {
            Some(v) => Some(v),
            None => last_value(a, number),
        }) by {
        lemma_last_value_concat(a, b, number);
    }
}

/// Asks the peer whether it is alive.
#[derive(Debug, Clone, PartialEq, Eq)]
pub struct Ping {
    pub message_id: String,
}

/// A [`Ping`] as plain values.
pub struct PingView {
    pub message_id: Seq<char>,
}

impl Ping {
    pub open spec fn view(&self) -> PingView {
        PingView { message_id: self.message_id@ }
    }

    /// The fields of the message, in the order in which they are written.
    pub open spec fn fields(m: PingView) -> Seq<Field> {
        text_field(1, m.message_id)
    }

    /// The message on the wire.
    pub open spec fn encoding(m: PingView) -> Seq<u8> {
        encode_fields(Self::fields(m))
    }

    /// The message that `fields` make up; nothing where a field of the
    /// message has the wrong kind of value or holds bytes that are not text.
    pub open spec fn from_fields(fields: Seq<Field>) -> Option<PingView> {
        match text_of(fields, 1) {
            Some(message_id) => Some(PingView { message_id }),
            _ => None,
        }
    }

    /// The message that `bytes` encode, if they encode one.
    pub open spec fn decoding(bytes: Seq<u8>) -> Option<PingView> {
        match message_fields(bytes) {
            Some(fields) => Self::from_fields(fields),
            None => None,
        }
    }

    /// Every text of the message is short enough for its length to be
    /// written.
    pub open spec fn fits(m: PingView) -> bool {
        encode_utf8(m.message_id).len() <= u64::MAX
    }

    /// Writes the message.
    pub fn write_to_bytes(&self) -> (bytes: Vec<u8>)
        ensures
            bytes@ == Self::encoding(self@),
            Self::fits(self@),
            Self::decoding(bytes@) == Some(self@),
    {
        let mut bytes: Vec<u8> = Vec::new();
        write_text(&mut bytes, 1, self.message_id.as_str());
        proof {
            assert(bytes@ =~= Self::encoding(self@));
            Self::lemma_round_trip(self@);
        }
        bytes
    }

    /// Reads a message. This succeeds exactly when `bytes` encode one.
    pub fn parse_from_bytes(bytes: &[u8]) -> (r: Result<Ping, MessageUnwrapErr>)
        ensures
            match r {
                Ok(m) => Self::decoding(bytes@) == Some(m@),
                Err(e) => Self::decoding(bytes@) is None && e
                    == MessageUnwrapErr::DeserializationErr,
            },
    {
        let fields = match read_message_fields(bytes) {
            Some(fields) => fields,
            None => {
                return Err(MessageUnwrapErr::DeserializationErr);
            },
        };
        let message_id = match text_in(&fields, 1) {
            Some(message_id) => message_id,
            None => {
                return Err(MessageUnwrapErr::DeserializationErr);
            },
        };
        Ok(Ping { message_id })
    }

    /// What is written is read back as it was.
    pub proof fn lemma_round_trip(m: PingView)
        requires
            Self::fits(m),
        ensures
            Self::decoding(Self::encoding(m)) == Some(m),
    {
        lemma_text_slot(1, m.message_id);
        lemma_message_fields_round_trip(Self::fields(m));
    }
}
/// The answer to a [`Ping`], under the same identifier.
#[derive(Debug, Clone, PartialEq, Eq)]
pub struct Pong {
    pub message_id: String,
}

/// A [`Pong`] as plain values.
pub struct PongView {
    pub message_id: Seq<char>,
}

impl Pong {
    pub open spec fn view(&self) -> PongView {
        PongView { message_id: self.message_id@ }
    }

    /// The fields of the message, in the order in which they are written.
    pub open spec fn fields(m: PongView) -> Seq<Field> {
        text_field(1, m.message_id)
    }

    /// The message on the wire.
    pub open spec fn encoding(m: PongView) -> Seq<u8> {
        encode_fields(Self::fields(m))
    }

    /// The message that `fields` make up; nothing where a field of the
    /// message has the wrong kind of value or holds bytes that are not text.
    pub open spec fn from_fields(fields: Seq<Field>) -> Option<PongView> {
        match text_of(fields, 1) {
            Some(message_id) => Some(PongView { message_id }),
            _ => None,
        }
    }

    /// The message that `bytes` encode, if they encode one.
    pub open spec fn decoding(bytes: Seq<u8>) -> Option<PongView> {
        match message_fields(bytes) {
            Some(fields) => Self::from_fields(fields),
            None => None,
        }
    }

    /// Every text of the message is short enough for its length to be
    /// written.
    pub open spec fn fits(m: PongView) -> bool {
        encode_utf8(m.message_id).len() <= u64::MAX
    }

    /// Writes the message.
    pub fn write_to_bytes(&self) -> (bytes: Vec<u8>)
        ensures
            bytes@ == Self::encoding(self@),
            Self::fits(self@),
            Self::decoding(bytes@) == Some(self@),
    {
        let mut bytes: Vec<u8> = Vec::new();
        write_text(&mut bytes, 1, self.message_id.as_str());
        proof {
            assert(bytes@ =~= Self::encoding(self@));
            Self::lemma_round_trip(self@);
        }
        bytes
    }

    /// Reads a message. This succeeds exactly when `bytes` encode one.
    pub fn parse_from_bytes(bytes: &[u8]) -> (r: Result<Pong, MessageUnwrapErr>)
        ensures
            match r {
                Ok(m) => Self::decoding(bytes@) == Some(m@),
                Err(e) => Self::decoding(bytes@) is None && e
                    == MessageUnwrapErr::DeserializationErr,
            },
    {
        let fields = match read_message_fields(bytes) {
            Some(fields) => fields,
            None => {
                return Err(MessageUnwrapErr::DeserializationErr);
            },
        };
        let message_id = match text_in(&fields, 1) {
            Some(message_id) => message_id,
            None => {
                return Err(MessageUnwrapErr::DeserializationErr);
            },
        };
        Ok(Pong { message_id })
    }

    /// What is written is read back as it was.
    pub proof fn lemma_round_trip(m: PongView)
        requires
            Self::fits(m),
        ensures
            Self::decoding(Self::encoding(m)) == Some(m),
    {
        lemma_text_slot(1, m.message_id);
        lemma_message_fields_round_trip(Self::fields(m));
    }
}
/// Asks the directory node which node hosts an actor.
#[derive(Debug, Clone, PartialEq, Eq)]
pub struct FindActor {
    pub message_id: String,
    pub actor_id: String,
    pub trace_id: String,
}

/// A [`FindActor`] as plain values.
pub struct FindActorView {
    pub message_id: Seq<char>,
    pub actor_id: Seq<char>,
    pub trace_id: Seq<char>,
}

impl FindActor {
    pub open spec fn view(&self) -> FindActorView {
        FindActorView { message_id: self.message_id@, actor_id: self.actor_id@, trace_id: self.trace_id@ }
    }

    /// The fields of the message, in the order in which they are written.
    pub open spec fn fields(m: FindActorView) -> Seq<Field> {
        text_field(1, m.message_id) + text_field(2, m.actor_id) + text_field(3, m.trace_id)
    }

    /// The message on the wire.
    pub open spec fn encoding(m: FindActorView) -> Seq<u8> {
        encode_fields(Self::fields(m))
    }

    /// The message that `fields` make up; nothing where a field of the
    /// message has the wrong kind of value or holds bytes that are not text.
    pub open spec fn from_fields(fields: Seq<Field>) -> Option<FindActorView> {
        match (text_of(fields, 1), text_of(fields, 2), text_of(fields, 3)) {
            (Some(message_id), Some(actor_id), Some(trace_id)) => Some(FindActorView { message_id, actor_id, trace_id }),
            _ => None,
        }
    }

    /// The message that `bytes` encode, if they encode one.
    pub open spec fn decoding(bytes: Seq<u8>) -> Option<FindActorView> {
        match message_fields(bytes) {
            Some(fields) => Self::from_fields(fields),
            None => None,
        }
    }

    /// Every text of the message is short enough for its length to be
    /// written.
    pub open spec fn fits(m: FindActorView) -> bool {
        encode_utf8(m.message_id).len() <= u64::MAX && encode_utf8(m.actor_id).len() <= u64::MAX && encode_utf8(m.trace_id).len() <= u64::MAX
    }

    /// Writes the message.
    pub fn write_to_bytes(&self) -> (bytes: Vec<u8>)
        ensures
            bytes@ == Self::encoding(self@),
            Self::fits(self@),
            Self::decoding(bytes@) == Some(self@),
    {
        let mut bytes: Vec<u8> = Vec::new();
        write_text(&mut bytes, 1, self.message_id.as_str());
        write_text(&mut bytes, 2, self.actor_id.as_str());
        write_text(&mut bytes, 3, self.trace_id.as_str());
        proof {
            lemma_encode_fields_concat(text_field(1, self@.message_id), text_field(2, self@.actor_id));
            lemma_encode_fields_concat(text_field(1, self@.message_id) + text_field(2, self@.actor_id), text_field(3, self@.trace_id));
            assert(bytes@ =~= Self::encoding(self@));
            Self::lemma_round_trip(self@);
        }
        bytes
    }

    /// Reads a message. This succeeds exactly when `bytes` encode one.
    pub fn parse_from_bytes(bytes: &[u8]) -> (r: Result<FindActor, MessageUnwrapErr>)
        ensures
            match r {
                Ok(m) => Self::decoding(bytes@) == Some(m@),
                Err(e) => Self::decoding(bytes@) is None && e
                    == MessageUnwrapErr::DeserializationErr,
            },
    {
        let fields = match read_message_fields(bytes) {
            Some(fields) => fields,
            None => {
                return Err(MessageUnwrapErr::DeserializationErr);
            },
        };
        let message_id = match text_in(&fields, 1) {
            Some(message_id) => message_id,
            None => {
                return Err(MessageUnwrapErr::DeserializationErr);
            },
        };
        let actor_id = match text_in(&fields, 2) {
            Some(actor_id) => actor_id,
            None => {
                return Err(MessageUnwrapErr::DeserializationErr);
            },
        };
        let trace_id = match text_in(&fields, 3) {
            Some(trace_id) => trace_id,
            None => {
                return Err(MessageUnwrapErr::DeserializationErr);
            },
        };
        Ok(FindActor { message_id, actor_id, trace_id })
    }

    /// What is written is read back as it was.
    pub proof fn lemma_round_trip(m: FindActorView)
        requires
            Self::fits(m),
        ensures
            Self::decoding(Self::encoding(m)) == Some(m),
    {
        lemma_text_slot(1, m.message_id);
        lemma_text_slot(2, m.actor_id);
        lemma_text_slot(3, m.trace_id);
        lemma_join(text_field(1, m.message_id), text_field(2, m.actor_id));
        lemma_join(text_field(1, m.message_id) + text_field(2, m.actor_id), text_field(3, m.trace_id));
        lemma_message_fields_round_trip(Self::fields(m));
    }
}
/// Says which node hosts an actor. A node identifier of zero says that no
/// node is known to host it.
#[derive(Debug, Clone, PartialEq, Eq)]
pub struct ActorAddress {
    pub message_id: String,
    pub node_id: u64,
    pub actor_id: String,
}

/// A [`ActorAddress`] as plain values.
pub struct ActorAddressView {
    pub message_id: Seq<char>,
    pub node_id: u64,
    pub actor_id: Seq<char>,
}

impl ActorAddress {
    pub open spec fn view(&self) -> ActorAddressView {
        ActorAddressView { message_id: self.message_id@, node_id: self.node_id, actor_id: self.actor_id@ }
    }

    /// The fields of the message, in the order in which they are written.
    pub open spec fn fields(m: ActorAddressView) -> Seq<Field> {
        text_field(1, m.message_id) + number_field(2, m.node_id) + text_field(3, m.actor_id)
    }

    /// The message on the wire.
    pub open spec fn encoding(m: ActorAddressView) -> Seq<u8> {
        encode_fields(Self::fields(m))
    }

    /// The message that `fields` make up; nothing where a field of the
    /// message has the wrong kind of value or holds bytes that are not text.
    pub open spec fn from_fields(fields: Seq<Field>) -> Option<ActorAddressView> {
        match (text_of(fields, 1), number_of(fields, 2), text_of(fields, 3)) {
            (Some(message_id), Some(node_id), Some(actor_id)) => Some(ActorAddressView { message_id, node_id, actor_id }),
            _ => None,
        }
    }

    /// The message that `bytes` encode, if they encode one.
    pub open spec fn decoding(bytes: Seq<u8>) -> Option<ActorAddressView> {
        match message_fields(bytes) {
            Some(fields) => Self::from_fields(fields),
            None => None,
        }
    }

    /// Every text of the message is short enough for its length to be
    /// written.
    pub open spec fn fits(m: ActorAddressView) -> bool {
        encode_utf8(m.message_id).len() <= u64::MAX && encode_utf8(m.actor_id).len() <= u64::MAX
    }

    /// Writes the message.
    pub fn write_to_bytes(&self) -> (bytes: Vec<u8>)
        ensures
            bytes@ == Self::encoding(self@),
            Self::fits(self@),
            Self::decoding(bytes@) == Some(self@),
    {
        let mut bytes: Vec<u8> = Vec::new();
        write_text(&mut bytes, 1, self.message_id.as_str());
        write_number(&mut bytes, 2, self.node_id);
        write_text(&mut bytes, 3, self.actor_id.as_str());
        proof {
            lemma_encode_fields_concat(text_field(1, self@.message_id), number_field(2, self@.node_id));
            lemma_encode_fields_concat(text_field(1, self@.message_id) + number_field(2, self@.node_id), text_field(3, self@.actor_id));
            assert(bytes@ =~= Self::encoding(self@));
            Self::lemma_round_trip(self@);
        }
        bytes
    }

    /// Reads a message. This succeeds exactly when `bytes` encode one.
    pub fn parse_from_bytes(bytes: &[u8]) -> (r: Result<ActorAddress, MessageUnwrapErr>)
        ensures
            match r {
                Ok(m) => Self::decoding(bytes@) == Some(m@),
                Err(e) => Self::decoding(bytes@) is None && e
                    == MessageUnwrapErr::DeserializationErr,
            },
    {
        let fields = match read_message_fields(bytes) {
            Some(fields) => fields,
            None => {
                return Err(MessageUnwrapErr::DeserializationErr);
            },
        };
        let message_id = match text_in(&fields, 1) {
            Some(message_id) => message_id,
            None => {
                return Err(MessageUnwrapErr::DeserializationErr);
            },
        };
        let node_id = match number_in(&fields, 2) {
            Some(node_id) => node_id,
            None => {
                return Err(MessageUnwrapErr::DeserializationErr);
            },
        };
        let actor_id = match text_in(&fields, 3) {
            Some(actor_id) => actor_id,
            None => {
                return Err(MessageUnwrapErr::DeserializationErr);
            },
        };
        Ok(ActorAddress { message_id, node_id, actor_id })
    }

    /// What is written is read back as it was.
    pub proof fn lemma_round_trip(m: ActorAddressView)
        requires
            Self::fits(m),
        ensures
            Self::decoding(Self::encoding(m)) == Some(m),
    {
        lemma_text_slot(1, m.message_id);
        lemma_number_slot(2, m.node_id);
        lemma_text_slot(3, m.actor_id);
        lemma_join(text_field(1, m.message_id), number_field(2, m.node_id));
        lemma_join(text_field(1, m.message_id) + number_field(2, m.node_id), text_field(3, m.actor_id));
        lemma_message_fields_round_trip(Self::fields(m));
    }
}

/// What one node sends another over a session.
#[derive(Debug, Clone, PartialEq, Eq)]
pub enum SessionEvent {
    Ping(Ping),
    Pong(Pong),
    FindActor(FindActor),
    RegisterActor(ActorAddress),
}

/// A [`SessionEvent`] as plain values.
pub enum SessionEventView {
    Ping(PingView),
    Pong(PongView),
    FindActor(FindActorView),
    RegisterActor(ActorAddressView),
}

impl SessionEvent {
    pub open spec fn view(&self) -> SessionEventView {
        match self {
            SessionEvent::Ping(m) => SessionEventView::Ping(m@),
            SessionEvent::Pong(m) => SessionEventView::Pong(m@),
            SessionEvent::FindActor(m) => SessionEventView::FindActor(m@),
            SessionEvent::RegisterActor(m) => SessionEventView::RegisterActor(m@),
        }
    }

    /// The number of the field that carries an event of this kind.
    pub open spec fn kind(e: SessionEventView) -> u32 {
        match e {
            SessionEventView::Ping(_) => 1,
            SessionEventView::Pong(_) => 2,
            SessionEventView::FindActor(_) => 3,
            SessionEventView::RegisterActor(_) => 4,
        }
    }

    /// The message of the event on the wire.
    pub open spec fn payload(e: SessionEventView) -> Seq<u8> {
        match e {
            SessionEventView::Ping(m) => Ping::encoding(m),
            SessionEventView::Pong(m) => Pong::encoding(m),
            SessionEventView::FindActor(m) => FindActor::encoding(m),
            SessionEventView::RegisterActor(m) => ActorAddress::encoding(m),
        }
    }

    /// The event on the wire: one field, numbered by the kind of the event,
    /// that holds the message.
    pub open spec fn encoding(e: SessionEventView) -> Seq<u8> {
        encode_fields(nested_field(Self::kind(e), Some(Self::payload(e))))
    }

    /// The event that a message of kind `kind` with the bytes `payload`
    /// makes; nothing for an unknown kind or bytes that are no such message.
    pub open spec fn from_payload(kind: u32, payload: Seq<u8>) -> Option<SessionEventView> {
        if kind == 1 {
            match Ping::decoding(payload) {
                Some(m) => Some(SessionEventView::Ping(m)),
                None => None,
            }
        } else if kind == 2 {
            match Pong::decoding(payload) {
                Some(m) => Some(SessionEventView::Pong(m)),
                None => None,
            }
        } else if kind == 3 {
            match FindActor::decoding(payload) {
                Some(m) => Some(SessionEventView::FindActor(m)),
                None => None,
            }
        } else if kind == 4 {
            match ActorAddress::decoding(payload) {
                Some(m) => Some(SessionEventView::RegisterActor(m)),
                None => None,
            }
        } else {
            None
        }
    }

    /// The event that `bytes` encode: the one its last field carries.
    /// Nothing where `bytes` are no fields, hold no field, or the last field
    /// carries no message of a known kind.
    pub open spec fn decoding(bytes: Seq<u8>) -> Option<SessionEventView> {
        match message_fields(bytes) {
            None => None,
            Some(fields) => if fields.len() == 0 {
                None
            } else {
                match fields.last().value {
                    FieldValue::Bytes(payload) => Self::from_payload(fields.last().number, payload),
                    _ => None,
                }
            },
        }
    }

    /// The message of the event is short enough to be written.
    pub open spec fn fits(e: SessionEventView) -> bool {
        &&& Self::payload(e).len() <= u64::MAX
        &&& match e {
            SessionEventView::Ping(m) => Ping::fits(m),
            SessionEventView::Pong(m) => Pong::fits(m),
            SessionEventView::FindActor(m) => FindActor::fits(m),
            SessionEventView::RegisterActor(m) => ActorAddress::fits(m),
        }
    }

    /// What is written is read back as it was.
    pub proof fn lemma_round_trip(e: SessionEventView)
        requires
            Self::fits(e),
        ensures
            Self::decoding(Self::encoding(e)) == Some(e),
    {
        let fields = nested_field(Self::kind(e), Some(Self::payload(e)));
        lemma_nested_slot(Self::kind(e), Some(Self::payload(e)));
        lemma_message_fields_round_trip(fields);
        assert(fields.last() == fields[0]);
        match e {
            SessionEventView::Ping(m) => Ping::lemma_round_trip(m),
            SessionEventView::Pong(m) => Pong::lemma_round_trip(m),
            SessionEventView::FindActor(m) => FindActor::lemma_round_trip(m),
            SessionEventView::RegisterActor(m) => ActorAddress::lemma_round_trip(m),
        }
    }

    /// Writes the event.
    pub fn write_to_bytes(&self) -> (bytes: Vec<u8>)
        ensures
            bytes@ == Self::encoding(self@),
            Self::decoding(bytes@) == Some(self@),
    {
        let (kind, payload): (u32, Vec<u8>) = match self {
            SessionEvent::Ping(m) => (1, m.write_to_bytes()),
            SessionEvent::Pong(m) => (2, m.write_to_bytes()),
            SessionEvent::FindActor(m) => (3, m.write_to_bytes()),
            SessionEvent::RegisterActor(m) => (4, m.write_to_bytes()),
        };
        let nested = Some(payload);
        let mut bytes: Vec<u8> = Vec::new();
        write_nested(&mut bytes, kind, &nested);
        proof {
            assert(bytes@ =~= Self::encoding(self@));
            assert(nested.unwrap()@.len() == nested.unwrap().len());
            Self::lemma_round_trip(self@);
        }
        bytes
    }

    /// Reads an event. This succeeds exactly when `bytes` encode one.
    pub fn parse_from_bytes(bytes: &[u8]) -> (r: Result<SessionEvent, MessageUnwrapErr>)
        ensures
            match r {
                Ok(e) => Self::decoding(bytes@) == Some(e@),
                Err(e) => Self::decoding(bytes@) is None && e
                    == MessageUnwrapErr::DeserializationErr,
            },
    {
        let fields = match read_message_fields(bytes) {
            Some(fields) => fields,
            None => {
                return Err(MessageUnwrapErr::DeserializationErr);
            },
        };
        if fields.len() == 0 {
            return Err(MessageUnwrapErr::DeserializationErr);
        }
        let last = &fields[fields.len() - 1];
        assert(fields_view(fields@).last() == last@);
        let payload = match &last.value {
            WireValue::Bytes(payload) => payload,
            _ => {
                return Err(MessageUnwrapErr::DeserializationErr);
            },
        };
        if last.number == 1 {
            match Ping::parse_from_bytes(payload.as_slice()) {
                Ok(m) => Ok(SessionEvent::Ping(m)),
                Err(e) => Err(e),
            }
        } else if last.number == 2 {
            match Pong::parse_from_bytes(payload.as_slice()) {
                Ok(m) => Ok(SessionEvent::Pong(m)),
                Err(e) => Err(e),
            }
        } else if last.number == 3 {
            match FindActor::parse_from_bytes(payload.as_slice()) {
                Ok(m) => Ok(SessionEvent::FindActor(m)),
                Err(e) => Err(e),
            }
        } else if last.number == 4 {
            match ActorAddress::parse_from_bytes(payload.as_slice()) {
                Ok(m) => Ok(SessionEvent::RegisterActor(m)),
                Err(e) => Err(e),
            }
        } else {
            Err(MessageUnwrapErr::DeserializationErr)
        }
    }
}

} // verus!
