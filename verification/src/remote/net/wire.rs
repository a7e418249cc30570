//! The wire format of messages: a sequence of numbered fields. Messages
//! are written with two kinds of field, a base-128 integer and a run of
//! bytes preceded by its length. Fields of the other kinds the format has,
//! four or eight bytes as they stand and the marks that open and close a
//! group, are read so that a reader can pass them over.

use vstd::prelude::*;

verus! {

/// `128` to the power `i`.
pub open spec fn pow128(i: nat) -> nat
    decreases i,
{
    if i == 0 {
        1
    } else {
        128 * pow128((i - 1) as nat)
    }
}

/// The base-128 encoding of `n`, least significant group first; every byte
/// but the last has its top bit set.
pub open spec fn varint(n: nat) -> Seq<u8>
    decreases n,
{
    if n < 128 {
        seq![n as u8]
    } else {
        seq![(n % 128 + 128) as u8] + varint(n / 128)
    }
}

/// Reads a base-128 integer of at most ten bytes from `s`, starting at
/// byte `i` with the groups read so far worth `acc` and the next group
/// worth `scale` a unit. Gives the value and the position behind it.
pub open spec fn scan_varint(s: Seq<u8>, i: nat, acc: nat, scale: nat) -> Option<(nat, nat)>
    decreases 10 - i,
{
    if i >= 10 || i >= s.len() {
        None
    } else {
        let acc2 = acc + (s[i as int] % 128) as nat * scale;
        if s[i as int] < 128 {
            Some((acc2, i + 1))
        } else {
            scan_varint(s, i + 1, acc2, scale * 128)
        }
    }
}

/// The integer at the front of `s` and the number of bytes it takes up.
/// Nothing where `s` ends within the integer, the integer runs over ten
/// bytes, or its value does not fit 64 bits.
pub open spec fn parse_varint(s: Seq<u8>) -> Option<(u64, nat)> {
    match scan_varint(s, 0, 0, 1) {
        Some((value, len)) => if value <= u64::MAX {
            Some((value as u64, len))
        } else {
            None
        },
        None => None,
    }
}

proof fn lemma_pow128_bound(i: nat)
    requires
        i <= 10,
    ensures
        pow128(i) <= 0x40_0000_0000_0000_0000,
        pow128(i) >= 1,
        i == 10 ==> pow128(i) == 0x40_0000_0000_0000_0000,
{
    reveal_with_fuel(pow128, 12);
}

/// An integer below `128^k` takes at most `k` bytes.
proof fn lemma_varint_len(n: nat, k: nat)
    requires
        k >= 1,
        n < pow128(k),
    ensures
        1 <= varint(n).len() <= k,
    decreases n,
{
    if n >= 128 {
        if k == 1 {
            reveal_with_fuel(pow128, 2);
            assert(false);
        } else {
            assert(n / 128 < pow128((k - 1) as nat)) by {
                assert(pow128(k) == 128 * pow128((k - 1) as nat));
            }
            lemma_varint_len(n / 128, (k - 1) as nat);
        }
    }
}

proof fn lemma_scan_varint(s: Seq<u8>, i: nat, acc: nat, scale: nat, n: nat)
    requires
        i + varint(n).len() <= 10,
        i + varint(n).len() <= s.len(),
        s.subrange(i as int, (i + varint(n).len()) as int) == varint(n),
    ensures
        scan_varint(s, i, acc, scale) == Some((acc + scale * n, i + varint(n).len())),
    decreases n,
{
    let v = varint(n);
    assert(s[i as int] == v[0]);
    if n < 128 {
        assert(v[0] == n as u8);
        assert((s[i as int] % 128) as nat * scale == scale * n) by (nonlinear_arith)
            requires
                s[i as int] == n as u8,
                n < 128,
        ;
    } else {
        let low = n % 128;
        let high = n / 128;
        assert(v[0] == (low + 128) as u8);
        assert(s[i as int] >= 128);
        assert((s[i as int] % 128) as nat == low);
        let rest = varint(high);
        assert(v =~= seq![(low + 128) as u8] + rest);
        assert(s.subrange((i + 1) as int, (i + 1 + rest.len()) as int) =~= rest) by {
            assert forall|j: int| 0 <= j < rest.len() implies s[i + 1 + j] == rest[j] by {
                assert(s.subrange(i as int, (i + v.len()) as int)[j + 1] == v[j + 1]);
            }
        }
        lemma_scan_varint(s, i + 1, acc + low * scale, scale * 128, high);
        assert(acc + low * scale + (scale * 128) * high == acc + scale * n) by (nonlinear_arith)
            requires
                low == n % 128,
                high == n / 128,
        ;
    }
}

/// Reading gives back what writing put down: the encoding of `n`, followed
/// by anything, is read as `n` and its own length.
pub proof fn lemma_varint_round_trip(n: u64, rest: Seq<u8>)
    ensures
        parse_varint(varint(n as nat) + rest) == Some((n, varint(n as nat).len())),
        1 <= varint(n as nat).len() <= 10,
{
    lemma_pow128_bound(10);
    lemma_varint_len(n as nat, 10);
    let s = varint(n as nat) + rest;
    assert(s.subrange(0, varint(n as nat).len() as int) =~= varint(n as nat));
    lemma_scan_varint(s, 0, 0, 1, n as nat);
    assert(0 + 1 * (n as nat) == n as nat);
}

/// Appends the encoding of `value` to `out`.
pub fn write_varint(out: &mut Vec<u8>, value: u64)
    ensures
        final(out)@ == old(out)@ + varint(value as nat),
{
    let mut rest: u64 = value;
    while rest >= 128
        invariant
            out@ + varint(rest as nat) == old(out)@ + varint(value as nat),
        decreases rest,
    {
        let ghost before = out@;
        out.push((rest % 128 + 128) as u8);
        proof {
            assert(before.push((rest % 128 + 128) as u8) + varint((rest / 128) as nat) =~= before
                + varint(rest as nat));
        }
        rest = rest / 128;
    }
    let ghost before = out@;
    out.push(rest as u8);
    proof {
        assert(before.push(rest as u8) =~= before + varint(rest as nat));
    }
}

/// Reads the integer that starts at `start`. Gives its value and the
/// position behind it.
pub fn read_varint(bytes: &[u8], start: usize) -> (r: Option<(u64, usize)>)
    requires
        start <= bytes@.len(),
    ensures
        match r {
            Some((value, next)) => start < next <= bytes@.len() && parse_varint(
                bytes@.skip(start as int),
            ) == Some((value, (next - start) as nat)),
            None => parse_varint(bytes@.skip(start as int)) is None,
        },
{
    let ghost s = bytes@.skip(start as int);
    let mut acc: u128 = 0;
    let mut scale: u128 = 1;
    let mut i: usize = 0;
    while i < 10 && i < bytes.len() - start
        invariant
            start <= bytes@.len(),
            s == bytes@.skip(start as int),
            i <= 10,
            i <= s.len(),
            scale as nat == pow128(i as nat),
            acc < scale,
            scan_varint(s, 0, 0, 1) == scan_varint(s, i as nat, acc as nat, scale as nat),
        decreases 10 - i,
    {
        proof {
            lemma_pow128_bound(i as nat);
            lemma_pow128_bound((i + 1) as nat);
            assert(pow128((i + 1) as nat) == 128 * pow128(i as nat));
        }
        let byte = bytes[start + i];
        assert(byte == s[i as int]);
        let group: u128 = (byte % 128) as u128;
        assert(acc + group * scale < 128 * scale) by (nonlinear_arith)
            requires
                acc < scale,
                group < 128,
        ;
        let acc2: u128 = acc + group * scale;
        if byte < 128 {
            if acc2 <= 0xffff_ffff_ffff_ffff {
                return Some((acc2 as u64, start + i + 1));
            } else {
                return None;
            }
        }
        acc = acc2;
        scale = scale * 128;
        i += 1;
    }
    None
}

/// The value of a field.
pub enum FieldValue {
    Varint(u64),
    Bytes(Seq<u8>),
    /// Eight bytes, as they stand on the wire.
    Fixed64(Seq<u8>),
    /// Four bytes, as they stand on the wire.
    Fixed32(Seq<u8>),
    /// The mark that opens a group. It has no value of its own.
    GroupStart,
    /// The mark that closes a group. It has no value of its own.
    GroupEnd,
}

/// A field: its number and its value.
pub struct Field {
    pub number: u32,
    pub value: FieldValue,
}

/// The largest field number.
pub const MAX_FIELD_NUMBER: u32 = 0x1fff_ffff;

impl Field {
    /// The field can be written: its number is in range, a run of bytes has
    /// a length that fits 64 bits, and bytes of a fixed width have that
    /// width.
    pub open spec fn wf(self) -> bool {
        &&& 1 <= self.number <= MAX_FIELD_NUMBER
        &&& match self.value {
            FieldValue::Varint(_) => true,
            FieldValue::Bytes(bytes) => bytes.len() <= u64::MAX,
            FieldValue::Fixed64(bytes) => bytes.len() == 8,
            FieldValue::Fixed32(bytes) => bytes.len() == 4,
            FieldValue::GroupStart => true,
            FieldValue::GroupEnd => true,
        }
    }

    /// The kind of the value, as the low three bits of the key give it.
    pub open spec fn kind(self) -> nat {
        match self.value {
            FieldValue::Varint(_) => 0,
            FieldValue::Fixed64(_) => 1,
            FieldValue::Bytes(_) => 2,
            FieldValue::GroupStart => 3,
            FieldValue::GroupEnd => 4,
            FieldValue::Fixed32(_) => 5,
        }
    }

    /// Whether the field opens or closes a group.
    pub open spec fn is_mark(self) -> bool {
        self.value is GroupStart || self.value is GroupEnd
    }

    /// The number that opens the field on the wire: the field number and, in
    /// the low three bits, the kind of the value.
    pub open spec fn key(self) -> nat {
        (self.number * 8 + self.kind()) as nat
    }

    /// The field on the wire.
    pub open spec fn encode(self) -> Seq<u8> {
        match self.value {
            FieldValue::Varint(v) => varint(self.key()) + varint(v as nat),
            FieldValue::Bytes(bytes) => varint(self.key()) + varint(bytes.len()) + bytes,
            FieldValue::Fixed64(bytes) => varint(self.key()) + bytes,
            FieldValue::Fixed32(bytes) => varint(self.key()) + bytes,
            FieldValue::GroupStart => varint(self.key()),
            FieldValue::GroupEnd => varint(self.key()),
        }
    }
}

/// The fields `fields` on the wire, one after the other.
pub open spec fn encode_fields(fields: Seq<Field>) -> Seq<u8>
    decreases fields.len(),
{
    if fields.len() == 0 {
        Seq::empty()
    } else {
        fields[0].encode() + encode_fields(fields.drop_first())
    }
}

/// The field at the front of `s` and the number of bytes it takes up.
/// Nothing where `s` does not begin with a whole field of one of the six
/// kinds and with a number in range.
pub open spec fn parse_field(s: Seq<u8>) -> Option<(Field, nat)> {
    match parse_varint(s) {
        None => None,
        Some((key, key_len)) => {
            let number = key / 8;
            let rest = s.skip(key_len as int);
            if number < 1 || number > MAX_FIELD_NUMBER {
                None
            } else if key % 8 == 0 {
                match parse_varint(rest) {
                    Some((v, len)) => Some(
                        (Field { number: number as u32, value: FieldValue::Varint(v) }, key_len + len),
                    ),
                    None => None,
                }
            } else if key % 8 == 2 {
                match parse_varint(rest) {
                    Some((size, len)) => if size <= rest.len() - len {
                        Some(
                            (
                                Field {
                                    number: number as u32,
                                    value: FieldValue::Bytes(
                                        rest.subrange(len as int, len + size),
                                    ),
                                },
                                key_len + len + size as nat,
                            ),
                        )
                    } else {
                        None
                    },
                    None => None,
                }
            } else if key % 8 == 1 {
                if rest.len() >= 8 {
                    Some(
                        (
                            Field {
                                number: number as u32,
                                value: FieldValue::Fixed64(rest.subrange(0, 8)),
                            },
                            key_len + 8,
                        ),
                    )
                } else {
                    None
                }
            } else if key % 8 == 5 {
                if rest.len() >= 4 {
                    Some(
                        (
                            Field {
                                number: number as u32,
                                value: FieldValue::Fixed32(rest.subrange(0, 4)),
                            },
                            key_len + 4,
                        ),
                    )
                } else {
                    None
                }
            } else if key % 8 == 3 {
                Some((Field { number: number as u32, value: FieldValue::GroupStart }, key_len))
            } else if key % 8 == 4 {
                Some((Field { number: number as u32, value: FieldValue::GroupEnd }, key_len))
            } else {
                None
            }
        },
    }
}

/// The fields that make up `s`, in order. Nothing where `s` is not a
/// sequence of whole fields.
pub open spec fn parse_fields(s: Seq<u8>) -> Option<Seq<Field>>
    decreases s.len(),
{
    if s.len() == 0 {
        Some(Seq::empty())
    } else {
        match parse_field(s) {
            Some((field, len)) => if 0 < len <= s.len() {
                match parse_fields(s.skip(len as int)) {
                    Some(rest) => Some(seq![field] + rest),
                    None => None,
                }
            } else {
                None
            },
            None => None,
        }
    }
}

/// A written field, followed by anything, is read back as itself.
pub proof fn lemma_field_round_trip(field: Field, rest: Seq<u8>)
    requires
        field.wf(),
    ensures
        parse_field(field.encode() + rest) == Some((field, field.encode().len())),
        field.encode().len() > 0,
{
    let s = field.encode() + rest;
    let key = field.key();
    assert(key <= u64::MAX);
    lemma_varint_round_trip(key as u64, s.skip(varint(key).len() as int));
    assert(s =~= varint(key) + s.skip(varint(key).len() as int));
    let after_key = s.skip(varint(key).len() as int);
    match field.value {
        FieldValue::Varint(v) => {
            assert(key / 8 == field.number && key % 8 == 0);
            lemma_varint_round_trip(v, rest);
            assert(after_key =~= varint(v as nat) + rest);
        },
        FieldValue::Bytes(bytes) => {
            assert(key / 8 == field.number && key % 8 == 2);
            lemma_varint_round_trip(bytes.len() as u64, bytes + rest);
            assert(after_key =~= varint(bytes.len()) + (bytes + rest));
            let len = varint(bytes.len()).len();
            assert(after_key.subrange(len as int, (len + bytes.len()) as int) =~= bytes);
        },
        FieldValue::Fixed64(bytes) => {
            assert(key / 8 == field.number && key % 8 == 1);
            assert(after_key =~= bytes + rest);
            assert(after_key.subrange(0, 8) =~= bytes);
        },
        FieldValue::Fixed32(bytes) => {
            assert(key / 8 == field.number && key % 8 == 5);
            assert(after_key =~= bytes + rest);
            assert(after_key.subrange(0, 4) =~= bytes);
        },
        FieldValue::GroupStart => {
            assert(key / 8 == field.number && key % 8 == 3);
        },
        FieldValue::GroupEnd => {
            assert(key / 8 == field.number && key % 8 == 4);
        },
    }
}

/// Written fields are read back as themselves, in order.
pub proof fn lemma_fields_round_trip(fields: Seq<Field>)
    requires
        forall|i: int| 0 <= i < fields.len() ==> (#[trigger] fields[i]).wf(),
    ensures
        parse_fields(encode_fields(fields)) == Some(fields),
    decreases fields.len(),
{
    if fields.len() > 0 {
        let first = fields[0];
        let tail = fields.drop_first();
        let s = encode_fields(fields);
        lemma_field_round_trip(first, encode_fields(tail));
        assert forall|i: int| 0 <= i < tail.len() implies (#[trigger] tail[i]).wf() by {
            assert(tail[i] == fields[i + 1]);
        }
        lemma_fields_round_trip(tail);
        assert(s.skip(first.encode().len() as int) =~= encode_fields(tail));
        assert(seq![first] + tail =~= fields);
    }
}

/// Writing fields one after the other writes their concatenation.
pub proof fn lemma_encode_fields_concat(a: Seq<Field>, b: Seq<Field>)
    ensures
        encode_fields(a + b) == encode_fields(a) + encode_fields(b),
    decreases a.len(),
{
    if a.len() == 0 {
        assert(a + b =~= b);
        assert(encode_fields(a) + encode_fields(b) =~= encode_fields(b));
    } else {
        lemma_encode_fields_concat(a.drop_first(), b);
        assert((a + b).drop_first() =~= a.drop_first() + b);
        assert((a + b)[0] == a[0]);
        assert(encode_fields(a + b) =~= encode_fields(a) + encode_fields(b));
    }
}

/// The value of a field read from the wire.
#[derive(Debug, Clone, PartialEq, Eq)]
pub enum WireValue {
    Varint(u64),
    Bytes(Vec<u8>),
    /// Eight bytes, as they stood on the wire.
    Fixed64(Vec<u8>),
    /// Four bytes, as they stood on the wire.
    Fixed32(Vec<u8>),
    /// The mark that opens a group.
    GroupStart,
    /// The mark that closes a group.
    GroupEnd,
}

/// A field read from the wire.
#[derive(Debug, Clone, PartialEq, Eq)]
pub struct WireField {
    pub number: u32,
    pub value: WireValue,
}

impl WireField {
    pub open spec fn view(&self) -> Field {
        Field {
            number: self.number,
            value: match self.value {
                WireValue::Varint(v) => FieldValue::Varint(v),
                WireValue::Bytes(bytes) => FieldValue::Bytes(bytes@),
                WireValue::Fixed64(bytes) => FieldValue::Fixed64(bytes@),
                WireValue::Fixed32(bytes) => FieldValue::Fixed32(bytes@),
                WireValue::GroupStart => FieldValue::GroupStart,
                WireValue::GroupEnd => FieldValue::GroupEnd,
            },
        }
    }
}

/// The fields in `fields`, as plain values.
pub open spec fn fields_view(fields: Seq<WireField>) -> Seq<Field> {
    fields.map_values(|f: WireField| f@)
}

/// Appends an integer field to `out`.
pub fn write_varint_field(out: &mut Vec<u8>, number: u32, value: u64)
    requires
        1 <= number <= MAX_FIELD_NUMBER,
    ensures
        final(out)@ == old(out)@ + (Field { number, value: FieldValue::Varint(value) }).encode(),
{
    let key: u64 = (number as u64) * 8;
    write_varint(out, key);
    write_varint(out, value);
    proof {
        let f = Field { number, value: FieldValue::Varint(value) };
        assert(out@ =~= old(out)@ + f.encode());
    }
}

/// Appends a field of bytes to `out`.
pub fn write_bytes_field(out: &mut Vec<u8>, number: u32, bytes: &[u8])
    requires
        1 <= number <= MAX_FIELD_NUMBER,
    ensures
        final(out)@ == old(out)@ + (Field { number, value: FieldValue::Bytes(bytes@) }).encode(),
{
    let key: u64 = (number as u64) * 8 + 2;
    write_varint(out, key);
    write_varint(out, bytes.len() as u64);
    let ghost before = out@;
    let mut i: usize = 0;
    while i < bytes.len()
        invariant
            i <= bytes@.len(),
            out@ == before + bytes@.take(i as int),
        decreases bytes@.len() - i,
    {
        out.push(bytes[i]);
        assert(out@ =~= before + bytes@.take(i + 1));
        i += 1;
    }
    proof {
        let f = Field { number, value: FieldValue::Bytes(bytes@) };
        assert(bytes@.take(i as int) =~= bytes@);
        assert(out@ =~= old(out)@ + f.encode());
    }
}

/// Reads the field that starts at `start`. Gives the field and the
/// position behind it.
pub fn read_field(bytes: &[u8], start: usize) -> (r: Option<(WireField, usize)>)
    requires
        start <= bytes@.len(),
    ensures
        match r {
            Some((field, next)) => start < next <= bytes@.len() && parse_field(
                bytes@.skip(start as int),
            ) == Some((field@, (next - start) as nat)),
            None => parse_field(bytes@.skip(start as int)) is None,
        },
{
    let ghost s = bytes@.skip(start as int);
    let (key, after_key) = match read_varint(bytes, start) {
        Some(r) => r,
        None => {
            return None;
        },
    };
    let number = key / 8;
    if number < 1 || number > MAX_FIELD_NUMBER as u64 {
        return None;
    }
    proof {
        assert(s.skip(after_key - start) =~= bytes@.skip(after_key as int));
    }
    let kind = key % 8;
    if kind == 0 {
        match read_varint(bytes, after_key) {
            Some((value, next)) => Some(
                (WireField { number: number as u32, value: WireValue::Varint(value) }, next),
            ),
            None => None,
        }
    } else if kind == 2 {
        match read_varint(bytes, after_key) {
            Some((size, body)) => {
                if size <= (bytes.len() - body) as u64 {
                    let size = size as usize;
                    let value = copy_range(bytes, body, size);
                    proof {
                        let rest = s.skip(after_key - start);
                        let len = body - after_key;
                        assert(rest.subrange(len as int, len + size) =~= value@);
                    }
                    Some(
                        (
                            WireField { number: number as u32, value: WireValue::Bytes(value) },
                            body + size,
                        ),
                    )
                } else {
                    None
                }
            },
            None => None,
        }
    } else if kind == 1 {
        if bytes.len() - after_key >= 8 {
            let value = copy_range(bytes, after_key, 8);
            proof {
                assert(s.skip(after_key - start).subrange(0, 8) =~= value@);
            }
            Some(
                (WireField { number: number as u32, value: WireValue::Fixed64(value) }, after_key + 8),
            )
        } else {
            None
        }
    } else if kind == 5 {
        if bytes.len() - after_key >= 4 {
            let value = copy_range(bytes, after_key, 4);
            proof {
                assert(s.skip(after_key - start).subrange(0, 4) =~= value@);
            }
            Some(
                (WireField { number: number as u32, value: WireValue::Fixed32(value) }, after_key + 4),
            )
        } else {
            None
        }
    } else if kind == 3 {
        Some((WireField { number: number as u32, value: WireValue::GroupStart }, after_key))
    } else if kind == 4 {
        Some((WireField { number: number as u32, value: WireValue::GroupEnd }, after_key))
    } else {
        None
    }
}

fn copy_range(bytes: &[u8], from: usize, len: usize) -> (copy: Vec<u8>)
    requires
        from + len <= bytes@.len(),
    ensures
        copy@ == bytes@.subrange(from as int, from + len),
{
    let mut copy: Vec<u8> = Vec::new();
    let mut i: usize = 0;
    let total = bytes.len();
    assert(copy@ =~= bytes@.subrange(from as int, from + 0));
    while i < len
        invariant
            i <= len,
            from + len <= bytes@.len() == total,
            copy@ == bytes@.subrange(from as int, from + i),
        decreases len - i,
    {
        copy.push(bytes[from + i]);
        assert(copy@ =~= bytes@.subrange(from as int, from + i + 1));
        i += 1;
    }
    copy
}

/// Reads `bytes` as a sequence of fields.
pub fn read_fields(bytes: &[u8]) -> (r: Option<Vec<WireField>>)
    ensures
        match r {
            Some(fields) => parse_fields(bytes@) == Some(fields_view(fields@)),
            None => parse_fields(bytes@) is None,
        },
{
    let mut fields: Vec<WireField> = Vec::new();
    let mut pos: usize = 0;
    proof {
        assert(bytes@.skip(0) =~= bytes@);
        match parse_fields(bytes@) {
            Some(rest) => {
                assert(fields_view(fields@) + rest =~= rest);
            },
            None => {},
        }
    }
    while pos < bytes.len()
        invariant
            pos <= bytes@.len(),
            parse_fields(bytes@) == (match parse_fields(bytes@.skip(pos as int)) {
                Some(rest) => Some(fields_view(fields@) + rest),
                None => None::<Seq<Field>>,
            }),
        decreases bytes@.len() - pos,
    {
        let ghost s = bytes@.skip(pos as int);
        match read_field(bytes, pos) {
            Some((field, next)) => {
                proof {
                    assert(s.skip(next - pos) =~= bytes@.skip(next as int));
                    let done = fields_view(fields@);
                    assert(fields_view(fields@.push(field)) =~= done + seq![field@]);
                    match parse_fields(bytes@.skip(next as int)) {
                        Some(rest) => {
                            assert(done + (seq![field@] + rest) =~= (done + seq![field@]) + rest);
                        },
                        None => {},
                    }
                }
                fields.push(field);
                pos = next;
            },
            None => {
                return None;
            },
        }
    }
    proof {
        assert(bytes@.skip(pos as int) =~= Seq::empty());
        assert(fields_view(fields@) + Seq::empty() =~= fields_view(fields@));
    }
    Some(fields)
}

/// The fields of `fields` that stand outside of groups, in order. A group
/// is opened by one mark and closed by the next; groups do not hold groups.
/// A group is left out with all that it holds. `open_behind` says whether a
/// group that closes behind the last of `fields` is still open at that
/// point. Nothing where the marks do not pair up: a group is opened within
/// a group, closed outside of one, or left open at the end.
pub open spec fn outside_groups(fields: Seq<Field>, open_behind: bool) -> Option<Seq<Field>>
    decreases fields.len(),
{
    if fields.len() == 0 {
        if open_behind {
            None
        } else {
            Some(Seq::empty())
        }
    } else {
        let front = fields.drop_last();
        match fields.last().value {
            FieldValue::GroupEnd => if open_behind {
                None
            } else {
                outside_groups(front, true)
            },
            FieldValue::GroupStart => if open_behind {
                outside_groups(front, false)
            } else {
                None
            },
            _ => if open_behind {
                outside_groups(front, true)
            } else {
                match outside_groups(front, false) {
                    Some(kept) => Some(kept.push(fields.last())),
                    None => None,
                }
            },
        }
    }
}

/// The fields of the message that `s` holds: the fields that make up `s`,
/// without the groups among them.
pub open spec fn message_fields(s: Seq<u8>) -> Option<Seq<Field>> {
    match parse_fields(s) {
        Some(fields) => outside_groups(fields, false),
        None => None,
    }
}

/// Fields among which there is no mark all stand outside of groups.
pub proof fn lemma_no_groups(fields: Seq<Field>)
    requires
        forall|i: int| 0 <= i < fields.len() ==> !(#[trigger] fields[i]).is_mark(),
    ensures
        outside_groups(fields, false) == Some(fields),
    decreases fields.len(),
{
    if fields.len() > 0 {
        let front = fields.drop_last();
        assert forall|i: int| 0 <= i < front.len() implies !(#[trigger] front[i]).is_mark() by {
            assert(front[i] == fields[i]);
        }
        lemma_no_groups(front);
        assert(!fields[fields.len() - 1].is_mark());
        assert(front.push(fields.last()) =~= fields);
    } else {
        assert(fields =~= Seq::empty());
    }
}

/// Written fields, none of them a mark, are read back as the fields of
/// the message.
pub proof fn lemma_message_fields_round_trip(fields: Seq<Field>)
    requires
        forall|i: int|
            0 <= i < fields.len() ==> (#[trigger] fields[i]).wf() && !fields[i].is_mark(),
    ensures
        message_fields(encode_fields(fields)) == Some(fields),
{
    lemma_fields_round_trip(fields);
    lemma_no_groups(fields);
}

/// Leaves the groups out of `fields`, as [`outside_groups`] says.
pub fn top_level_fields(fields: Vec<WireField>) -> (r: Option<Vec<WireField>>)
    ensures
        match r {
            Some(kept) => outside_groups(fields_view(fields@), false) == Some(fields_view(kept@)),
            None => outside_groups(fields_view(fields@), false) is None,
        },
{
    let ghost all = fields_view(fields@);
    let mut front = fields;
    let mut behind: Vec<WireField> = Vec::new();
    let mut open_behind = false;
    proof {
        match outside_groups(all, false) {
            Some(kept) => {
                assert(kept + fields_view(behind@).reverse() =~= kept);
            },
            None => {},
        }
    }
    while front.len() > 0
        invariant
            all == fields_view(fields@),
            outside_groups(all, false) == (match outside_groups(fields_view(front@), open_behind) {
                Some(kept) => Some(kept + fields_view(behind@).reverse()),
                None => None::<Seq<Field>>,
            }),
        decreases front@.len(),
    {
        let ghost before = fields_view(front@);
        let ghost done = fields_view(behind@);
        let field = front.pop().unwrap();
        proof {
            assert(fields_view(front@) =~= before.drop_last());
            assert(before.last() == field@);
        }
        match field.value {
            WireValue::GroupEnd => {
                if open_behind {
                    proof {
                        assert(before.len() > 0 && before.last().value is GroupEnd);
                        assert(outside_groups(before, open_behind) is None);
                    }
                    return None;
                }
                open_behind = true;
            },
            WireValue::GroupStart => {
                if !open_behind {
                    proof {
                        assert(before.len() > 0 && before.last().value is GroupStart);
                        assert(outside_groups(before, open_behind) is None);
                    }
                    return None;
                }
                open_behind = false;
            },
            _ => {
                if !open_behind {
                    proof {
                        assert(fields_view(behind@.push(field)) =~= done.push(field@));
                        assert(done.push(field@).reverse() =~= seq![field@] + done.reverse());
                        match outside_groups(before.drop_last(), false) {
                            Some(kept) => {
                                assert(kept.push(field@) + done.reverse() =~= kept + (seq![
                                    field@,
                                ] + done.reverse()));
                            },
                            None => {},
                        }
                    }
                    behind.push(field);
                }
            },
        }
    }
    if open_behind {
        return None;
    }
    proof {
        assert(fields_view(front@) =~= Seq::empty());
        assert(Seq::<Field>::empty() + fields_view(behind@).reverse() =~= fields_view(
            behind@,
        ).reverse());
    }
    let ghost target = fields_view(behind@).reverse();
    let mut kept: Vec<WireField> = Vec::new();
    proof {
        assert(fields_view(kept@) + fields_view(behind@).reverse() =~= target);
    }
    while behind.len() > 0
        invariant
            fields_view(kept@) + fields_view(behind@).reverse() == target,
        decreases behind@.len(),
    {
        let ghost before = fields_view(behind@);
        let ghost done = fields_view(kept@);
        let field = behind.pop().unwrap();
        proof {
            assert(fields_view(behind@) =~= before.drop_last());
            assert(before.reverse() =~= seq![field@] + before.drop_last().reverse());
            assert(fields_view(kept@.push(field)) =~= done.push(field@));
            assert(done.push(field@) + before.drop_last().reverse() =~= done + before.reverse());
        }
        kept.push(field);
    }
    proof {
        assert(fields_view(behind@).reverse() =~= Seq::empty());
        assert(fields_view(kept@) + Seq::<Field>::empty() =~= fields_view(kept@));
    }
    Some(kept)
}

/// Reads `bytes` as the fields of a message, as [`message_fields`] says.
pub fn read_message_fields(bytes: &[u8]) -> (r: Option<Vec<WireField>>)
    ensures
        match r {
            Some(fields) => message_fields(bytes@) == Some(fields_view(fields@)),
            None => message_fields(bytes@) is None,
        },
{
    match read_fields(bytes) {
        Some(fields) => top_level_fields(fields),
        None => None,
    }
}

} // verus!
