//! `ProstUuid` as the protobuf message `uuid.Uuid { bytes value = 1; }`:
//! encoding, field merging and decoding, and the laws that tie them together.

use vstd::prelude::*;

use prost::encoding::DecodeContext;
use prost::DecodeError;

use crate::error::Error;
use crate::id::{nil_bytes, ProstUuid};
use crate::wire::{
    check_length_delimited, decoded_key, decoded_varint, fresh_context, key_len, key_of,
    lemma_decoded_varint_bytes, lemma_varint_prefix_len, put_key, put_slice, put_varint,
    context_budget, scalar_field_fits, skip_field, skip_outcome, skipped_to, take_key, take_varint, varint_bytes, varint_len, WireType,
};
use crate::{UUID_LEN, VALUE_TAG};

verus! {

/// Why decoding failed, as the contracts see it.
#[derive(Clone, Copy, Debug, PartialEq, Eq, Structural)]
pub enum FailureKind {
    /// prost's `decode_key` found no valid field key.
    Key,
    /// prost's wire-type check: field 1 is not length-delimited.
    WireType,
    /// prost's `decode_varint` found no valid length before the 16 bytes.
    LengthVarint,
    /// prost's `skip_field` refused a field with another number.
    Skip,
    /// The `bytes value` field did not hold exactly 16 bytes.
    Uuid(Error),
    /// The input ended inside the 16 bytes.
    BufferUnderflow,
}

/// Why decoding failed.
#[derive(Debug)]
pub enum DecodeFailure {
    /// prost's `decode_key` found no valid field key; carries prost's error.
    Key(DecodeError),
    /// prost's wire-type check: field 1 is not length-delimited; carries
    /// prost's error.
    WireType(DecodeError),
    /// prost's `decode_varint` found no valid length before the 16 bytes;
    /// carries prost's error.
    LengthVarint(DecodeError),
    /// prost's `skip_field` refused a field with another number; carries
    /// prost's error.
    Skip(DecodeError),
    /// The `bytes value` field did not hold exactly 16 bytes.
    Uuid(Error),
    /// The input ended inside the 16 bytes.
    BufferUnderflow,
}

impl DecodeFailure {
    /// The kind of failure.
    pub open spec fn kind(self) -> FailureKind {
        match self {
            DecodeFailure::Key(_) => FailureKind::Key,
            DecodeFailure::WireType(_) => FailureKind::WireType,
            DecodeFailure::LengthVarint(_) => FailureKind::LengthVarint,
            DecodeFailure::Skip(_) => FailureKind::Skip,
            DecodeFailure::Uuid(e) => FailureKind::Uuid(e),
            DecodeFailure::BufferUnderflow => FailureKind::BufferUnderflow,
        }
    }
}

/// A decode result, taken as bytes or a failure kind.
pub open spec fn outcome(r: Result<ProstUuid, DecodeFailure>) -> Result<Seq<u8>, FailureKind> {
    match r {
        Ok(id) => Ok(id@),
        Err(e) => Err(e.kind()),
    }
}

/// The message's wire bytes: the key of field 1 with the length-delimited
/// wire type (`0x0a`), the length 16 (`0x10`) and the 16 bytes.
pub open spec fn encoded_message(b: Seq<u8>) -> Seq<u8> {
    seq![0x0au8, 0x10u8] + b
}

/// What merging field 1 with wire type `w` from `s` gives: the 16 bytes and
/// how many bytes of `s` they took, or why it fails.
pub open spec fn value_field(w: WireType, s: Seq<u8>) -> Result<(Seq<u8>, nat), FailureKind> {
    if w != WireType::LengthDelimited {
        Err(FailureKind::WireType)
    } else {
        match decoded_varint(s) {
            None => Err(FailureKind::LengthVarint),
            Some((len, n)) => if len != 16 {
                Err(FailureKind::Uuid(Error::InvalidLength(len as usize)))
            } else if s.len() < n + 16 {
                Err(FailureKind::BufferUnderflow)
            } else {
                Ok((s.subrange(n as int, (n + 16) as int), n + 16))
            },
        }
    }
}

/// Whether decoding `s`, starting from the value `cur`, ends in `res`.
/// Fields are merged in order, so the last field 1 wins. A field with
/// another number is skipped by prost, with the recursion budget of a fresh
/// decode context, and leaves the value unchanged: a scalar field is skipped
/// when well formed and refused otherwise; a group is skipped or refused as
/// `skip_outcome` says. Exactly one `res` is possible.
pub open spec fn decodes_to(s: Seq<u8>, cur: Seq<u8>, res: Result<Seq<u8>, FailureKind>) -> bool
    decreases s.len(),
{
    if s.len() == 0 {
        res == Ok::<Seq<u8>, FailureKind>(cur)
    } else {
        match decoded_key(s) {
            None => res == Err::<Seq<u8>, FailureKind>(FailureKind::Key),
            Some((tag, w, n)) => {
                let body = s.skip(n as int);
                proof {
                    lemma_varint_prefix_len(s, 10);
                }
                if tag == 1 {
                    match value_field(w, body) {
                        Err(f) => res == Err::<Seq<u8>, FailureKind>(f),
                        Ok((b, m)) => {
                            proof {
                                lemma_varint_prefix_len(body, 10);
                            }
                            decodes_to(body.skip(m as int), b, res)
                        },
                    }
                } else if w == WireType::StartGroup || w == WireType::EndGroup {
                    match skip_outcome(w, tag, body, 100) {
                        Some(k) => k <= body.len() && decodes_to(body.skip(k as int), cur, res),
                        None => res == Err::<Seq<u8>, FailureKind>(FailureKind::Skip),
                    }
                } else if scalar_field_fits(w, body) {
                    exists|rest: Seq<u8>|
                        #[trigger] skipped_to(w, body, rest) && decodes_to(rest, cur, res)
                } else {
                    res == Err::<Seq<u8>, FailureKind>(FailureKind::Skip)
                }
            },
        }
    }
}

/// `Buf::copy_to_slice` on a byte slice into a 16-byte array: the first 16
/// bytes and the bytes after them.
#[verifier::external_body]
fn copy_16(buf: &[u8]) -> (r: ([u8; 16], &[u8]))
    requires
        buf@.len() >= 16,
    ensures
        r.0@ == buf@.subrange(0, 16),
        r.1@ == buf@.skip(16),
{
    let mut b = buf;
    let mut a = [0u8; 16];
    prost::bytes::Buf::copy_to_slice(&mut b, &mut a);
    (a, b)
}

/// The encoding of every value is 18 bytes long.
pub proof fn lemma_encoded_len(id: ProstUuid)
    ensures
        encoded_message(id@).len() == 18,
{
}

/// After one encoded message, decoding goes on from its value.
proof fn lemma_decodes_after_message(b: Seq<u8>, tail: Seq<u8>, cur: Seq<u8>, res: Result<
    Seq<u8>,
    FailureKind,
>)
    requires
        b.len() == 16,
    ensures
        decodes_to(encoded_message(b) + tail, cur, res) == decodes_to(tail, b, res),
{
    let s = encoded_message(b) + tail;
    lemma_decoded_varint_bytes(10, s.skip(1));
    assert(varint_bytes(10) + s.skip(1) =~= s);
    lemma_decoded_varint_bytes(16, s.skip(2));
    assert(varint_bytes(16) + s.skip(2) =~= s.skip(1));
    assert(s.skip(1).subrange(1, 17) =~= b);
    assert(s.skip(1).skip(17) =~= tail);
}

/// Decoding the encoding of any value gives that value back, and nothing
/// else; no 128-bit value is refused.
pub proof fn lemma_round_trip(id: ProstUuid, res: Result<Seq<u8>, FailureKind>)
    ensures
        decodes_to(encoded_message(id@), nil_bytes(), res) <==> res == Ok::<Seq<u8>, FailureKind>(
            id@,
        ),
{
    lemma_decodes_after_message(id@, Seq::empty(), nil_bytes(), res);
    assert(encoded_message(id@) + Seq::<u8>::empty() =~= encoded_message(id@));
}

/// When the field occurs twice, the last one wins.
pub proof fn lemma_last_one_wins(a: ProstUuid, b: ProstUuid, res: Result<Seq<u8>, FailureKind>)
    ensures
        decodes_to(encoded_message(a@) + encoded_message(b@), nil_bytes(), res) <==> res == Ok::<
            Seq<u8>,
            FailureKind,
        >(b@),
{
    lemma_decodes_after_message(a@, encoded_message(b@), nil_bytes(), res);
    lemma_decodes_after_message(b@, Seq::empty(), a@, res);
    assert(encoded_message(b@) + Seq::<u8>::empty() =~= encoded_message(b@));
}

/// A field with another number and the varint wire type is skipped and
/// leaves the value as it was.
pub proof fn lemma_unknown_varint_field(
    tag: u32,
    v: u64,
    tail: Seq<u8>,
    cur: Seq<u8>,
    res: Result<Seq<u8>, FailureKind>,
)
    requires
        2 <= tag <= crate::wire::MAX_TAG,
    ensures
        decodes_to(
            varint_bytes(key_of(tag as nat, WireType::Varint)) + varint_bytes(v as nat) + tail,
            cur,
            res,
        ) <==> decodes_to(tail, cur, res),
{
    let k = key_of(tag as nat, WireType::Varint);
    let body = varint_bytes(v as nat) + tail;
    let s = varint_bytes(k) + body;
    assert(varint_bytes(k) + varint_bytes(v as nat) + tail =~= s);
    lemma_decoded_varint_bytes(k as u64, body);
    assert(k % 8 == 0 && k / 8 == tag);
    assert(s.skip(varint_bytes(k).len() as int) =~= body);
    lemma_decoded_varint_bytes(v, tail);
    assert(body.skip(varint_bytes(v as nat).len() as int) =~= tail);
    assert(skipped_to(WireType::Varint, body, tail));
}

/// The bytes of a field with number `tag` and a scalar wire type `w`: its
/// key, then a varint `v` (varint), or four or eight bytes `data` (32-bit,
/// 64-bit), or the length `v` as a varint and `data` (length-delimited).
pub open spec fn scalar_field_bytes(tag: nat, w: WireType, v: u64, data: Seq<u8>) -> Seq<u8> {
    varint_bytes(key_of(tag, w)) + (if w == WireType::Varint || w == WireType::LengthDelimited {
        varint_bytes(v as nat)
    } else {
        Seq::empty()
    }) + data
}

/// The payload of a well-formed scalar field fits, and skipping it leaves
/// exactly what follows it.
proof fn lemma_scalar_payload_skips(w: WireType, v: u64, data: Seq<u8>, tail: Seq<u8>)
    requires
        w != WireType::StartGroup && w != WireType::EndGroup,
        w == WireType::Varint ==> data.len() == 0,
        w == WireType::ThirtyTwoBit ==> data.len() == 4,
        w == WireType::SixtyFourBit ==> data.len() == 8,
        w == WireType::LengthDelimited ==> v == data.len(),
    ensures
        ({
            let body = scalar_field_bytes(1, w, v, data).skip(1) + tail;
            &&& scalar_field_fits(w, body)
            &&& skipped_to(w, body, tail)
            &&& forall|rest: Seq<u8>| #[trigger] skipped_to(w, body, rest) ==> rest == tail
        }),
{
    let k = key_of(1, w);
    assert(varint_bytes(k) == seq![k as u8]);
    let body = scalar_field_bytes(1, w, v, data).skip(1) + tail;
    if w == WireType::Varint || w == WireType::LengthDelimited {
        assert(body =~= varint_bytes(v as nat) + (data + tail));
        lemma_decoded_varint_bytes(v, data + tail);
        assert(body.skip((varint_bytes(v as nat).len() + data.len()) as int) =~= tail);
        assert(body.skip(varint_bytes(v as nat).len() as int) =~= data + tail);
    } else {
        assert(body =~= data + tail);
        assert(body.skip(data.len() as int) =~= tail);
    }
}

/// Any well-formed field with another number and a scalar wire type is
/// skipped and never changes the value decoded so far.
pub proof fn lemma_unknown_scalar_field(
    tag: u32,
    w: WireType,
    v: u64,
    data: Seq<u8>,
    tail: Seq<u8>,
    cur: Seq<u8>,
    res: Result<Seq<u8>, FailureKind>,
)
    requires
        2 <= tag <= crate::wire::MAX_TAG,
        w != WireType::StartGroup && w != WireType::EndGroup,
        w == WireType::Varint ==> data.len() == 0,
        w == WireType::ThirtyTwoBit ==> data.len() == 4,
        w == WireType::SixtyFourBit ==> data.len() == 8,
        w == WireType::LengthDelimited ==> v == data.len(),
    ensures
        decodes_to(scalar_field_bytes(tag as nat, w, v, data) + tail, cur, res) <==> decodes_to(
            tail,
            cur,
            res,
        ),
{
    let k = key_of(tag as nat, w);
    let body = scalar_field_bytes(1, w, v, data).skip(1) + tail;
    lemma_scalar_payload_skips(w, v, data, tail);
    assert(varint_bytes(key_of(1, w)) == seq![key_of(1, w) as u8]);
    let s = scalar_field_bytes(tag as nat, w, v, data) + tail;
    assert(s =~= varint_bytes(k) + body);
    lemma_decoded_varint_bytes(k as u64, body);
    assert(k % 8 == w.code() && k / 8 == tag);
    assert(s.skip(varint_bytes(k).len() as int) =~= body);
}

/// A message followed by a well-formed field with another number and a
/// scalar wire type (what a newer schema writes) decodes to the message's value.
pub proof fn lemma_message_then_unknown_field(
    id: ProstUuid,
    tag: u32,
    w: WireType,
    v: u64,
    data: Seq<u8>,
    res: Result<Seq<u8>, FailureKind>,
)
    requires
        2 <= tag <= crate::wire::MAX_TAG,
        w != WireType::StartGroup && w != WireType::EndGroup,
        w == WireType::Varint ==> data.len() == 0,
        w == WireType::ThirtyTwoBit ==> data.len() == 4,
        w == WireType::SixtyFourBit ==> data.len() == 8,
        w == WireType::LengthDelimited ==> v == data.len(),
    ensures
        decodes_to(
            encoded_message(id@) + scalar_field_bytes(tag as nat, w, v, data),
            nil_bytes(),
            res,
        ) <==> res == Ok::<Seq<u8>, FailureKind>(id@),
{
    let f = scalar_field_bytes(tag as nat, w, v, data);
    lemma_decodes_after_message(id@, f, nil_bytes(), res);
    lemma_unknown_scalar_field(tag, w, v, data, Seq::empty(), id@, res);
    assert(f + Seq::<u8>::empty() =~= f);
}

/// A payload whose declared length is not 16 is refused with
/// `Error::InvalidLength` carrying that length, whatever follows.
pub proof fn lemma_wrong_length(
    len: u64,
    payload: Seq<u8>,
    cur: Seq<u8>,
    res: Result<Seq<u8>, FailureKind>,
)
    requires
        len != 16,
    ensures
        decodes_to(seq![0x0au8] + varint_bytes(len as nat) + payload, cur, res) <==> res == Err::<
            Seq<u8>,
            FailureKind,
        >(FailureKind::Uuid(Error::InvalidLength(len as usize))),
{
    let s = seq![0x0au8] + varint_bytes(len as nat) + payload;
    lemma_decoded_varint_bytes(10, s.skip(1));
    assert(varint_bytes(10) + s.skip(1) =~= s);
    lemma_decoded_varint_bytes(len, payload);
    assert(s.skip(1) =~= varint_bytes(len as nat) + payload);
}

/// An encoding cut short inside the 16 bytes is refused as a buffer underflow.
pub proof fn lemma_truncated(id: ProstUuid, k: int, cur: Seq<u8>, res: Result<Seq<u8>, FailureKind>)
    requires
        2 <= k < 18,
    ensures
        decodes_to(encoded_message(id@).take(k), cur, res) <==> res == Err::<Seq<u8>, FailureKind>(
            FailureKind::BufferUnderflow,
        ),
{
    let s = encoded_message(id@).take(k);
    lemma_decoded_varint_bytes(10, s.skip(1));
    assert(varint_bytes(10) + s.skip(1) =~= s);
    lemma_decoded_varint_bytes(16, s.skip(2));
    assert(varint_bytes(16) + s.skip(2) =~= s.skip(1));
}

/// Field 1 with any wire type but length-delimited is refused by prost's
/// wire-type check.
pub proof fn lemma_wrong_wire_type(
    w: WireType,
    rest: Seq<u8>,
    cur: Seq<u8>,
    res: Result<Seq<u8>, FailureKind>,
)
    requires
        w != WireType::LengthDelimited,
    ensures
        decodes_to(varint_bytes(key_of(1, w)) + rest, cur, res) <==> res == Err::<
            Seq<u8>,
            FailureKind,
        >(FailureKind::WireType),
{
    let k = key_of(1, w);
    lemma_decoded_varint_bytes(k as u64, rest);
    assert(k % 8 == w.code());
}

impl ProstUuid {
    /// Appends the message's fields: key, length 16, the 16 bytes.
    pub fn encode_raw(&self, buf: &mut Vec<u8>)
        ensures
            final(buf)@ == old(buf)@ + encoded_message(self@),
    {
        put_key(VALUE_TAG, WireType::LengthDelimited, buf);
        put_varint(UUID_LEN as u64, buf);
        let bytes: &[u8] = &self.bytes;
        put_slice(buf, bytes);
        proof {
            assert(varint_bytes(key_of(1, WireType::LengthDelimited)) == seq![0x0au8]);
            assert(varint_bytes(16) == seq![0x10u8]);
            assert(final(buf)@ =~= old(buf)@ + encoded_message(self@));
        }
    }

    /// The encoded message, in a new vector (18 bytes).
    pub fn encode_to_vec(&self) -> (r: Vec<u8>)
        ensures
            r@ == encoded_message(self@),
    {
        let mut buf: Vec<u8> = Vec::new();
        self.encode_raw(&mut buf);
        assert(buf@ =~= encoded_message(self@));
        buf
    }

    /// The number of bytes `encode_raw` writes: 18.
    pub fn encoded_len(&self) -> (r: usize)
        ensures
            r == encoded_message(self@).len(),
            r == 18,
    {
        proof {
            assert(varint_bytes(8) == seq![8u8]);
            assert(varint_bytes(16) == seq![0x10u8]);
        }
        key_len(VALUE_TAG) + varint_len(UUID_LEN as u64) + UUID_LEN
    }

    /// Resets to the nil UUID.
    pub fn clear(&mut self)
        ensures
            final(self)@ == nil_bytes(),
    {
        *self = ProstUuid::nil();
    }

    /// Merges one field whose key has been read: field 1 must be a
    /// length-delimited payload of exactly 16 bytes, which replaces the
    /// value; any other field is skipped. Gives the bytes after the field.
    pub fn merge_field<'a>(
        &mut self,
        tag: u32,
        wire_type: WireType,
        buf: &'a [u8],
        ctx: DecodeContext,
    ) -> (r: Result<&'a [u8], DecodeFailure>)
        ensures
            r matches Ok(rest) ==> rest@.len() <= buf@.len(),
            tag != VALUE_TAG ==> *final(self) == *old(self) && match r {
                Ok(rest) => skipped_to(wire_type, buf@, rest@) && skip_outcome(
                    wire_type,
                    tag,
                    buf@,
                    context_budget(ctx),
                ) == Some((buf@.len() - rest@.len()) as nat),
                Err(e) => e.kind() == FailureKind::Skip && skip_outcome(
                    wire_type,
                    tag,
                    buf@,
                    context_budget(ctx),
                ) is None,
            },
            tag != VALUE_TAG && context_budget(ctx) > 0 && scalar_field_fits(wire_type, buf@)
                ==> r is Ok,
            tag != VALUE_TAG && context_budget(ctx) == 0 ==> r is Err,
            tag == VALUE_TAG ==> match value_field(wire_type, buf@) {
                Ok((b, m)) => r matches Ok(rest) && rest@ == buf@.skip(m as int) && final(self)@
                    == b,
                Err(f) => r matches Err(e) && e.kind() == f && *final(self) == *old(self),
            },
    {
        if tag != VALUE_TAG {
            return match skip_field(wire_type, tag, buf, ctx) {
                Ok(rest) => Ok(rest),
                Err(e) => Err(DecodeFailure::Skip(e)),
            };
        }
        if let Err(e) = check_length_delimited(wire_type) {
            return Err(DecodeFailure::WireType(e));
        }
        let (len, rest) = match take_varint(buf) {
            Ok(x) => x,
            Err(e) => return Err(DecodeFailure::LengthVarint(e)),
        };
        proof {
            lemma_varint_prefix_len(buf@, 10);
        }
        if len != UUID_LEN as u64 {
            return Err(DecodeFailure::Uuid(Error::InvalidLength(len as usize)));
        }
        if rest.len() < UUID_LEN {
            return Err(DecodeFailure::BufferUnderflow);
        }
        let (bytes, tail) = copy_16(rest);
        self.bytes = bytes;
        proof {
            let n = (buf@.len() - rest@.len()) as nat;
            assert(final(self)@ =~= buf@.subrange(n as int, (n + 16) as int));
            assert(tail@ =~= buf@.skip((n + 16) as int));
        }
        Ok(tail)
    }

    /// Decodes the message from `buf`, as `prost::Message::decode` does:
    /// starting from the nil UUID, reads a key and merges its field until the
    /// input is used up.
    pub fn decode(buf: &[u8]) -> (r: Result<Self, DecodeFailure>)
        ensures
            decodes_to(buf@, nil_bytes(), outcome(r)),
    {
        let mut id = ProstUuid::nil();
        let mut rest: &[u8] = buf;
        while rest.len() > 0
            invariant
                forall|res: Result<Seq<u8>, FailureKind>|
                    #[trigger] decodes_to(rest@, id@, res) ==> decodes_to(buf@, nil_bytes(), res),
            decreases rest@.len(),
        {
            let (tag, w, after_key) = match take_key(rest) {
                Ok(x) => x,
                Err(e) => {
                    assert(decodes_to(rest@, id@, Err(FailureKind::Key)));
                    return Err(DecodeFailure::Key(e));
                },
            };
            proof {
                lemma_varint_prefix_len(rest@, 10);
            }
            let ghost old_rest = rest@;
            let ghost old_id = id@;
            match id.merge_field(tag, w, after_key, fresh_context()) {
                Ok(next) => {
                    proof {
                        assert forall|res: Result<Seq<u8>, FailureKind>|
                            #[trigger] decodes_to(next@, id@, res) implies decodes_to(
                            old_rest,
                            old_id,
                            res,
                        ) by {
                            if tag != 1 {
                                assert(skipped_to(w, after_key@, next@));
                            }
                        }
                    }
                    rest = next;
                },
                Err(e) => {
                    assert(decodes_to(old_rest, old_id, Err(e.kind())));
                    return Err(e);
                },
            }
        }
        assert(decodes_to(rest@, id@, Ok(id@)));
        Ok(id)
    }
}

} // verus!
