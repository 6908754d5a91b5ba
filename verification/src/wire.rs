//! Protobuf wire primitives: varints, field keys and wire types, as prost
//! writes and reads them.

use vstd::prelude::*;

use prost::encoding::DecodeContext;
use prost::encoding::WireType as PWire;
use prost::DecodeError;

verus! {

#[verifier::external_type_specification]
#[verifier::external_body]
pub struct ExDecodeError(DecodeError);

#[verifier::external_type_specification]
#[verifier::external_body]
pub struct ExDecodeContext(DecodeContext);

/// The largest field number protobuf allows.
pub const MAX_TAG: u32 = 536870911;

/// The wire type of a protobuf field.
#[derive(Clone, Copy, Debug, PartialEq, Eq, Structural)]
pub enum WireType {
    Varint,
    SixtyFourBit,
    LengthDelimited,
    StartGroup,
    EndGroup,
    ThirtyTwoBit,
}

impl WireType {
    /// The three-bit code of the wire type in a field key.
    pub open spec fn code(self) -> nat {
        match self {
            WireType::Varint => 0,
            WireType::SixtyFourBit => 1,
            WireType::LengthDelimited => 2,
            WireType::StartGroup => 3,
            WireType::EndGroup => 4,
            WireType::ThirtyTwoBit => 5,
        }
    }
}

/// The wire type with code `k`, for `k <= 5`.
pub open spec fn wire_type_of(k: nat) -> WireType {
    if k == 0 {
        WireType::Varint
    } else if k == 1 {
        WireType::SixtyFourBit
    } else if k == 2 {
        WireType::LengthDelimited
    } else if k == 3 {
        WireType::StartGroup
    } else if k == 4 {
        WireType::EndGroup
    } else {
        WireType::ThirtyTwoBit
    }
}

/// The LEB128 encoding of `v`: seven bits per byte, least significant group
/// first, the high bit set on every byte but the last.
pub open spec fn varint_bytes(v: nat) -> Seq<u8>
    decreases v,
{
    if v < 128 {
        seq![v as u8]
    } else {
        seq![(v % 128 + 128) as u8] + varint_bytes(v / 128)
    }
}

/// The LEB128 value at the front of `s` and the number of bytes it takes,
/// reading at most `limit` bytes; `None` when no byte below `0x80` ends it
/// within that many bytes.
pub open spec fn varint_prefix(s: Seq<u8>, limit: nat) -> Option<(nat, nat)>
    decreases limit,
{
    if limit == 0 || s.len() == 0 {
        None
    } else if s[0] < 128 {
        Some((s[0] as nat, 1))
    } else {
        match varint_prefix(s.drop_first(), (limit - 1) as nat) {
            Some((v, n)) => Some(((s[0] - 128) as nat + 128 * v, n + 1)),
            None => None,
        }
    }
}

/// The varint that prost reads at the front of `s`: at most ten bytes whose
/// value fits in 64 bits; gives the value and the number of bytes read.
pub open spec fn decoded_varint(s: Seq<u8>) -> Option<(u64, nat)> {
    match varint_prefix(s, 10) {
        Some((v, n)) => if v <= u64::MAX {
            Some((v as u64, n))
        } else {
            None
        },
        None => None,
    }
}

/// The key of a field: its number shifted left by three, or'ed with the wire type.
pub open spec fn key_of(tag: nat, w: WireType) -> nat {
    tag * 8 + w.code()
}

/// The field key that prost reads at the front of `s`: a varint that fits in
/// 32 bits, with a known wire type and a field number of at least 1; gives
/// the field number, the wire type and the number of bytes read.
pub open spec fn decoded_key(s: Seq<u8>) -> Option<(u32, WireType, nat)> {
    match decoded_varint(s) {
        Some((k, n)) => if k <= u32::MAX && k % 8 <= 5 && k / 8 >= 1 {
            Some(((k / 8) as u32, wire_type_of((k % 8) as nat), n))
        } else {
            None
        },
        None => None,
    }
}

/// What a successful skip of a field with wire type `w` leaves of `s`: a
/// suffix of `s`; for the scalar wire types exactly the bytes after the
/// field's payload. An end-group key is never skipped.
pub open spec fn skipped_to(w: WireType, s: Seq<u8>, rest: Seq<u8>) -> bool {
    &&& rest.len() <= s.len()
    &&& rest == s.skip(s.len() - rest.len())
    &&& w != WireType::EndGroup
    &&& (w == WireType::Varint ==> (decoded_varint(s) matches Some((_, n)) && rest == s.skip(
        n as int,
    )))
    &&& (w == WireType::ThirtyTwoBit ==> s.len() >= 4 && rest == s.skip(4))
    &&& (w == WireType::SixtyFourBit ==> s.len() >= 8 && rest == s.skip(8))
    &&& (w == WireType::LengthDelimited ==> (decoded_varint(s) matches Some((len, n)) && n + len
        <= s.len() && rest == s.skip(n + len)))
}

/// `prost::encoding::encode_key`: appends the varint of the field key.
#[verifier::external_body]
pub(crate) fn put_key(tag: u32, w: WireType, buf: &mut Vec<u8>)
    requires
        1 <= tag <= MAX_TAG,
    ensures
        final(buf)@ == old(buf)@ + varint_bytes(key_of(tag as nat, w)),
{
    let pw = match w {
        WireType::Varint => PWire::Varint,
        WireType::SixtyFourBit => PWire::SixtyFourBit,
        WireType::LengthDelimited => PWire::LengthDelimited,
        WireType::StartGroup => PWire::StartGroup,
        WireType::EndGroup => PWire::EndGroup,
        WireType::ThirtyTwoBit => PWire::ThirtyTwoBit,
    };
    prost::encoding::encode_key(tag, pw, buf)
}

/// `prost::encoding::encode_varint`: appends the LEB128 encoding of `v`.
#[verifier::external_body]
pub(crate) fn put_varint(v: u64, buf: &mut Vec<u8>)
    ensures
        final(buf)@ == old(buf)@ + varint_bytes(v as nat),
{
    prost::encoding::encode_varint(v, buf)
}

/// `BufMut::put_slice` on a `Vec<u8>`: appends the bytes.
#[verifier::external_body]
pub(crate) fn put_slice(buf: &mut Vec<u8>, src: &[u8])
    ensures
        final(buf)@ == old(buf)@ + src@,
{
    prost::bytes::BufMut::put_slice(buf, src)
}

/// `prost::encoding::encoded_len_varint`: the length of the LEB128 encoding of `v`.
#[verifier::external_body]
pub(crate) fn varint_len(v: u64) -> (r: usize)
    ensures
        r == varint_bytes(v as nat).len(),
{
    prost::encoding::encoded_len_varint(v)
}

/// `prost::encoding::key_len`: the length of the varint of a field key.
#[verifier::external_body]
pub(crate) fn key_len(tag: u32) -> (r: usize)
    requires
        tag <= MAX_TAG,
    ensures
        r == varint_bytes(tag as nat * 8).len(),
{
    prost::encoding::key_len(tag)
}

/// `prost::encoding::decode_varint` on a byte slice: the value and the bytes
/// after it, or an error when `decoded_varint` finds none.
#[verifier::external_body]
pub(crate) fn take_varint(buf: &[u8]) -> (r: Result<(u64, &[u8]), DecodeError>)
    ensures
        match r {
            Ok((v, rest)) => decoded_varint(buf@) matches Some((w, n)) && v == w && rest@
                == buf@.skip(n as int),
            Err(_) => decoded_varint(buf@) is None,
        },
{
    let mut b = buf;
    let v = prost::encoding::decode_varint(&mut b)?;
    Ok((v, b))
}

/// `prost::encoding::decode_key` on a byte slice: the field number, the wire
/// type and the bytes after the key, or an error when `decoded_key` finds none.
#[verifier::external_body]
pub(crate) fn take_key(buf: &[u8]) -> (r: Result<(u32, WireType, &[u8]), DecodeError>)
    ensures
        match r {
            Ok((tag, w, rest)) => decoded_key(buf@) matches Some((t, v, n)) && tag == t && w == v
                && rest@ == buf@.skip(n as int),
            Err(_) => decoded_key(buf@) is None,
        },
{
    let mut b = buf;
    let (tag, pw) = prost::encoding::decode_key(&mut b)?;
    let w = match pw {
        PWire::Varint => WireType::Varint,
        PWire::SixtyFourBit => WireType::SixtyFourBit,
        PWire::LengthDelimited => WireType::LengthDelimited,
        PWire::StartGroup => WireType::StartGroup,
        PWire::EndGroup => WireType::EndGroup,
        PWire::ThirtyTwoBit => WireType::ThirtyTwoBit,
    };
    Ok((tag, w, b))
}

/// `prost::encoding::check_wire_type` with `LengthDelimited` expected: an
/// error exactly when `actual` is another wire type.
#[verifier::external_body]
pub(crate) fn check_length_delimited(actual: WireType) -> (r: Result<(), DecodeError>)
    ensures
        r is Ok <==> actual == WireType::LengthDelimited,
{
    let pw = match actual {
        WireType::Varint => PWire::Varint,
        WireType::SixtyFourBit => PWire::SixtyFourBit,
        WireType::LengthDelimited => PWire::LengthDelimited,
        WireType::StartGroup => PWire::StartGroup,
        WireType::EndGroup => PWire::EndGroup,
        WireType::ThirtyTwoBit => PWire::ThirtyTwoBit,
    };
    prost::encoding::check_wire_type(PWire::LengthDelimited, pw)
}

/// The recursion budget that a decode context carries: how many more levels
/// of nested groups prost may still enter; skipping fails when it is 0.
pub uninterp spec fn context_budget(c: DecodeContext) -> nat;

/// Whether a field with the scalar wire type `w` is well formed at the front
/// of `s`: a varint, four or eight bytes, or a varint length and that many
/// bytes. Groups are not scalar.
pub open spec fn scalar_field_fits(w: WireType, s: Seq<u8>) -> bool {
    match w {
        WireType::Varint => decoded_varint(s) is Some,
        WireType::ThirtyTwoBit => s.len() >= 4,
        WireType::SixtyFourBit => s.len() >= 8,
        WireType::LengthDelimited => decoded_varint(s) matches Some((len, n)) && n + len <= s.len(),
        WireType::StartGroup => false,
        WireType::EndGroup => false,
    }
}

/// How many bytes prost's `skip_field` consumes when it skips a field with
/// wire type `w` and number `tag` at the front of `s`, given a decode context
/// whose recursion budget is `budget`; `None` when it refuses the field.
pub uninterp spec fn skip_outcome(w: WireType, tag: u32, s: Seq<u8>, budget: nat) -> Option<nat>;

/// `prost::encoding::skip_field` on a byte slice: the bytes after the skipped
/// field, as `skip_outcome` names it. Every success leaves what `skipped_to`
/// describes; with no budget left it always fails, and with budget left a
/// well-formed scalar field is always skipped.
#[verifier::external_body]
pub(crate) fn skip_field(w: WireType, tag: u32, buf: &[u8], ctx: DecodeContext) -> (r: Result<
    &[u8],
    DecodeError,
>)
    ensures
        match r {
            Ok(rest) => skip_outcome(w, tag, buf@, context_budget(ctx)) == Some(
                (buf@.len() - rest@.len()) as nat,
            ),
            Err(_) => skip_outcome(w, tag, buf@, context_budget(ctx)) is None,
        },
        r matches Ok(rest) ==> skipped_to(w, buf@, rest@),
        context_budget(ctx) > 0 && scalar_field_fits(w, buf@) ==> r is Ok,
        context_budget(ctx) == 0 ==> r is Err,
{
    let pw = match w {
        WireType::Varint => PWire::Varint,
        WireType::SixtyFourBit => PWire::SixtyFourBit,
        WireType::LengthDelimited => PWire::LengthDelimited,
        WireType::StartGroup => PWire::StartGroup,
        WireType::EndGroup => PWire::EndGroup,
        WireType::ThirtyTwoBit => PWire::ThirtyTwoBit,
    };
    let mut b = buf;
    prost::encoding::skip_field(pw, tag, &mut b, ctx)?;
    Ok(b)
}

/// `DecodeContext::default()`: a fresh decode context, as `Message::decode`
/// starts with; its recursion budget is prost's limit of 100.
#[verifier::external_body]
pub(crate) fn fresh_context() -> (r: DecodeContext)
    ensures
        context_budget(r) == 100,
{
    DecodeContext::default()
}

/// A varint takes at least one byte and no more than the input holds.
pub proof fn lemma_varint_prefix_len(s: Seq<u8>, limit: nat)
    ensures
        varint_prefix(s, limit) matches Some((_, n)) ==> 1 <= n <= s.len() && n <= limit,
    decreases limit,
{
    if limit > 0 && s.len() > 0 && s[0] >= 128 {
        lemma_varint_prefix_len(s.drop_first(), (limit - 1) as nat);
    }
}

/// `128^k`.
pub open spec fn pow128(k: nat) -> nat
    decreases k,
{
    if k == 0 {
        1
    } else {
        128 * pow128((k - 1) as nat)
    }
}

/// Reading a varint back from its encoding, whatever follows it.
pub proof fn lemma_varint_prefix_of_bytes(v: nat, rest: Seq<u8>, limit: nat)
    requires
        0 < limit,
        v < pow128(limit),
    ensures
        varint_prefix(varint_bytes(v) + rest, limit) == Some((v, varint_bytes(v).len())),
    decreases v,
{
    let s = varint_bytes(v) + rest;
    if v < 128 {
        assert(s[0] == v as u8);
    } else {
        assert(v / 128 < pow128((limit - 1) as nat));
        assert(limit - 1 > 0);
        lemma_varint_prefix_of_bytes(v / 128, rest, (limit - 1) as nat);
        assert(s.drop_first() =~= varint_bytes(v / 128) + rest);
        assert(s[0] == (v % 128 + 128) as u8);
        assert(s[0] as nat == v % 128 + 128);
        assert(s[0] >= 128);
        assert((s[0] - 128) as nat + 128 * (v / 128) == v);
        assert(varint_bytes(v).len() == 1 + varint_bytes(v / 128).len());
    }
}

/// prost reads back every 64-bit value that it writes as a varint, and the
/// varint is between one and ten bytes long.
pub proof fn lemma_decoded_varint_bytes(v: u64, rest: Seq<u8>)
    ensures
        decoded_varint(varint_bytes(v as nat) + rest) == Some((v, varint_bytes(v as nat).len())),
        1 <= varint_bytes(v as nat).len() <= 10,
{
    assert(pow128(10) == 1180591620717411303424nat) by {
        reveal_with_fuel(pow128, 11);
    }
    lemma_varint_prefix_of_bytes(v as nat, rest, 10);
    lemma_varint_prefix_len(varint_bytes(v as nat) + rest, 10);
}

} // verus!
