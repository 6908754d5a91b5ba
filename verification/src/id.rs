//! The `ProstUuid` value: 16 bytes in network byte order, and its RFC 9562 checks.

use vstd::prelude::*;

use crate::error::{variant_of_byte, Error, TextError, Variant};
use vstd::std_specs::cmp::PartialEqSpec;
use vstd::std_specs::convert::TryFromSpec;
use crate::text::{hyphenated_text, lemma_hyphenated_value, parsed_text, uuid_hyphenated, uuid_parse};

verus! {

#[verifier::external_type_specification]
#[verifier::external_body]
pub struct ExUuid(uuid::Uuid);

/// The 16 bytes, in network byte order, that a `uuid::Uuid` holds.
pub uninterp spec fn uuid_bytes(u: uuid::Uuid) -> Seq<u8>;

/// The nil UUID's bytes: all zero.
pub open spec fn nil_bytes() -> Seq<u8> {
    Seq::new(16, |_i: int| 0u8)
}

/// The max UUID's bytes: all `0xff`.
pub open spec fn max_bytes() -> Seq<u8> {
    Seq::new(16, |_i: int| 0xffu8)
}

/// The version nibble: the top four bits of byte 6.
pub open spec fn version_of(b: Seq<u8>) -> usize {
    (b[6] / 16) as usize
}

/// The RFC 9562 verdict on 16 bytes: the nil and max UUIDs pass; every other
/// value needs the `10xx` variant and a version in `1..=8`.
pub open spec fn rfc9562_check(b: Seq<u8>) -> Result<(), Error> {
    if b == nil_bytes() || b == max_bytes() {
        Ok(())
    } else if variant_of_byte(b[8]) != Variant::RFC4122 {
        Err(Error::InvalidVariant(variant_of_byte(b[8])))
    } else if 1 <= version_of(b) <= 8 {
        Ok(())
    } else {
        Err(Error::InvalidVersion(version_of(b)))
    }
}

/// `uuid::Uuid::nil`, taken as its bytes.
#[verifier::external_body]
fn uuid_nil() -> (r: [u8; 16])
    ensures
        r@ == nil_bytes(),
{
    uuid::Uuid::nil().into_bytes()
}

/// `uuid::Uuid::max`, taken as its bytes.
#[verifier::external_body]
fn uuid_max() -> (r: [u8; 16])
    ensures
        r@ == max_bytes(),
{
    uuid::Uuid::max().into_bytes()
}

/// `uuid::Uuid::is_nil` on the UUID with these bytes: whether every byte is zero.
#[verifier::external_body]
fn uuid_is_nil(b: &[u8; 16]) -> (r: bool)
    ensures
        r == (b@ == nil_bytes()),
{
    uuid::Uuid::from_bytes(*b).is_nil()
}

/// `uuid::Uuid::is_max` on the UUID with these bytes: whether every byte is `0xff`.
#[verifier::external_body]
fn uuid_is_max(b: &[u8; 16]) -> (r: bool)
    ensures
        r == (b@ == max_bytes()),
{
    uuid::Uuid::from_bytes(*b).is_max()
}

/// `uuid::Uuid::get_variant` on the UUID with these bytes: the variant that the
/// top bits of byte 8 select (`0xxx` NCS, `10xx` RFC, `110x` Microsoft,
/// `111x` future).
#[verifier::external_body]
fn uuid_variant(b: &[u8; 16]) -> (r: Variant)
    ensures
        r == variant_of_byte(b@[8]),
{
    match uuid::Uuid::from_bytes(*b).get_variant() {
        uuid::Variant::NCS => Variant::NCS,
        uuid::Variant::RFC4122 => Variant::RFC4122,
        uuid::Variant::Microsoft => Variant::Microsoft,
        _ => Variant::Future,
    }
}

/// `uuid::Uuid::get_version_num` on the UUID with these bytes: the top
/// nibble of byte 6.
#[verifier::external_body]
fn uuid_version_num(b: &[u8; 16]) -> (r: usize)
    ensures
        r == version_of(b@),
{
    uuid::Uuid::from_bytes(*b).get_version_num()
}

/// `uuid::Uuid::from_bytes`: the UUID that holds these bytes. A `Uuid` is
/// nothing but its 16 bytes, so it is the only UUID that holds them.
#[verifier::external_body]
fn uuid_from_bytes(b: [u8; 16]) -> (r: uuid::Uuid)
    ensures
        uuid_bytes(r) == b@,
        forall|u: uuid::Uuid| uuid_bytes(u) == b@ ==> u == r,
{
    uuid::Uuid::from_bytes(b)
}

/// `uuid::Uuid::into_bytes`: the bytes that the UUID holds.
#[verifier::external_body]
fn uuid_into_bytes(u: uuid::Uuid) -> (r: [u8; 16])
    ensures
        r@ == uuid_bytes(u),
{
    u.into_bytes()
}

/// The 16 bytes of a slice of that length, as an array.
pub(crate) fn array16(bytes: &[u8]) -> (r: [u8; 16])
    requires
        bytes@.len() == 16,
    ensures
        r@ == bytes@,
{
    let arr: [u8; 16] = [
        bytes[0], bytes[1], bytes[2], bytes[3], bytes[4], bytes[5], bytes[6], bytes[7],
        bytes[8], bytes[9], bytes[10], bytes[11], bytes[12], bytes[13], bytes[14], bytes[15],
    ];
    assert(arr@ =~= bytes@);
    arr
}

/// A UUID carried as its 16 raw bytes in network byte order.
#[derive(Clone, Copy, Debug, Eq, PartialOrd, Ord, Hash)]
pub struct ProstUuid {
    pub bytes: [u8; 16],
}

impl View for ProstUuid {
    type V = Seq<u8>;

    open spec fn view(&self) -> Seq<u8> {
        self.bytes@
    }
}

impl PartialEq for ProstUuid {
    fn eq(&self, other: &Self) -> (r: bool) {
        let mut i: usize = 0;
        while i < 16
            invariant
                0 <= i <= 16,
                forall|j: int| 0 <= j < i ==> self.bytes@[j] == other.bytes@[j],
            decreases 16 - i,
        {
            if self.bytes[i] != other.bytes[i] {
                return false;
            }
            i = i + 1;
        }
        assert(self.bytes@ =~= other.bytes@);
        true
    }
}

impl vstd::std_specs::cmp::PartialEqSpecImpl for ProstUuid {
    open spec fn obeys_eq_spec() -> bool {
        true
    }

    open spec fn eq_spec(&self, other: &Self) -> bool {
        self@ == other@
    }
}

impl ProstUuid {
    /// The nil UUID, `00000000-0000-0000-0000-000000000000`. Also the `Default`.
    pub fn nil() -> (r: Self)
        ensures
            r@ == nil_bytes(),
    {
        ProstUuid { bytes: uuid_nil() }
    }

    /// The max UUID, `ffffffff-ffff-ffff-ffff-ffffffffffff`.
    pub fn max() -> (r: Self)
        ensures
            r@ == max_bytes(),
    {
        ProstUuid { bytes: uuid_max() }
    }

    /// Wraps 16 bytes in network byte order (no validation needed).
    pub fn from_bytes(bytes: [u8; 16]) -> (r: Self)
        ensures
            r == (ProstUuid { bytes }),
    {
        ProstUuid { bytes }
    }

    /// The 16 bytes in network byte order.
    pub fn as_bytes(&self) -> (r: &[u8; 16])
        ensures
            r@ == self@,
    {
        &self.bytes
    }

    /// Builds a UUID from a slice, which must be exactly 16 bytes long.
    ///
    /// This is the same check the protobuf decoder performs.
    pub fn from_slice(bytes: &[u8]) -> (r: Result<Self, Error>)
        ensures
            match r {
                Ok(id) => bytes@.len() == 16 && id@ == bytes@,
                Err(e) => bytes@.len() != 16 && e == Error::InvalidLength(bytes@.len() as usize),
            },
    {
        if bytes.len() != 16 {
            return Err(Error::InvalidLength(bytes.len()));
        }
        Ok(Self::from_bytes(array16(bytes)))
    }

    /// Like `from_slice`, but additionally requires the RFC 9562 variant and
    /// version bits (see `validate_rfc9562`).
    pub fn from_slice_strict(bytes: &[u8]) -> (r: Result<Self, Error>)
        ensures
            match r {
                Ok(id) => bytes@.len() == 16 && id@ == bytes@ && rfc9562_check(bytes@) is Ok,
                Err(e) => if bytes@.len() != 16 {
                    e == Error::InvalidLength(bytes@.len() as usize)
                } else {
                    rfc9562_check(bytes@) == Err::<(), Error>(e)
                },
            },
    {
        let id = Self::from_slice(bytes)?;
        id.validate_rfc9562()?;
        Ok(id)
    }

    /// Wraps a `uuid::Uuid`.
    pub fn new(uuid: uuid::Uuid) -> (r: Self)
        ensures
            r@ == uuid_bytes(uuid),
    {
        ProstUuid { bytes: uuid_into_bytes(uuid) }
    }

    /// Unwraps the inner `uuid::Uuid`.
    pub fn into_inner(self) -> (r: uuid::Uuid)
        ensures
            uuid_bytes(r) == self@,
            forall|u: uuid::Uuid| uuid_bytes(u) == self@ ==> u == r,
    {
        uuid_from_bytes(self.bytes)
    }

    /// The 16 bytes, by value.
    pub fn into_bytes(self) -> (r: [u8; 16])
        ensures
            r@ == self@,
    {
        self.bytes
    }

    /// The lowercase hyphenated RFC 9562 text, `xxxxxxxx-xxxx-xxxx-xxxx-xxxxxxxxxxxx`
    /// (what `Display` prints).
    pub fn to_string(&self) -> (r: String)
        ensures
            r@ == hyphenated_text(self@),
    {
        uuid_hyphenated(&self.bytes)
    }

    /// Parses any textual UUID form that `uuid::Uuid::parse_str` accepts:
    /// hyphenated, simple, braced or URN, in either case.
    pub fn parse_str(s: &str) -> (r: Result<Self, TextError>)
        ensures
            match r {
                Ok(id) => parsed_text(s@) == Some(id@),
                Err(_) => parsed_text(s@) is None,
            },
    {
        match uuid_parse(s) {
            Ok(bytes) => Ok(Self::from_bytes(bytes)),
            Err(cause) => Err(TextError { cause }),
        }
    }

    /// Checks the RFC 9562 variant and version bits.
    ///
    /// The nil and max UUIDs are accepted. Everything else must carry the
    /// `10xx` variant and a version between 1 and 8; the NCS, Microsoft and
    /// future variants fail with `Error::InvalidVariant`, an unassigned
    /// version with `Error::InvalidVersion`.
    pub fn validate_rfc9562(&self) -> (r: Result<(), Error>)
        ensures
            r == rfc9562_check(self@),
    {
        if uuid_is_nil(&self.bytes) || uuid_is_max(&self.bytes) {
            return Ok(());
        }
        match uuid_variant(&self.bytes) {
            Variant::RFC4122 => {},
            other => return Err(Error::InvalidVariant(other)),
        }
        let v = uuid_version_num(&self.bytes);
        if 1 <= v && v <= 8 {
            Ok(())
        } else {
            Err(Error::InvalidVersion(v))
        }
    }

    /// Whether this UUID is well-formed according to RFC 9562: either the
    /// nil or max UUID, or variant `10xx` with a version in `1..=8`.
    pub fn is_rfc9562(&self) -> (r: bool)
        ensures
            r == (rfc9562_check(self@) is Ok),
    {
        self.validate_rfc9562().is_ok()
    }
}

/// Parsing the text that `to_string` writes gives the same UUID back, and
/// that text is 36 characters long.
pub proof fn lemma_text_round_trip(id: ProstUuid)
    ensures
        parsed_text(hyphenated_text(id@)) == Some(id@),
        hyphenated_text(id@).len() == 36,
{
    lemma_hyphenated_value(id@);
}

/// The nil and max UUIDs pass the RFC 9562 check.
pub proof fn lemma_nil_and_max_pass()
    ensures
        rfc9562_check(nil_bytes()) is Ok,
        rfc9562_check(max_bytes()) is Ok,
{
}

impl core::str::FromStr for ProstUuid {
    type Err = TextError;

    fn from_str(s: &str) -> (r: Result<Self, TextError>)
        ensures
            match r {
                Ok(id) => parsed_text(s@) == Some(id@),
                Err(_) => parsed_text(s@) is None,
            },
    {
        Self::parse_str(s)
    }
}

impl Default for ProstUuid {
    /// The nil UUID.
    fn default() -> (r: Self)
        ensures
            r@ == nil_bytes(),
    {
        Self::nil()
    }
}

impl From<[u8; 16]> for ProstUuid {
    fn from(bytes: [u8; 16]) -> Self {
        Self::from_bytes(bytes)
    }
}

impl vstd::std_specs::convert::FromSpecImpl<[u8; 16]> for ProstUuid {
    open spec fn obeys_from_spec() -> bool {
        true
    }

    open spec fn from_spec(v: [u8; 16]) -> Self {
        ProstUuid { bytes: v }
    }
}

impl From<uuid::Uuid> for ProstUuid {
    fn from(uuid: uuid::Uuid) -> Self {
        let r = Self::new(uuid);
        proof {
            let a = choose|a: [u8; 16]| a@ == uuid_bytes(uuid);
            assert(r.bytes@ == uuid_bytes(uuid));
            assert(r.bytes == a);
        }
        r
    }
}

impl vstd::std_specs::convert::FromSpecImpl<uuid::Uuid> for ProstUuid {
    open spec fn obeys_from_spec() -> bool {
        true
    }

    open spec fn from_spec(v: uuid::Uuid) -> Self {
        ProstUuid { bytes: choose|a: [u8; 16]| a@ == uuid_bytes(v) }
    }
}

impl PartialEq<uuid::Uuid> for ProstUuid {
    fn eq(&self, other: &uuid::Uuid) -> (r: bool) {
        *self == ProstUuid::new(*other)
    }
}

impl vstd::std_specs::cmp::PartialEqSpecImpl<uuid::Uuid> for ProstUuid {
    open spec fn obeys_eq_spec() -> bool {
        true
    }

    open spec fn eq_spec(&self, other: &uuid::Uuid) -> bool {
        self@ == uuid_bytes(*other)
    }
}

impl PartialEq<ProstUuid> for uuid::Uuid {
    fn eq(&self, other: &ProstUuid) -> (r: bool) {
        ProstUuid::new(*self) == *other
    }
}

impl vstd::std_specs::cmp::PartialEqSpecImpl<ProstUuid> for uuid::Uuid {
    open spec fn obeys_eq_spec() -> bool {
        true
    }

    open spec fn eq_spec(&self, other: &ProstUuid) -> bool {
        uuid_bytes(*self) == other@
    }
}

impl From<ProstUuid> for [u8; 16] {
    fn from(id: ProstUuid) -> Self {
        id.into_bytes()
    }
}

impl vstd::std_specs::convert::FromSpecImpl<ProstUuid> for [u8; 16] {
    open spec fn obeys_from_spec() -> bool {
        true
    }

    open spec fn from_spec(v: ProstUuid) -> Self {
        v.bytes
    }
}

/// What `from_slice` gives for these bytes.
pub open spec fn from_slice_result(b: Seq<u8>) -> Result<ProstUuid, Error> {
    if b.len() == 16 {
        Ok(ProstUuid { bytes: choose|a: [u8; 16]| a@ == b })
    } else {
        Err(Error::InvalidLength(b.len() as usize))
    }
}

impl<'a> TryFrom<&'a [u8]> for ProstUuid {
    type Error = Error;

    fn try_from(bytes: &'a [u8]) -> Result<Self, Error> {
        let r = Self::from_slice(bytes);
        proof {
            if let Ok(id) = r {
                let a = choose|a: [u8; 16]| a@ == bytes@;
                assert(id.bytes@ == bytes@);
                assert(a@ == bytes@);
                assert(id.bytes == a);
            }
        }
        r
    }
}

impl<'a> vstd::std_specs::convert::TryFromSpecImpl<&'a [u8]> for ProstUuid {
    open spec fn obeys_try_from_spec() -> bool {
        true
    }

    open spec fn try_from_spec(v: &'a [u8]) -> Result<Self, Error> {
        from_slice_result(v@)
    }
}

/// Comparing a `ProstUuid` with a `uuid::Uuid`, either way round, is
/// equality of all 16 bytes: values whose bytes differ anywhere are unequal.
pub proof fn lemma_eq_with_uuid(id: ProstUuid, u: uuid::Uuid)
    ensures
        id.eq_spec(&u) <==> id@ == uuid_bytes(u),
        u.eq_spec(&id) <==> id@ == uuid_bytes(u),
        id.eq_spec(&u) == u.eq_spec(&id),
        forall|k: int| 0 <= k < 16 && id@[k] != uuid_bytes(u)[k] ==> !id.eq_spec(&u),
{
}

/// `try_from` on a slice agrees with `from_slice`: it succeeds exactly on 16
/// bytes, giving those bytes, and refuses any other length with that length.
pub proof fn lemma_try_from_slice(b: &[u8])
    ensures
        <ProstUuid as TryFromSpec<&[u8]>>::try_from_spec(b) matches Ok(id) ==> b@.len() == 16
            && id@ == b@,
        b@.len() == 16 ==> <ProstUuid as TryFromSpec<&[u8]>>::try_from_spec(b) is Ok,
        b@.len() != 16 ==> <ProstUuid as TryFromSpec<&[u8]>>::try_from_spec(b) == Err::<
            ProstUuid,
            Error,
        >(Error::InvalidLength(b@.len() as usize)),
{
    if b@.len() == 16 {
        let a = choose|a: [u8; 16]| a@ == b@;
        let w: [u8; 16] = [
            b@[0], b@[1], b@[2], b@[3], b@[4], b@[5], b@[6], b@[7],
            b@[8], b@[9], b@[10], b@[11], b@[12], b@[13], b@[14], b@[15],
        ];
        assert(w@ =~= b@);
        assert(a@ == b@);
    }
}

} // verus!
