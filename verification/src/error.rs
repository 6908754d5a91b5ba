//! Validation errors and the variant field of a UUID.

use vstd::prelude::*;

use uuid::Error as UuidError;

use crate::text::{decimal, lemma_decimal_injective, push_decimal};

verus! {

/// The variant field of a UUID (the top bits of byte 8).
#[derive(Clone, Copy, Debug, PartialEq, Eq, Structural)]
pub enum Variant {
    /// Reserved by the NCS for backward compatibility (`0xxx`).
    NCS,
    /// The variant of RFC 9562 (`10xx`).
    RFC4122,
    /// Reserved by Microsoft for backward compatibility (`110x`).
    Microsoft,
    /// Reserved for future expansion (`111x`).
    Future,
}

/// Validation errors for a `ProstUuid`.
#[derive(Clone, Copy, Debug, PartialEq, Eq, Structural)]
#[non_exhaustive]
pub enum Error {
    /// The byte payload was not exactly 16 bytes; carries the actual length.
    InvalidLength(usize),
    /// The variant bits are not the RFC 9562 `10xx` pattern.
    InvalidVariant(Variant),
    /// The version nibble is outside `1..=8`.
    InvalidVersion(usize),
}

/// A text that spells no UUID in any of the forms that `uuid` reads; carries
/// the `uuid` crate's own description of the failure.
#[derive(Debug)]
pub struct TextError {
    pub cause: UuidError,
}

/// The variant that a UUID whose byte 8 is `b` carries.
pub open spec fn variant_of_byte(b: u8) -> Variant {
    if b < 0x80 {
        Variant::NCS
    } else if b < 0xc0 {
        Variant::RFC4122
    } else if b < 0xe0 {
        Variant::Microsoft
    } else {
        Variant::Future
    }
}

impl Variant {
    /// The variant's name as the error messages print it.
    pub open spec fn name(self) -> Seq<char> {
        match self {
            Variant::NCS => "NCS"@,
            Variant::RFC4122 => "RFC4122"@,
            Variant::Microsoft => "Microsoft"@,
            Variant::Future => "Future"@,
        }
    }

    /// Appends the variant's name.
    pub fn push_name(&self, s: &mut String)
        ensures
            final(s)@ == old(s)@ + self.name(),
    {
        match self {
            Variant::NCS => s.append("NCS"),
            Variant::RFC4122 => s.append("RFC4122"),
            Variant::Microsoft => s.append("Microsoft"),
            Variant::Future => s.append("Future"),
        }
    }
}

impl Error {
    /// The human-readable message for this error.
    pub open spec fn message(self) -> Seq<char> {
        match self {
            Error::InvalidLength(len) => "invalid UUID length: expected 16 bytes, got "@ + decimal(
                len as nat,
            ),
            Error::InvalidVariant(v) => "invalid UUID variant: "@ + v.name()
                + " (expected RFC 9562)"@,
            Error::InvalidVersion(v) => "invalid UUID version: "@ + decimal(v as nat)
                + " (expected 1 through 8)"@,
        }
    }

    /// Renders the error message.
    pub fn to_string(&self) -> (r: String)
        ensures
            r@ == self.message(),
    {
        match self {
            Error::InvalidLength(len) => {
                let mut s = String::from_str("invalid UUID length: expected 16 bytes, got ");
                push_decimal(&mut s, *len);
                s
            },
            Error::InvalidVariant(v) => {
                let mut s = String::from_str("invalid UUID variant: ");
                v.push_name(&mut s);
                s.append(" (expected RFC 9562)");
                s
            },
            Error::InvalidVersion(v) => {
                let mut s = String::from_str("invalid UUID version: ");
                push_decimal(&mut s, *v);
                s.append(" (expected 1 through 8)");
                s
            },
        }
    }
}

/// Distinct errors have distinct messages: a message tells the kind of
/// error and the length, variant or version it carries.
pub proof fn lemma_messages_distinct(e1: Error, e2: Error)
    requires
        e1 != e2,
    ensures
        e1.message() != e2.message(),
{
    reveal_strlit("invalid UUID length: expected 16 bytes, got ");
    reveal_strlit("invalid UUID variant: ");
    reveal_strlit(" (expected RFC 9562)");
    reveal_strlit("invalid UUID version: ");
    reveal_strlit(" (expected 1 through 8)");
    reveal_strlit("NCS");
    reveal_strlit("RFC4122");
    reveal_strlit("Microsoft");
    reveal_strlit("Future");
    let m1 = e1.message();
    let m2 = e2.message();
    if m1 == m2 {
        match (e1, e2) {
            (Error::InvalidLength(a), Error::InvalidLength(b)) => {
                let p = "invalid UUID length: expected 16 bytes, got "@;
                assert(m1.skip(p.len() as int) =~= decimal(a as nat));
                assert(m2.skip(p.len() as int) =~= decimal(b as nat));
                lemma_decimal_injective(a as nat, b as nat);
            },
            (Error::InvalidVersion(a), Error::InvalidVersion(b)) => {
                let p = "invalid UUID version: "@;
                let q = " (expected 1 through 8)"@;
                let da = decimal(a as nat);
                let db = decimal(b as nat);
                assert(m1.subrange(p.len() as int, m1.len() - q.len()) =~= da);
                assert(m2.subrange(p.len() as int, m2.len() - q.len()) =~= db);
                lemma_decimal_injective(a as nat, b as nat);
            },
            (Error::InvalidVariant(a), Error::InvalidVariant(b)) => {
                assert(a.name().len() != b.name().len());
            },
            (Error::InvalidLength(_), _) => {
                assert(m1[13] == 'l');
                assert(m2[13] == 'v');
            },
            (_, Error::InvalidLength(_)) => {
                assert(m1[13] == 'v');
                assert(m2[13] == 'l');
            },
            (Error::InvalidVariant(_), _) => {
                assert(m1[14] == 'a');
                assert(m2[14] == 'e');
            },
            (Error::InvalidVersion(_), _) => {
                assert(m1[14] == 'e');
                assert(m2[14] == 'a');
            },
        }
    }
}

} // verus!
