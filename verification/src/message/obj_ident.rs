//! SNMP object identifiers: sequences of unsigned 32-bit sub-identifiers.

use crate::text::{decimal, digits_value, law_decimal, push_decimal};
use vstd::prelude::*;

verus! {

/// The most sub-identifiers that an SNMP object identifier may have
/// (RFC 2578, section 3.5).
pub const MAX_OBJECT_IDENTIFIER_LEN: usize = 128;

/// Why a sequence of sub-identifiers is not an object identifier.
#[derive(Debug, PartialEq, Eq, Structural)]
pub enum ObjectIdentifierError {
    /// More sub-identifiers than `MAX_OBJECT_IDENTIFIER_LEN`; holds how many.
    TooLong(usize),
}

/// The text of an object identifier error.
pub open spec fn object_identifier_error_text(e: ObjectIdentifierError) -> Seq<char> {
    match e {
        ObjectIdentifierError::TooLong(n) => "Object identifier too long: "@ + decimal(n as nat)
            + " sub-identifiers"@,
    }
}

/// The text of a too-long error gives the number of sub-identifiers in
/// decimal.
pub proof fn law_object_identifier_error_text(n: usize)
    ensures
        object_identifier_error_text(ObjectIdentifierError::TooLong(n))
            == "Object identifier too long: "@ + decimal(n as nat) + " sub-identifiers"@,
        digits_value(decimal(n as nat)) == n,
{
    law_decimal(n as nat);
}

impl ObjectIdentifierError {
    /// The error as text.
    pub fn to_string(&self) -> (r: String)
        ensures
            r@ == object_identifier_error_text(*self),
    {
        match self {
            ObjectIdentifierError::TooLong(n) => {
                let mut s = String::from_str("Object identifier too long: ");
                push_decimal(&mut s, *n);
                s.append(" sub-identifiers");
                s
            },
        }
    }
}

/// An SNMP object identifier, such as 1.3.6.1.2.1.1.1.0.
#[derive(Debug, PartialEq, Eq)]
pub struct ObjectIdentifier {
    value: Vec<u32>,
}

impl View for ObjectIdentifier {
    type V = Seq<u32>;

    closed spec fn view(&self) -> Seq<u32> {
        self.value@
    }
}

impl ObjectIdentifier {
    /// Builds the object identifier with these sub-identifiers, left to
    /// right; refuses more than `MAX_OBJECT_IDENTIFIER_LEN` of them.
    pub fn new(value: Vec<u32>) -> (r: Result<ObjectIdentifier, ObjectIdentifierError>)
        ensures
            value@.len() <= MAX_OBJECT_IDENTIFIER_LEN ==> (r matches Ok(id) && id@ == value@),
            value@.len() > MAX_OBJECT_IDENTIFIER_LEN ==> r == Err::<ObjectIdentifier, _>(
                ObjectIdentifierError::TooLong(value@.len() as usize),
            ),
    {
        if value.len() > MAX_OBJECT_IDENTIFIER_LEN {
            Err(ObjectIdentifierError::TooLong(value.len()))
        } else {
            Ok(ObjectIdentifier { value })
        }
    }

    /// The number of sub-identifiers.
    pub fn length(&self) -> (r: usize)
        ensures
            r == self@.len(),
    {
        self.value.len()
    }

    /// The sub-identifiers, left to right.
    pub fn get_value(&self) -> (r: &[u32])
        ensures
            r@ == self@,
    {
        self.value.as_slice()
    }
}

} // verus!
