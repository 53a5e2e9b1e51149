//! The ASN.1 block tree that SNMP messages are built from, a mathematical
//! model of it, and the DER encoder that turns a block into bytes.

use simple_asn1::{ASN1Block, ASN1Class, ASN1EncodeErr, BigInt, BigUint, OID};
use vstd::prelude::*;

verus! {

/// simple_asn1's block, opaque here: it only carries a converted block to
/// the encoder.
#[verifier::external_type_specification]
#[verifier::external_body]
pub struct ExAsn1Block(ASN1Block);

/// simple_asn1's tag class, opaque here.
#[verifier::external_type_specification]
#[verifier::external_body]
pub struct ExAsn1Class(ASN1Class);

/// simple_asn1's object identifier, opaque here.
#[verifier::external_type_specification]
#[verifier::external_body]
pub struct ExOid(OID);

/// The class of an ASN.1 tag.
#[derive(Clone, Copy, Debug, PartialEq, Eq, Structural)]
pub enum Asn1Class {
    Universal,
    Application,
    ContextSpecific,
    Private,
}

/// The components of an object identifier, left to right.
#[derive(Debug, PartialEq, Eq)]
pub struct Oid(pub Vec<u32>);

impl View for Oid {
    type V = Seq<u32>;

    open spec fn view(&self) -> Seq<u32> {
        self.0@
    }
}

/// An ASN.1 block, as the blocks of an SNMP message need them. The first
/// `usize` of each variant is the block's offset in a parsed document; the
/// encoder ignores it.
#[derive(Debug, PartialEq, Eq)]
pub enum Asn1Block {
    Integer(usize, i64),
    OctetString(usize, Vec<u8>),
    Null(usize),
    ObjectIdentifier(usize, Oid),
    Sequence(usize, Vec<Asn1Block>),
    /// A block with an explicit class and tag: class, constructed, offset,
    /// tag number and raw content.
    Unknown(Asn1Class, bool, usize, u64, Vec<u8>),
}

/// What an [`Asn1Block`] denotes.
pub enum Asn1Value {
    Integer(nat, int),
    OctetString(nat, Seq<u8>),
    Null(nat),
    ObjectIdentifier(nat, Seq<u32>),
    Sequence(nat, Seq<Asn1Value>),
    Unknown(Asn1Class, bool, nat, nat, Seq<u8>),
}

pub open spec fn block_value(b: Asn1Block) -> Asn1Value
    decreases b, 0int,
{
    match b {
        Asn1Block::Integer(o, v) => Asn1Value::Integer(o as nat, v as int),
        Asn1Block::OctetString(o, c) => Asn1Value::OctetString(o as nat, c@),
        Asn1Block::Null(o) => Asn1Value::Null(o as nat),
        Asn1Block::ObjectIdentifier(o, id) => Asn1Value::ObjectIdentifier(o as nat, id@),
        Asn1Block::Sequence(o, items) => {
            proof {
                assert(decreases_to!(b => items));
                assert(decreases_to!(items => items@));
            }
            Asn1Value::Sequence(o as nat, block_values(items@))
        },
        Asn1Block::Unknown(c, k, o, t, bytes) => Asn1Value::Unknown(
            c,
            k,
            o as nat,
            t as nat,
            bytes@,
        ),
    }
}

/// The values of a sequence of blocks, in order.
pub open spec fn block_values(s: Seq<Asn1Block>) -> Seq<Asn1Value>
    decreases s, 1int,
{
    if s.len() == 0 {
        Seq::empty()
    } else {
        block_values(s.drop_last()).push(block_value(s.last()))
    }
}

impl View for Asn1Block {
    type V = Asn1Value;

    open spec fn view(&self) -> Asn1Value {
        block_value(*self)
    }
}

pub proof fn lemma_block_values_len(s: Seq<Asn1Block>)
    ensures
        block_values(s).len() == s.len(),
    decreases s.len(),
{
    if s.len() > 0 {
        lemma_block_values_len(s.drop_last());
    }
}

pub proof fn lemma_block_values_index(s: Seq<Asn1Block>, i: int)
    requires
        0 <= i < s.len(),
    ensures
        block_values(s).len() == s.len(),
        block_values(s)[i] == block_value(s[i]),
    decreases s.len(),
{
    lemma_block_values_len(s);
    if i < s.len() - 1 {
        lemma_block_values_index(s.drop_last(), i);
    }
}

pub proof fn lemma_block_values_push(s: Seq<Asn1Block>, b: Asn1Block)
    ensures
        block_values(s.push(b)) == block_values(s).push(block_value(b)),
{
    assert(s.push(b).drop_last() =~= s);
}

pub proof fn lemma_block_values_empty()
    ensures
        block_values(Seq::<Asn1Block>::empty()) == Seq::<Asn1Value>::empty(),
{
}

/// The values of two sequences of blocks, one after the other.
pub proof fn lemma_block_values_append(a: Seq<Asn1Block>, b: Seq<Asn1Block>)
    ensures
        block_values(a + b) == block_values(a) + block_values(b),
    decreases b.len(),
{
    if b.len() == 0 {
        assert(a + b =~= a);
        assert(block_values(a) + block_values(b) =~= block_values(a));
    } else {
        lemma_block_values_append(a, b.drop_last());
        assert((a + b).drop_last() =~= a + b.drop_last());
        assert(block_values(a) + block_values(b) =~= (block_values(a) + block_values(
            b.drop_last(),
        )).push(block_value(b.last())));
    }
}

/// `block_values` maps a sequence element by element.
pub proof fn lemma_block_values_map(s: Seq<Asn1Block>)
    ensures
        block_values(s) == s.map_values(|b: Asn1Block| block_value(b)),
{
    lemma_block_values_len(s);
    assert forall|i: int| 0 <= i < s.len() implies block_values(s)[i] == block_value(s[i]) by {
        lemma_block_values_index(s, i);
    }
    assert(block_values(s) =~= s.map_values(|b: Asn1Block| block_value(b)));
}

/// Why the DER encoder refuses a block.
#[derive(Clone, Copy, Debug, PartialEq, Eq, Structural)]
pub enum Asn1EncodeError {
    ObjectIdentHasTooFewFields,
    ObjectIdentVal1TooLarge,
    ObjectIdentVal2TooLarge,
}

/// DER packs the first two components of an object identifier into one
/// octet: there must be two, the first at most 2, the second at most 39
/// (at most 175 under the first arc 2).
pub open spec fn oid_error(c: Seq<u32>) -> Option<Asn1EncodeError> {
    if c.len() < 2 {
        Some(Asn1EncodeError::ObjectIdentHasTooFewFields)
    } else if c[0] > 2 {
        Some(Asn1EncodeError::ObjectIdentVal1TooLarge)
    } else if c[1] > (if c[0] == 2 { 175u32 } else { 39u32 }) {
        Some(Asn1EncodeError::ObjectIdentVal2TooLarge)
    } else {
        None
    }
}

/// The error that DER encoding of a block meets first, if any: that of the
/// first object identifier, in document order, that cannot be packed.
pub open spec fn der_error(v: Asn1Value) -> Option<Asn1EncodeError>
    decreases v, 0int,
{
    match v {
        Asn1Value::ObjectIdentifier(_, c) => oid_error(c),
        Asn1Value::Sequence(_, items) => first_der_error(items),
        _ => None,
    }
}

/// The error that DER encoding meets first in a sequence of blocks, taken in
/// order.
pub open spec fn first_der_error(s: Seq<Asn1Value>) -> Option<Asn1EncodeError>
    decreases s, 1int,
{
    if s.len() == 0 {
        None
    } else {
        match first_der_error(s.drop_last()) {
            Some(e) => Some(e),
            None => der_error(s.last()),
        }
    }
}

/// The DER encoding of a block that the encoder accepts.
pub uninterp spec fn der_encoding(v: Asn1Value) -> Seq<u8>;

/// The DER encodings of a sequence of blocks, one after the other.
pub open spec fn der_concat(s: Seq<Asn1Value>) -> Seq<u8>
    decreases s.len(),
{
    if s.len() == 0 {
        Seq::empty()
    } else {
        der_concat(s.drop_last()) + der_encoding(s.last())
    }
}

/// A sequence of blocks meets no encoder error when none of its blocks
/// does.
pub proof fn law_no_der_error(s: Seq<Asn1Value>)
    requires
        forall|i: int| 0 <= i < s.len() ==> #[trigger] der_error(s[i]) is None,
    ensures
        first_der_error(s) is None,
    decreases s.len(),
{
    if s.len() > 0 {
        let p = s.drop_last();
        assert forall|i: int| 0 <= i < p.len() implies #[trigger] der_error(p[i]) is None by {
            assert(p[i] == s[i]);
        }
        law_no_der_error(p);
        assert(der_error(s[s.len() - 1]) is None);
    }
}

/// The encoder error of a sequence is that of its first block that meets
/// one.
pub proof fn law_first_der_error(s: Seq<Asn1Value>, i: int)
    requires
        0 <= i < s.len(),
        der_error(s[i]) is Some,
        forall|j: int| 0 <= j < i ==> #[trigger] der_error(s[j]) is None,
    ensures
        first_der_error(s) == der_error(s[i]),
    decreases s.len(),
{
    let p = s.drop_last();
    if i == s.len() - 1 {
        assert forall|j: int| 0 <= j < p.len() implies #[trigger] der_error(p[j]) is None by {
            assert(p[j] == s[j]);
        }
        law_no_der_error(p);
    } else {
        assert(p[i] == s[i]);
        assert forall|j: int| 0 <= j < i implies #[trigger] der_error(p[j]) is None by {
            assert(p[j] == s[j]);
        }
        law_first_der_error(p, i);
    }
}

/// Once an error is met in a prefix, it is the error of the whole sequence.
pub proof fn lemma_first_der_error_prefix(s: Seq<Asn1Value>, k: int)
    requires
        0 <= k <= s.len(),
        first_der_error(s.take(k)) is Some,
    ensures
        first_der_error(s) == first_der_error(s.take(k)),
    decreases s.len(),
{
    if k == s.len() {
        assert(s.take(k) =~= s);
    } else {
        assert(s.drop_last().take(k) =~= s.take(k));
        lemma_first_der_error_prefix(s.drop_last(), k);
    }
}

/// Taking one more element of a sequence of blocks.
pub proof fn lemma_take_one_more(s: Seq<Asn1Value>, i: int)
    requires
        0 <= i < s.len(),
    ensures
        first_der_error(s.take(i + 1)) == (match first_der_error(s.take(i)) {
            Some(e) => Some(e),
            None => der_error(s[i]),
        }),
        der_concat(s.take(i + 1)) == der_concat(s.take(i)) + der_encoding(s[i]),
{
    assert(s.take(i + 1).drop_last() =~= s.take(i));
}

/// The message that the encoder's error displays.
pub open spec fn encode_error_text(e: Asn1EncodeError) -> Seq<char> {
    match e {
        Asn1EncodeError::ObjectIdentHasTooFewFields => "ASN1 object identifier has too few fields."@,
        Asn1EncodeError::ObjectIdentVal1TooLarge => "First value in ASN1 OID is too big."@,
        Asn1EncodeError::ObjectIdentVal2TooLarge => "Second value in ASN1 OID is too big."@,
    }
}

/// Converts a class to simple_asn1's `ASN1Class`, variant for variant.
/// Nothing is claimed of the (opaque) result.
#[verifier::external_body]
fn outside_class(c: Asn1Class) -> ASN1Class {
    match c {
        Asn1Class::Universal => ASN1Class::Universal,
        Asn1Class::Application => ASN1Class::Application,
        Asn1Class::ContextSpecific => ASN1Class::ContextSpecific,
        Asn1Class::Private => ASN1Class::Private,
    }
}

/// Converts the components to `BigUint`s (`BigUint::from`) and builds
/// simple_asn1's `OID` with `OID::new`. Nothing is claimed of the (opaque)
/// result.
#[verifier::external_body]
fn outside_oid(id: &Oid) -> OID {
    OID::new(id.0.iter().map(|&n| BigUint::from(n)).collect())
}

/// Converts a block to simple_asn1's `ASN1Block`, variant for variant and
/// field for field (integers through `BigInt::from` / `BigUint::from`).
/// Nothing is claimed of the (opaque) result; `der_encode` states what
/// encoding the converted block gives.
#[verifier::external_body]
fn outside_block(b: &Asn1Block) -> ASN1Block {
    match b {
        Asn1Block::Integer(o, v) => ASN1Block::Integer(*o, BigInt::from(*v)),
        Asn1Block::OctetString(o, c) => ASN1Block::OctetString(*o, c.clone()),
        Asn1Block::Null(o) => ASN1Block::Null(*o),
        Asn1Block::ObjectIdentifier(o, id) => ASN1Block::ObjectIdentifier(*o, outside_oid(id)),
        Asn1Block::Sequence(o, items) => {
            ASN1Block::Sequence(*o, items.iter().map(outside_block).collect())
        },
        Asn1Block::Unknown(c, k, o, t, bytes) => {
            ASN1Block::Unknown(outside_class(*c), *k, *o, BigUint::from(*t), bytes.clone())
        },
    }
}

/// Calls `simple_asn1::to_der` on the block. The contract claims what its
/// source shows for the variants modelled here: it fails exactly when an
/// object identifier in the block cannot be packed, with the error of the
/// first such identifier, and otherwise returns bytes that depend on the
/// block alone (named `der_encoding`; the encoding itself is not stated).
#[verifier::external_body]
pub(crate) fn der_encode(block: &Asn1Block) -> (r: Result<Vec<u8>, Asn1EncodeError>)
    ensures
        match r {
            Ok(bytes) => der_error(block@) is None && bytes@ == der_encoding(block@),
            Err(e) => der_error(block@) == Some(e),
        },
{
    match simple_asn1::to_der(&outside_block(block)) {
        Ok(bytes) => Ok(bytes),
        Err(ASN1EncodeErr::ObjectIdentHasTooFewFields) => Err(Asn1EncodeError::ObjectIdentHasTooFewFields),
        Err(ASN1EncodeErr::ObjectIdentVal1TooLarge) => Err(Asn1EncodeError::ObjectIdentVal1TooLarge),
        Err(ASN1EncodeErr::ObjectIdentVal2TooLarge) => Err(Asn1EncodeError::ObjectIdentVal2TooLarge),
    }
}

/// Calls `to_string` (the `Display` impl) on the `simple_asn1::ASN1EncodeErr`
/// variant that `e` stands for; the contract states the three messages that
/// its source declares.
#[verifier::external_body]
pub(crate) fn encode_error_message(e: Asn1EncodeError) -> (r: String)
    ensures
        r@ == encode_error_text(e),
{
    let outside = match e {
        Asn1EncodeError::ObjectIdentHasTooFewFields => ASN1EncodeErr::ObjectIdentHasTooFewFields,
        Asn1EncodeError::ObjectIdentVal1TooLarge => ASN1EncodeErr::ObjectIdentVal1TooLarge,
        Asn1EncodeError::ObjectIdentVal2TooLarge => ASN1EncodeErr::ObjectIdentVal2TooLarge,
    };
    outside.to_string()
}

} // verus!
