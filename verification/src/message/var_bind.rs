//! Variable bindings (RFC 3416): an object name and its value, and the
//! ASN.1 blocks that carry them.

use crate::asn1::{
    block_value, block_values, lemma_block_values_empty, lemma_block_values_push, Asn1Block, Asn1Class,
    Asn1Value, Oid,
};
use crate::message::obj_ident::{
    object_identifier_error_text, ObjectIdentifier, ObjectIdentifierError,
    MAX_OBJECT_IDENTIFIER_LEN,
};
use crate::message::scoped_pdu::{MessageErrorView, SNMPMessageError};
use crate::message::unsigned::{
    be_bytes, be_value, is_minimal_non_negative, law_unsigned_content_value, lemma_content_len_bound, lemma_content_of_zero, minimal_unsigned, unsigned_content,
};
use vstd::prelude::*;

verus! {

/// The value half of a variable binding.
#[derive(Debug, PartialEq, Eq)]
pub enum BindValue {
    Unspecified,
    Value(ObjectValue),
    NoSuchObject,
    NoSuchInstance,
    EndOfMibView,
}

/// An SNMP object value: the simple syntaxes and the application-wide ones
/// of RFC 2578.
#[derive(Debug, PartialEq, Eq)]
pub enum ObjectValue {
    Integer(i32),
    OctetString(Vec<u8>),
    ObjectIdentifier(ObjectIdentifier),
    /// APPLICATION 0; the four octets of an IPv4 address.
    IpAddress([u8; 4]),
    /// APPLICATION 1
    Counter32(u32),
    /// APPLICATION 2
    Gauge32(u32),
    /// APPLICATION 3 (range 0..4294967295)
    TimeTicks(u64),
    /// APPLICATION 4
    Opaque(Vec<u8>),
    /// APPLICATION 6
    Counter64(u64),
    /// APPLICATION 2 (the tag of Gauge32)
    Unsigned32(u32),
}

/// Encodes an unsigned 32-bit value as minimal big-endian BER integer
/// content. A leading 0x00 is prepended when the high bit of the first
/// octet is set, so that the value does not read as negative.
pub fn encode_uint32(v: u32) -> (r: Vec<u8>)
    ensures
        r@ == unsigned_content(v as nat),
        r@.len() <= 5,
{
    if v == 0 {
        proof {
            lemma_content_of_zero();
        }
        return vec![0x00];
    }
    proof {
        assert((v as u64) >> 24u64 < 256) by (bit_vector);
    }
    let bytes = be_bytes(v as u64, 4);
    proof {
        lemma_content_len_bound(bytes@);
    }
    minimal_unsigned(bytes)
}

/// Same as `encode_uint32`, for 64-bit values (Counter64, TimeTicks).
pub fn encode_uint64(v: u64) -> (r: Vec<u8>)
    ensures
        r@ == unsigned_content(v as nat),
        r@.len() <= 9,
{
    if v == 0 {
        proof {
            lemma_content_of_zero();
        }
        return vec![0x00];
    }
    proof {
        assert(v >> 56u64 < 256) by (bit_vector);
    }
    let bytes = be_bytes(v, 8);
    proof {
        lemma_content_len_bound(bytes@);
    }
    minimal_unsigned(bytes)
}

/// `encode_uint64` writes for a value that fits in 32 bits exactly what
/// `encode_uint32` writes for it.
pub proof fn law_uint_encodings_agree(v: u32)
    ensures
        unsigned_content(v as nat) == unsigned_content((v as u64) as nat),
{
}

/// An APPLICATION-tagged primitive block (RFC 2578 application-wide types).
pub open spec fn app_value(tag: u8, content: Seq<u8>) -> Asn1Value {
    Asn1Value::Unknown(Asn1Class::Application, false, 0, tag as nat, content)
}

/// Builds an APPLICATION-tagged primitive block.
pub fn app_block(tag: u8, content: Vec<u8>) -> (r: Asn1Block)
    ensures
        r@ == app_value(tag, content@),
{
    Asn1Block::Unknown(Asn1Class::Application, false, 0, tag as u64, content)
}

/// An exception value (RFC 3416): an empty primitive block with an implicit
/// context-specific tag.
pub open spec fn exception_value(tag: u8) -> Asn1Value {
    Asn1Value::Unknown(Asn1Class::ContextSpecific, false, 0, tag as nat, Seq::empty())
}

/// Builds the block of an exception value.
pub fn exception_block(tag: u8) -> (r: Asn1Block)
    ensures
        r@ == exception_value(tag),
{
    let content: Vec<u8> = Vec::new();
    Asn1Block::Unknown(Asn1Class::ContextSpecific, false, 0, tag as u64, content)
}

impl Oid {
    /// The ASN.1 object identifier with the sub-identifiers of `value`;
    /// refuses one with more than `MAX_OBJECT_IDENTIFIER_LEN` of them.
    pub fn try_from(value: &ObjectIdentifier) -> (r: Result<Oid, ObjectIdentifierError>)
        ensures
            match r {
                Ok(oid) => value@.len() <= MAX_OBJECT_IDENTIFIER_LEN && oid@ == value@,
                Err(e) => value@.len() > MAX_OBJECT_IDENTIFIER_LEN && e
                    == ObjectIdentifierError::TooLong(value@.len() as usize),
            },
    {
        if value.length() > MAX_OBJECT_IDENTIFIER_LEN {
            return Err(ObjectIdentifierError::TooLong(value.length()));
        }
        let components = value.get_value();
        let mut out: Vec<u32> = Vec::new();
        let mut i: usize = 0;
        while i < components.len()
            invariant
                i <= components@.len(),
                components@ == value@,
                out@ == components@.take(i as int),
            decreases components@.len() - i,
        {
            out.push(components[i]);
            i = i + 1;
            assert(out@ =~= components@.take(i as int));
        }
        assert(components@.take(i as int) =~= components@);
        Ok(Oid(out))
    }
}

/// The error of an object identifier that is too long, as a message error.
pub open spec fn oid_too_long(len: nat) -> MessageErrorView {
    MessageErrorView::EncodeError(
        object_identifier_error_text(ObjectIdentifierError::TooLong(len as usize)),
    )
}

impl ObjectValue {
    /// The block that carries the value, or why there is none.
    pub open spec fn spec_block(&self) -> Result<Asn1Value, MessageErrorView> {
        match self {
            ObjectValue::Integer(v) => Ok(Asn1Value::Integer(0, *v as int)),
            ObjectValue::OctetString(v) => Ok(Asn1Value::OctetString(v@.len(), v@)),
            ObjectValue::ObjectIdentifier(oid) => if oid@.len() > MAX_OBJECT_IDENTIFIER_LEN {
                Err(oid_too_long(oid@.len()))
            } else {
                Ok(Asn1Value::ObjectIdentifier(oid@.len(), oid@))
            },
            ObjectValue::IpAddress(ip) => Ok(app_value(0, ip@)),
            ObjectValue::Counter32(v) => Ok(app_value(1, unsigned_content(*v as nat))),
            ObjectValue::Gauge32(v) => Ok(app_value(2, unsigned_content(*v as nat))),
            ObjectValue::TimeTicks(v) => Ok(app_value(3, unsigned_content(*v as nat))),
            ObjectValue::Opaque(v) => Ok(app_value(4, v@)),
            ObjectValue::Counter64(v) => Ok(app_value(6, unsigned_content(*v as nat))),
            ObjectValue::Unsigned32(v) => Ok(app_value(2, unsigned_content(*v as nat))),
        }
    }

    /// Builds the block that carries the value.
    pub fn to_asn1_block(&self) -> (r: Result<Asn1Block, SNMPMessageError>)
        ensures
            match r {
                Ok(b) => self.spec_block() == Ok::<Asn1Value, MessageErrorView>(b@),
                Err(e) => self.spec_block() == Err::<Asn1Value, MessageErrorView>(e@),
            },
    {
        let asn_block = match self {
            ObjectValue::Integer(v) => Asn1Block::Integer(0, *v as i64),
            ObjectValue::OctetString(v) => {
                let c = v.clone();
                assert(c@ =~= v@);
                Asn1Block::OctetString(v.len(), c)
            },
            ObjectValue::ObjectIdentifier(oid) => {
                let asn1_oid = match Oid::try_from(oid) {
                    Ok(o) => o,
                    Err(e) => {
                        return Err(SNMPMessageError::EncodeError(e.to_string()));
                    },
                };
                Asn1Block::ObjectIdentifier(oid.length(), asn1_oid)
            },
            ObjectValue::IpAddress(ip) => {
                let octets = vec![ip[0], ip[1], ip[2], ip[3]];
                assert(octets@ =~= ip@);
                app_block(0, octets)
            },
            ObjectValue::Counter32(v) => app_block(1, encode_uint32(*v)),
            ObjectValue::Gauge32(v) => app_block(2, encode_uint32(*v)),
            ObjectValue::TimeTicks(v) => app_block(3, encode_uint64(*v)),
            ObjectValue::Opaque(v) => {
                let c = v.clone();
                assert(c@ =~= v@);
                app_block(4, c)
            },
            ObjectValue::Counter64(v) => app_block(6, encode_uint64(*v)),
            ObjectValue::Unsigned32(v) => app_block(2, encode_uint32(*v)),
        };
        Ok(asn_block)
    }
}

/// Unsigned32 shares the tag of Gauge32: the two values are encoded alike.
pub proof fn law_unsigned32_encodes_as_gauge32(v: u32)
    ensures
        ObjectValue::Unsigned32(v).spec_block() == ObjectValue::Gauge32(v).spec_block(),
{
}


/// A value block is an APPLICATION-class primitive with tag `tag` and offset
/// 0 whose content spells `v` as a non-negative, DER-minimal INTEGER.
pub open spec fn carries_unsigned(
    r: Result<Asn1Value, MessageErrorView>,
    tag: nat,
    v: nat,
) -> bool {
    r matches Ok(Asn1Value::Unknown(c, k, o, t, content)) && c == Asn1Class::Application && !k
        && o == 0 && t == tag && be_value(content) == v && is_minimal_non_negative(content)
}

/// The application-wide unsigned values (RFC 2578) are encoded under their
/// own application tags (Counter32 1, Gauge32 2, TimeTicks 3, Counter64 6,
/// Unsigned32 2), with content that reads back as the value, is never taken
/// for a negative number, and carries no redundant leading octet.
pub proof fn law_unsigned_values(v: u32, w: u64)
    ensures
        carries_unsigned(ObjectValue::Counter32(v).spec_block(), 1, v as nat),
        carries_unsigned(ObjectValue::Gauge32(v).spec_block(), 2, v as nat),
        carries_unsigned(ObjectValue::Unsigned32(v).spec_block(), 2, v as nat),
        carries_unsigned(ObjectValue::TimeTicks(w).spec_block(), 3, w as nat),
        carries_unsigned(ObjectValue::Counter64(w).spec_block(), 6, w as nat),
{
    law_unsigned_content_value(v as nat);
    law_unsigned_content_value(w as nat);
}

/// The other values: an INTEGER holds the number itself, an OCTET STRING (its
/// offset the string's length) and
/// an Opaque (APPLICATION 4) hold every octet given, an IpAddress
/// (APPLICATION 0) holds the four address octets in order, and an object
/// identifier value holds all its sub-identifiers unless it is over the
/// length limit.
pub proof fn law_other_values(i: i32, bytes: Vec<u8>, ip: [u8; 4], id: ObjectIdentifier)
    ensures
        ObjectValue::Integer(i).spec_block() == Ok::<Asn1Value, MessageErrorView>(
            Asn1Value::Integer(0, i as int),
        ),
        ObjectValue::OctetString(bytes).spec_block() matches Ok(Asn1Value::OctetString(o, c)) && o
            == bytes@.len() && c == bytes@,
        ObjectValue::Opaque(bytes).spec_block() matches Ok(Asn1Value::Unknown(c, k, o, t, content))
            && c == Asn1Class::Application && !k && o == 0 && t == 4 && content == bytes@,
        ObjectValue::IpAddress(ip).spec_block() matches Ok(Asn1Value::Unknown(c, k, o, t, content))
            && c == Asn1Class::Application && !k && o == 0 && t == 0 && content.len() == 4
            && content[0] == ip[0] && content[1] == ip[1] && content[2] == ip[2] && content[3]
            == ip[3],
        id@.len() <= MAX_OBJECT_IDENTIFIER_LEN ==> ObjectValue::ObjectIdentifier(id).spec_block()
            == Ok::<Asn1Value, MessageErrorView>(Asn1Value::ObjectIdentifier(id@.len(), id@)),
        id@.len() > MAX_OBJECT_IDENTIFIER_LEN ==> ObjectValue::ObjectIdentifier(id).spec_block()
            == Err::<Asn1Value, MessageErrorView>(
            MessageErrorView::EncodeError(
                object_identifier_error_text(ObjectIdentifierError::TooLong(id@.len() as usize)),
            ),
        ),
{
}

/// An unspecified value is NULL, the exceptions noSuchObject,
/// noSuchInstance and endOfMibView are empty primitives tagged [0], [1],
/// [2] in the context-specific class (RFC 3416), and a present value is the
/// block of that value.
pub proof fn law_bind_values(ov: ObjectValue)
    ensures
        BindValue::Unspecified.spec_block() == Ok::<Asn1Value, MessageErrorView>(
            Asn1Value::Null(0),
        ),
        BindValue::NoSuchObject.spec_block() matches Ok(Asn1Value::Unknown(c, k, o, t, content))
            && c == Asn1Class::ContextSpecific && !k && o == 0 && t == 0 && content.len() == 0,
        BindValue::NoSuchInstance.spec_block() matches Ok(Asn1Value::Unknown(c, k, o, t, content))
            && c == Asn1Class::ContextSpecific && !k && o == 0 && t == 1 && content.len() == 0,
        BindValue::EndOfMibView.spec_block() matches Ok(Asn1Value::Unknown(c, k, o, t, content))
            && c == Asn1Class::ContextSpecific && !k && o == 0 && t == 2 && content.len() == 0,
        BindValue::Value(ov).spec_block() == ov.spec_block(),
{
}

impl BindValue {
    /// The block that carries the value, or why there is none.
    pub open spec fn spec_block(&self) -> Result<Asn1Value, MessageErrorView> {
        match self {
            BindValue::Unspecified => Ok(Asn1Value::Null(0)),
            BindValue::Value(ov) => ov.spec_block(),
            BindValue::NoSuchObject => Ok(exception_value(0)),
            BindValue::NoSuchInstance => Ok(exception_value(1)),
            BindValue::EndOfMibView => Ok(exception_value(2)),
        }
    }

    /// Builds the block that carries the value.
    pub fn to_asn1_block(&self) -> (r: Result<Asn1Block, SNMPMessageError>)
        ensures
            match r {
                Ok(b) => self.spec_block() == Ok::<Asn1Value, MessageErrorView>(b@),
                Err(e) => self.spec_block() == Err::<Asn1Value, MessageErrorView>(e@),
            },
    {
        let asn_block = match self {
            BindValue::Unspecified => Asn1Block::Null(0),
            BindValue::Value(ov) => match ov.to_asn1_block() {
                Ok(b) => b,
                Err(e) => {
                    return Err(e);
                },
            },
            BindValue::NoSuchObject => exception_block(0),
            BindValue::NoSuchInstance => exception_block(1),
            BindValue::EndOfMibView => exception_block(2),
        };
        Ok(asn_block)
    }
}

/// What a variable binding holds.
pub struct VarBindView {
    pub name: Seq<u32>,
    pub value: BindValue,
}

/// A variable binding (RFC 3416): an object name and its value.
#[derive(Debug, PartialEq, Eq)]
pub struct VarBind {
    name: ObjectIdentifier,
    value: BindValue,
}

impl View for VarBind {
    type V = VarBindView;

    closed spec fn view(&self) -> VarBindView {
        VarBindView { name: self.name@, value: self.value }
    }
}

/// The blocks that carry a variable binding: one SEQUENCE of the name and
/// the value; or why there are none.
pub open spec fn var_bind_blocks(v: VarBindView) -> Result<Seq<Asn1Value>, MessageErrorView> {
    if v.name.len() > MAX_OBJECT_IDENTIFIER_LEN {
        Err(MessageErrorView::EncodeError("Error encoding OID"@))
    } else {
        match v.value.spec_block() {
            Err(e) => Err(e),
            Ok(value) => Ok(
                seq![
                    Asn1Value::Sequence(
                        0,
                        seq![Asn1Value::ObjectIdentifier(v.name.len(), v.name), value],
                    ),
                ],
            ),
        }
    }
}

/// A result of blocks, by its view.
pub open spec fn blocks_result(r: Result<Vec<Asn1Block>, SNMPMessageError>) -> Result<
    Seq<Asn1Value>,
    MessageErrorView,
> {
    match r {
        Ok(bs) => Ok(block_values(bs@)),
        Err(e) => Err(e@),
    }
}


/// A variable binding encodes exactly when its name is within the length
/// limit and its value encodes. It is then one SEQUENCE, at offset 0, of two
/// elements: an OBJECT IDENTIFIER holding every sub-identifier of the name
/// (its offset the name's length), and the value's block. A name over the
/// limit gives "Error encoding OID"; otherwise a value that does not encode
/// gives the value's error.
pub proof fn law_var_bind_encoding(v: VarBindView)
    ensures
        var_bind_blocks(v) is Ok <==> v.name.len() <= MAX_OBJECT_IDENTIFIER_LEN
            && v.value.spec_block() is Ok,
        v.name.len() > MAX_OBJECT_IDENTIFIER_LEN ==> var_bind_blocks(v) == Err::<
            Seq<Asn1Value>,
            MessageErrorView,
        >(MessageErrorView::EncodeError("Error encoding OID"@)),
        v.name.len() <= MAX_OBJECT_IDENTIFIER_LEN && v.value.spec_block() is Err
            ==> var_bind_blocks(v) == Err::<Seq<Asn1Value>, MessageErrorView>(
            v.value.spec_block()->Err_0,
        ),
        var_bind_blocks(v) matches Ok(bs) ==> bs.len() == 1 && (bs[0] matches Asn1Value::Sequence(
            o,
            items,
        ) && o == 0 && items.len() == 2 && (items[0] matches Asn1Value::ObjectIdentifier(n, c)
            && n == v.name.len() && c == v.name) && v.value.spec_block() == Ok::<
            Asn1Value,
            MessageErrorView,
        >(items[1])),
{
}

impl VarBind {
    pub fn new(name: ObjectIdentifier, value: BindValue) -> (r: Self)
        ensures
            r@ == (VarBindView { name: name@, value }),
    {
        Self { name, value }
    }

    /// The blocks of the binding; the class is not used.
    pub fn to_asn1_class(&self, _c: Asn1Class) -> (r: Result<Vec<Asn1Block>, SNMPMessageError>)
        ensures
            blocks_result(r) == var_bind_blocks(self@),
    {
        let mut asn_vec: Vec<Asn1Block> = Vec::new();
        match Oid::try_from(&self.name) {
            Ok(oid) => asn_vec.push(Asn1Block::ObjectIdentifier(self.name.length(), oid)),
            Err(_) => {
                return Err(SNMPMessageError::EncodeError(String::from_str("Error encoding OID")));
            },
        }
        let value_block = match self.value.to_asn1_block() {
            Ok(b) => b,
            Err(e) => {
                return Err(e);
            },
        };
        asn_vec.push(value_block);
        let ghost items = asn_vec@;
        let asn_seq = Asn1Block::Sequence(0, asn_vec);
        proof {
            lemma_block_values_empty();
            lemma_block_values_push(Seq::empty(), items[0]);
            lemma_block_values_push(seq![items[0]], items[1]);
            assert(items =~= seq![items[0]].push(items[1]));
            assert(Seq::<Asn1Block>::empty().push(items[0]) =~= seq![items[0]]);
            assert(block_values(items) =~= seq![block_value(items[0]), block_value(items[1])]);
            assert(block_value(asn_seq) == Asn1Value::Sequence(0, block_values(items)));
        }
        let r = vec![asn_seq];
        proof {
            lemma_block_values_push(Seq::empty(), asn_seq);
            assert(r@ =~= Seq::<Asn1Block>::empty().push(asn_seq));
            assert(block_values(r@) =~= seq![block_value(asn_seq)]);
        }
        Ok(r)
    }

    /// The blocks of the binding, in the universal class.
    pub fn to_asn1(&self) -> (r: Result<Vec<Asn1Block>, SNMPMessageError>)
        ensures
            blocks_result(r) == var_bind_blocks(self@),
    {
        self.to_asn1_class(Asn1Class::Universal)
    }
}

} // verus!
