use snmp_message::asn1::{Asn1Block, Asn1Class, Oid};
use snmp_message::message::obj_ident::{ObjectIdentifier, ObjectIdentifierError};
use snmp_message::message::var_bind::{
    app_block, exception_block, BindValue, ObjectValue, VarBind,
};

fn oid(v: Vec<u32>) -> Oid {
    Oid(v)
}

#[test]
fn test_create_var_bind() {
    let name = ObjectIdentifier::new(vec![1, 3, 5, 7, 9, 11, 13, 17]).unwrap();
    let value = BindValue::Unspecified;

    let var_bind = VarBind::new(name, value);
    let asn = var_bind.to_asn1().unwrap();

    assert_eq!(
        asn,
        vec![Asn1Block::Sequence(
            0,
            vec![
                Asn1Block::ObjectIdentifier(8, oid(vec![1, 3, 5, 7, 9, 11, 13, 17])),
                Asn1Block::Null(0),
            ]
        )]
    );
}

#[test]
fn test_create_var_bind_with_int_value() {
    let name = ObjectIdentifier::new(vec![1, 3, 5, 7, 9, 11, 13, 17]).unwrap();
    let value = BindValue::Value(ObjectValue::Integer(42));

    let var_bind = VarBind::new(name, value);
    let asn = var_bind.to_asn1().unwrap();

    assert_eq!(
        asn,
        vec![Asn1Block::Sequence(
            0,
            vec![
                Asn1Block::ObjectIdentifier(8, oid(vec![1, 3, 5, 7, 9, 11, 13, 17])),
                Asn1Block::Integer(0, 42),
            ]
        )]
    );
}

#[test]
fn test_create_var_bind_with_string_value() {
    let name = ObjectIdentifier::new(vec![1, 3, 5, 7, 9, 11, 13, 17]).unwrap();
    let value = BindValue::Value(ObjectValue::OctetString(b"This is a test".to_vec()));

    let var_bind = VarBind::new(name, value);
    let asn = var_bind.to_asn1().unwrap();

    assert_eq!(
        asn,
        vec![Asn1Block::Sequence(
            0,
            vec![
                Asn1Block::ObjectIdentifier(8, oid(vec![1, 3, 5, 7, 9, 11, 13, 17])),
                Asn1Block::OctetString(14, b"This is a test".to_vec()),
            ]
        )]
    );
}

fn value_block(v: ObjectValue) -> Asn1Block {
    v.to_asn1_block().unwrap()
}

fn app(tag: u64, content: Vec<u8>) -> Asn1Block {
    Asn1Block::Unknown(Asn1Class::Application, false, 0, tag, content)
}

#[test]
fn application_values_carry_their_tags() {
    assert_eq!(value_block(ObjectValue::IpAddress([192, 168, 0, 1])), app(0, vec![192, 168, 0, 1]));
    assert_eq!(value_block(ObjectValue::Counter32(300)), app(1, vec![0x01, 0x2c]));
    assert_eq!(value_block(ObjectValue::Gauge32(0x80)), app(2, vec![0x00, 0x80]));
    assert_eq!(value_block(ObjectValue::TimeTicks(0)), app(3, vec![0x00]));
    assert_eq!(value_block(ObjectValue::Opaque(vec![9, 8, 7])), app(4, vec![9, 8, 7]));
    assert_eq!(
        value_block(ObjectValue::Counter64(u64::MAX)),
        app(6, vec![0x00, 0xff, 0xff, 0xff, 0xff, 0xff, 0xff, 0xff, 0xff])
    );
    assert_eq!(value_block(ObjectValue::Unsigned32(7)), app(2, vec![0x07]));
}

#[test]
fn unsigned32_is_encoded_as_gauge32() {
    for v in [0u32, 1, 127, 128, 65535, 0x8000_0000, u32::MAX] {
        assert_eq!(value_block(ObjectValue::Unsigned32(v)), value_block(ObjectValue::Gauge32(v)));
    }
}

#[test]
fn object_identifier_value_block() {
    let id = ObjectIdentifier::new(vec![1, 3, 6, 1, 2, 1]).unwrap();
    assert_eq!(
        value_block(ObjectValue::ObjectIdentifier(id)),
        Asn1Block::ObjectIdentifier(6, oid(vec![1, 3, 6, 1, 2, 1]))
    );
}

#[test]
fn negative_integer_value_block() {
    assert_eq!(value_block(ObjectValue::Integer(i32::MIN)), Asn1Block::Integer(0, -2147483648));
}

#[test]
fn exception_values_use_context_tags() {
    let ctx = |tag: u64| Asn1Block::Unknown(Asn1Class::ContextSpecific, false, 0, tag, vec![]);
    assert_eq!(BindValue::NoSuchObject.to_asn1_block().unwrap(), ctx(0));
    assert_eq!(BindValue::NoSuchInstance.to_asn1_block().unwrap(), ctx(1));
    assert_eq!(BindValue::EndOfMibView.to_asn1_block().unwrap(), ctx(2));
    assert_eq!(BindValue::Unspecified.to_asn1_block().unwrap(), Asn1Block::Null(0));
    assert_eq!(exception_block(2), ctx(2));
    assert_eq!(app_block(4, vec![1]), app(4, vec![1]));
}

#[test]
fn object_identifier_length_limit() {
    let ok = ObjectIdentifier::new(vec![1; 128]).unwrap();
    assert_eq!(ok.length(), 128);
    assert_eq!(ok.get_value(), &[1u32; 128][..]);
    let err = ObjectIdentifier::new(vec![1; 129]).unwrap_err();
    assert_eq!(err, ObjectIdentifierError::TooLong(129));
    assert_eq!(err.to_string(), "Object identifier too long: 129 sub-identifiers");
}

#[test]
fn oid_from_object_identifier() {
    let id = ObjectIdentifier::new(vec![2, 999, 3]).unwrap();
    assert_eq!(Oid::try_from(&id).unwrap(), oid(vec![2, 999, 3]));
    let empty = ObjectIdentifier::new(vec![]).unwrap();
    assert_eq!(Oid::try_from(&empty).unwrap(), oid(vec![]));
}

#[test]
fn var_bind_with_exception_value() {
    let name = ObjectIdentifier::new(vec![1, 3, 6]).unwrap();
    let vb = VarBind::new(name, BindValue::NoSuchInstance);
    assert_eq!(
        vb.to_asn1_class(Asn1Class::Private).unwrap(),
        vec![Asn1Block::Sequence(
            0,
            vec![
                Asn1Block::ObjectIdentifier(3, oid(vec![1, 3, 6])),
                Asn1Block::Unknown(Asn1Class::ContextSpecific, false, 0, 1, vec![]),
            ]
        )]
    );
}
