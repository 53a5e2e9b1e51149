use snmp_message::asn1::{Asn1Block, Asn1Class};
use snmp_message::message::obj_ident::ObjectIdentifier;
use snmp_message::message::scoped_pdu::{
    pdu_block, BulkPDU, PDUError, PDUType, SNMPMessageError, ScopedPDU, PDU,
};
use snmp_message::message::v2c_message::Message;
use snmp_message::message::var_bind::{BindValue, ObjectValue, VarBind};

fn null_bind(name: Vec<u32>) -> VarBind {
    VarBind::new(ObjectIdentifier::new(name).unwrap(), BindValue::Unspecified)
}

const GET_CONTENT: [u8; 20] = [
    0x02, 0x01, 0x01, // request-id 1
    0x02, 0x01, 0x00, // error-status 0
    0x02, 0x01, 0x00, // error-index 0
    0x30, 0x09, // variable bindings
    0x30, 0x07, 0x06, 0x03, 0x2b, 0x06, 0x01, 0x05, 0x00,
];

fn get_pdu() -> PDU {
    PDU::with_request_id(PDUType::GetRequest, 1, vec![null_bind(vec![1, 3, 6, 1])])
}

#[test]
fn pdu_content_is_der_of_its_fields() {
    assert_eq!(
        get_pdu().to_asn1().unwrap(),
        vec![Asn1Block::Unknown(Asn1Class::ContextSpecific, true, 0, 0, GET_CONTENT.to_vec())]
    );
}

#[test]
fn pdu_type_sets_the_context_tag() {
    let pdu = PDU::with_request_id(PDUType::Report, 1, vec![null_bind(vec![1, 3, 6, 1])]);
    assert_eq!(
        pdu.to_asn1_class(Asn1Class::Application).unwrap(),
        vec![Asn1Block::Unknown(Asn1Class::ContextSpecific, true, 0, 8, GET_CONTENT.to_vec())]
    );
    assert_eq!(
        pdu_block(PDUType::GetBulkRequest, vec![1, 2]),
        Asn1Block::Unknown(Asn1Class::ContextSpecific, true, 0, 5, vec![1, 2])
    );
}

#[test]
fn pdu_without_bindings() {
    let pdu = PDU::with_request_id(PDUType::SetRequest, -1, vec![]);
    assert_eq!(
        pdu.to_asn1().unwrap(),
        vec![Asn1Block::Unknown(
            Asn1Class::ContextSpecific,
            true,
            0,
            3,
            vec![0x02, 0x01, 0xff, 0x02, 0x01, 0x00, 0x02, 0x01, 0x00, 0x30, 0x00]
        )]
    );
}

#[test]
fn pdu_with_random_request_id_has_the_same_shape() {
    let pdu = PDU::new(PDUType::GetNextRequest, vec![null_bind(vec![1, 3, 6, 1])]);
    match &pdu.to_asn1().unwrap()[..] {
        [Asn1Block::Unknown(Asn1Class::ContextSpecific, true, 0, 1, content)] => {
            assert_eq!(content[0], 0x02);
            assert!(content.ends_with(&GET_CONTENT[3..]));
        }
        other => panic!("unexpected blocks {:?}", other),
    }
}

fn encode_error_for(name: Vec<u32>) -> SNMPMessageError {
    let pdu = PDU::with_request_id(PDUType::GetRequest, 1, vec![null_bind(name)]);
    pdu.to_asn1().unwrap_err()
}

#[test]
fn pdu_with_unpackable_oid_fails() {
    assert_eq!(
        encode_error_for(vec![5, 1]),
        SNMPMessageError::EncodeError("First value in ASN1 OID is too big.".to_string())
    );
    assert_eq!(
        encode_error_for(vec![1, 40]),
        SNMPMessageError::EncodeError("Second value in ASN1 OID is too big.".to_string())
    );
    assert_eq!(
        encode_error_for(vec![1]),
        SNMPMessageError::EncodeError("ASN1 object identifier has too few fields.".to_string())
    );
    assert!(PDU::with_request_id(PDUType::GetRequest, 1, vec![null_bind(vec![2, 175])])
        .to_asn1()
        .is_ok());
}

#[test]
fn pdu_reports_the_first_failing_oid() {
    let value = BindValue::Value(ObjectValue::ObjectIdentifier(
        ObjectIdentifier::new(vec![3, 0]).unwrap(),
    ));
    let binds = vec![
        null_bind(vec![1, 3]),
        VarBind::new(ObjectIdentifier::new(vec![1]).unwrap(), value),
        null_bind(vec![9, 9]),
    ];
    let pdu = PDU::with_request_id(PDUType::SetRequest, 7, binds);
    assert_eq!(
        pdu.to_asn1().unwrap_err(),
        SNMPMessageError::EncodeError("ASN1 object identifier has too few fields.".to_string())
    );
}

#[test]
fn scoped_pdu_blocks() {
    let scoped = ScopedPDU::new(vec![0x80, 0x01], b"ctx".to_vec(), get_pdu());
    assert_eq!(
        scoped.to_asn1().unwrap(),
        vec![Asn1Block::Sequence(
            0,
            vec![
                Asn1Block::OctetString(2, vec![0x80, 0x01]),
                Asn1Block::OctetString(3, b"ctx".to_vec()),
                Asn1Block::Unknown(Asn1Class::ContextSpecific, true, 0, 0, GET_CONTENT.to_vec()),
            ]
        )]
    );
}

#[test]
fn scoped_pdu_passes_pdu_errors_on() {
    let pdu = PDU::with_request_id(PDUType::GetRequest, 1, vec![null_bind(vec![7])]);
    let scoped = ScopedPDU::new(vec![], vec![], pdu);
    assert!(matches!(scoped.to_asn1(), Err(SNMPMessageError::EncodeError(_))));
}

#[test]
fn v2c_message_blocks() {
    let message = Message::new(b"public".to_vec(), get_pdu());
    assert_eq!(
        message.to_asn1().unwrap(),
        vec![Asn1Block::Sequence(
            0,
            vec![
                Asn1Block::Integer(0, 1),
                Asn1Block::OctetString(6, b"public".to_vec()),
                Asn1Block::Unknown(Asn1Class::ContextSpecific, true, 0, 0, GET_CONTENT.to_vec()),
            ]
        )]
    );
}

#[test]
fn message_error_texts() {
    assert_eq!(SNMPMessageError::DecodeError("x".to_string()).to_string(), "Decode error: x");
    assert_eq!(SNMPMessageError::EncodeError("y".to_string()).to_string(), "Encode error: y");
    assert_eq!(SNMPMessageError::ParseError("z".to_string()).to_string(), "Parse error: z");
    assert_eq!(SNMPMessageError::TooLong(1234).to_string(), "Message too long: 1234 bytes");
    assert_eq!(SNMPMessageError::TooLong(0).to_string(), "Message too long: 0 bytes");
}

#[test]
fn pdu_error_codes_and_type_tags() {
    assert_eq!(PDUError::NoError.code(), 0);
    assert_eq!(PDUError::GenErr.code(), 5);
    assert_eq!(PDUError::InconsistentName.code(), 18);
    assert_eq!(PDUType::GetRequest.tag(), 0);
    assert_eq!(PDUType::SetRequest.tag(), 3);
    assert_eq!(PDUType::GetBulkRequest.tag(), 5);
    assert_eq!(PDUType::Trap.tag(), 7);
}

#[test]
fn bulk_pdu_construction() {
    let a = BulkPDU::with_request_id(9, vec![null_bind(vec![1, 3])]);
    let b = BulkPDU::with_request_id(9, vec![null_bind(vec![1, 3])]);
    assert_eq!(a, b);
    let _ = BulkPDU::new(vec![]);
}
