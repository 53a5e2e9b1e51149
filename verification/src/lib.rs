//! SNMP message construction: variable bindings, PDUs, scoped PDUs and
//! SNMPv2c messages, built as ASN.1 block trees and DER-encoded where the
//! protocol asks for implicit context tags.

pub mod asn1;
pub mod auth;
pub mod message;
pub mod snmp_client;
pub mod text;
