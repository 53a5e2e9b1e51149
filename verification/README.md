# snmp_message

Verified construction of SNMP messages in Verus.

The library builds the ASN.1 block trees of SNMP variable bindings, PDUs
(RFC 3416), SNMPv3 scoped PDUs (RFC 3412) and SNMPv2c messages (RFC 1901).
Each `to_asn1` method states exactly which blocks it returns, or which error,
over a mathematical model of the blocks (`asn1::Asn1Value`). The unsigned
integer encoder is proved to write the one minimal, non-negative two's
complement content for each value.

Layout:

- `src/asn1.rs` — the block type, its model, and the DER encoder
  (`simple_asn1::to_der`, called behind a trusted wrapper).
- `src/message/unsigned.rs` — big-endian digits and INTEGER contents, with
  the laws of the encoding (value, minimality, shortest, uniqueness).
- `src/message/obj_ident.rs`, `var_bind.rs`, `scoped_pdu.rs`,
  `v2c_message.rs` — the message layers.
- `src/auth.rs`, `src/snmp_client.rs`, `src/text.rs` — security protocol
  names, the client interface, decimal rendering for error texts.
- `app/lib.rs` — `simple_asn1::ToASN1` on the message layers and an error
  type with `Display`.
