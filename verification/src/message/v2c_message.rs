//! RFC 1901: the SNMPv2c community-based message wrapper.
//!
//! Message ::= SEQUENCE {
//!   version   INTEGER { version-2c(1) },
//!   community OCTET STRING,
//!   data      PDUs
//! }

use crate::asn1::{
    block_value, block_values, lemma_block_values_append, lemma_block_values_empty,
    lemma_block_values_push, Asn1Block, Asn1Class, Asn1Value,
};
use crate::message::scoped_pdu::{law_pdu_encoding, pdu_blocks, MessageErrorView, PDUView, SNMPMessageError, PDU};
use crate::message::var_bind::blocks_result;
use vstd::prelude::*;

verus! {

/// What a message holds.
pub struct MessageView {
    pub community: Seq<u8>,
    pub data: PDUView,
}

/// An SNMPv2c message: a community string and a PDU.
#[derive(Debug, PartialEq, Eq)]
pub struct Message {
    community: Vec<u8>,
    data: PDU,
}

impl View for Message {
    type V = MessageView;

    closed spec fn view(&self) -> MessageView {
        MessageView { community: self.community@, data: self.data@ }
    }
}

/// The blocks of a message: one SEQUENCE of the version (1, version-2c),
/// the community and the blocks of the PDU; or why there are none.
pub open spec fn message_blocks(m: MessageView) -> Result<Seq<Asn1Value>, MessageErrorView> {
    match pdu_blocks(m.data) {
        Err(e) => Err(e),
        Ok(data) => Ok(
            seq![
                Asn1Value::Sequence(
                    0,
                    seq![
                        Asn1Value::Integer(0, 1),
                        Asn1Value::OctetString(m.community.len(), m.community),
                    ] + data,
                ),
            ],
        ),
    }
}

/// A message fails exactly when its PDU fails, with the PDU's error;
/// otherwise it is one SEQUENCE, at offset 0, of exactly three elements: the
/// INTEGER 1 (version-2c), an OCTET STRING holding the whole community with
/// its length as offset, and the PDU's block.
pub proof fn law_message_encoding(m: MessageView)
    ensures
        message_blocks(m) is Ok <==> pdu_blocks(m.data) is Ok,
        pdu_blocks(m.data) matches Err(e) ==> message_blocks(m) == Err::<
            Seq<Asn1Value>,
            MessageErrorView,
        >(e),
        message_blocks(m) matches Ok(bs) ==> bs.len() == 1 && (bs[0] matches Asn1Value::Sequence(
            o,
            items,
        ) && o == 0 && items.len() == 3 && (items[0] matches Asn1Value::Integer(n0, version) && n0
            == 0 && version == 1) && (items[1] matches Asn1Value::OctetString(n1, c1) && n1
            == m.community.len() && c1 == m.community) && pdu_blocks(m.data) == Ok::<
            Seq<Asn1Value>,
            MessageErrorView,
        >(seq![items[2]])),
{
    law_pdu_encoding(m.data);
    if pdu_blocks(m.data) is Ok {
        let data = pdu_blocks(m.data)->Ok_0;
        let head = seq![
            Asn1Value::Integer(0, 1),
            Asn1Value::OctetString(m.community.len(), m.community),
        ];
        let items = head + data;
        assert(items[0] == head[0]);
        assert(items[1] == head[1]);
        assert(items[2] == data[0]);
        assert(data =~= seq![items[2]]);
    }
}

impl Message {
    pub fn new(community: Vec<u8>, data: PDU) -> (r: Self)
        ensures
            r@ == (MessageView { community: community@, data: data@ }),
    {
        Self { community, data }
    }

    /// The blocks of the message; the class is not used.
    pub fn to_asn1_class(&self, _c: Asn1Class) -> (r: Result<Vec<Asn1Block>, SNMPMessageError>)
        ensures
            blocks_result(r) == message_blocks(self@),
    {
        // 1 = version-2c
        let version = Asn1Block::Integer(0, 1);
        let community_bytes = self.community.clone();
        assert(community_bytes@ =~= self.community@);
        let community = Asn1Block::OctetString(self.community.len(), community_bytes);
        let mut inner = vec![version, community];
        let ghost head = inner@;
        let mut data = match self.data.to_asn1() {
            Ok(b) => b,
            Err(e) => {
                return Err(e);
            },
        };
        let ghost data_blocks = data@;
        inner.append(&mut data);
        proof {
            lemma_block_values_append(head, data_blocks);
            lemma_block_values_empty();
            lemma_block_values_push(Seq::empty(), head[0]);
            lemma_block_values_push(seq![head[0]], head[1]);
            assert(Seq::<Asn1Block>::empty().push(head[0]) =~= seq![head[0]]);
            assert(head =~= seq![head[0]].push(head[1]));
            assert(block_values(head) =~= seq![block_value(head[0]), block_value(head[1])]);
        }
        let seq_block = Asn1Block::Sequence(0, inner);
        let r = vec![seq_block];
        proof {
            lemma_block_values_push(Seq::empty(), seq_block);
            assert(r@ =~= Seq::<Asn1Block>::empty().push(seq_block));
            assert(block_values(r@) =~= seq![block_value(seq_block)]);
        }
        Ok(r)
    }

    /// The blocks of the message, in the universal class.
    pub fn to_asn1(&self) -> (r: Result<Vec<Asn1Block>, SNMPMessageError>)
        ensures
            blocks_result(r) == message_blocks(self@),
    {
        self.to_asn1_class(Asn1Class::Universal)
    }
}

} // verus!
