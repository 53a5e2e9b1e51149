//! Protocol data units (RFC 3416) and SNMPv3 scoped PDUs (RFC 3412), and the
//! errors of message construction.

use crate::asn1::{
    block_value, block_values, der_concat, der_encode, encode_error_message, encode_error_text,
    first_der_error, lemma_block_values_empty, lemma_block_values_index,
    lemma_block_values_append, lemma_block_values_len, lemma_block_values_push, lemma_first_der_error_prefix,
    lemma_take_one_more, der_encoding, der_error, Asn1Block, Asn1Class, Asn1EncodeError, Asn1Value,
};
use crate::message::var_bind::{blocks_result, law_var_bind_encoding, var_bind_blocks, VarBind};
use crate::text::{decimal, digits_value, law_decimal, push_decimal};
use vstd::prelude::*;

verus! {

/// Why a message could not be built.
#[derive(Debug, PartialEq, Eq)]
pub enum SNMPMessageError {
    DecodeError(String),
    EncodeError(String),
    ParseError(String),
    TooLong(usize),
}

/// What an [`SNMPMessageError`] holds.
pub enum MessageErrorView {
    DecodeError(Seq<char>),
    EncodeError(Seq<char>),
    ParseError(Seq<char>),
    TooLong(nat),
}

impl View for SNMPMessageError {
    type V = MessageErrorView;

    open spec fn view(&self) -> MessageErrorView {
        match self {
            SNMPMessageError::DecodeError(e) => MessageErrorView::DecodeError(e@),
            SNMPMessageError::EncodeError(e) => MessageErrorView::EncodeError(e@),
            SNMPMessageError::ParseError(e) => MessageErrorView::ParseError(e@),
            SNMPMessageError::TooLong(n) => MessageErrorView::TooLong(*n as nat),
        }
    }
}

/// The text of a message error.
pub open spec fn message_error_text(e: MessageErrorView) -> Seq<char> {
    match e {
        MessageErrorView::DecodeError(s) => "Decode error: "@ + s,
        MessageErrorView::EncodeError(s) => "Encode error: "@ + s,
        MessageErrorView::ParseError(s) => "Parse error: "@ + s,
        MessageErrorView::TooLong(n) => "Message too long: "@ + decimal(n) + " bytes"@,
    }
}

impl SNMPMessageError {
    /// The error as text.
    pub fn to_string(&self) -> (r: String)
        ensures
            r@ == message_error_text(self@),
    {
        match self {
            SNMPMessageError::DecodeError(e) => {
                let mut s = String::from_str("Decode error: ");
                s.append(e.as_str());
                s
            },
            SNMPMessageError::EncodeError(e) => {
                let mut s = String::from_str("Encode error: ");
                s.append(e.as_str());
                s
            },
            SNMPMessageError::ParseError(e) => {
                let mut s = String::from_str("Parse error: ");
                s.append(e.as_str());
                s
            },
            SNMPMessageError::TooLong(n) => {
                let mut s = String::from_str("Message too long: ");
                push_decimal(&mut s, *n);
                s.append(" bytes");
                s
            },
        }
    }

    /// The error of a block that the DER encoder refuses.
    pub fn from_encode_error(value: Asn1EncodeError) -> (r: Self)
        ensures
            r@ == MessageErrorView::EncodeError(encode_error_text(value)),
    {
        SNMPMessageError::EncodeError(encode_error_message(value))
    }
}

/// Calls `rand::random::<i32>()`. Nothing is claimed of the number it
/// returns.
#[verifier::external_body]
fn generate_request_id() -> i32 {
    rand::random::<i32>()
}

/// The error-status values of a response PDU (RFC 3416).
#[derive(Clone, Copy, Debug, PartialEq, Eq, Structural)]
pub enum PDUError {
    NoError,
    TooBig,
    /// for proxy compatibility
    NoSuchName,
    /// for proxy compatibility
    BadValue,
    /// for proxy compatibility
    ReadOnly,
    GenErr,
    NoAccess,
    WrongType,
    WrongLength,
    WrongEncoding,
    WrongValue,
    NoCreation,
    InconsistentValue,
    ResourceUnavailable,
    CommitFailed,
    UndoFailed,
    AuthorizationError,
    NotWritable,
    InconsistentName,
}

impl PDUError {
    /// The number that stands for the error status on the wire.
    pub open spec fn spec_code(self) -> i32 {
        match self {
            PDUError::NoError => 0,
            PDUError::TooBig => 1,
            PDUError::NoSuchName => 2,
            PDUError::BadValue => 3,
            PDUError::ReadOnly => 4,
            PDUError::GenErr => 5,
            PDUError::NoAccess => 6,
            PDUError::WrongType => 7,
            PDUError::WrongLength => 8,
            PDUError::WrongEncoding => 9,
            PDUError::WrongValue => 10,
            PDUError::NoCreation => 11,
            PDUError::InconsistentValue => 12,
            PDUError::ResourceUnavailable => 13,
            PDUError::CommitFailed => 14,
            PDUError::UndoFailed => 15,
            PDUError::AuthorizationError => 16,
            PDUError::NotWritable => 17,
            PDUError::InconsistentName => 18,
        }
    }

    /// The number that stands for the error status on the wire.
    pub fn code(self) -> (r: i32)
        ensures
            r == self.spec_code(),
    {
        match self {
            PDUError::NoError => 0,
            PDUError::TooBig => 1,
            PDUError::NoSuchName => 2,
            PDUError::BadValue => 3,
            PDUError::ReadOnly => 4,
            PDUError::GenErr => 5,
            PDUError::NoAccess => 6,
            PDUError::WrongType => 7,
            PDUError::WrongLength => 8,
            PDUError::WrongEncoding => 9,
            PDUError::WrongValue => 10,
            PDUError::NoCreation => 11,
            PDUError::InconsistentValue => 12,
            PDUError::ResourceUnavailable => 13,
            PDUError::CommitFailed => 14,
            PDUError::UndoFailed => 15,
            PDUError::AuthorizationError => 16,
            PDUError::NotWritable => 17,
            PDUError::InconsistentName => 18,
        }
    }
}

/// The kinds of PDU (RFC 3416). Tag 4 is the obsolete SNMPv1 Trap, not used
/// in v2c or v3.
#[derive(Clone, Copy, Debug, PartialEq, Eq, Structural)]
pub enum PDUType {
    GetRequest,
    GetNextRequest,
    Response,
    SetRequest,
    GetBulkRequest,
    InformRequest,
    Trap,
    Report,
}

impl PDUType {
    /// The context-specific tag number of the kind.
    pub open spec fn spec_tag(self) -> u8 {
        match self {
            PDUType::GetRequest => 0,
            PDUType::GetNextRequest => 1,
            PDUType::Response => 2,
            PDUType::SetRequest => 3,
            PDUType::GetBulkRequest => 5,
            PDUType::InformRequest => 6,
            PDUType::Trap => 7,
            PDUType::Report => 8,
        }
    }

    /// The context-specific tag number of the kind.
    pub fn tag(self) -> (r: u8)
        ensures
            r == self.spec_tag(),
    {
        match self {
            PDUType::GetRequest => 0,
            PDUType::GetNextRequest => 1,
            PDUType::Response => 2,
            PDUType::SetRequest => 3,
            PDUType::GetBulkRequest => 5,
            PDUType::InformRequest => 6,
            PDUType::Trap => 7,
            PDUType::Report => 8,
        }
    }
}

/// What a PDU holds.
pub struct PDUView {
    pub pdu_type: PDUType,
    pub request_id: i32,
    pub error_status: i32,
    pub error_index: u32,
    pub var_bindings: Seq<VarBind>,
}

/// A protocol data unit (RFC 3416).
#[derive(Debug, PartialEq, Eq)]
pub struct PDU {
    pdu_type: PDUType,
    request_id: i32,
    error_status: i32,
    error_index: u32,
    var_bindings: Vec<VarBind>,
}

impl View for PDU {
    type V = PDUView;

    closed spec fn view(&self) -> PDUView {
        PDUView {
            pdu_type: self.pdu_type,
            request_id: self.request_id,
            error_status: self.error_status,
            error_index: self.error_index,
            var_bindings: self.var_bindings@,
        }
    }
}

/// The blocks of a list of variable bindings, one after the other; or the
/// error of the first binding that has none.
pub open spec fn var_bind_list_blocks(s: Seq<VarBind>) -> Result<Seq<Asn1Value>, MessageErrorView>
    decreases s.len(),
{
    if s.len() == 0 {
        Ok(Seq::empty())
    } else {
        match var_bind_list_blocks(s.drop_last()) {
            Err(e) => Err(e),
            Ok(prev) => match var_bind_blocks(s.last()@) {
                Err(e) => Err(e),
                Ok(blocks) => Ok(prev + blocks),
            },
        }
    }
}

/// The four blocks that a PDU's content encodes: request-id, error-status,
/// error-index and the SEQUENCE of variable bindings.
pub open spec fn pdu_inner(p: PDUView) -> Result<Seq<Asn1Value>, MessageErrorView> {
    match var_bind_list_blocks(p.var_bindings) {
        Err(e) => Err(e),
        Ok(list) => Ok(
            seq![
                Asn1Value::Integer(0, p.request_id as int),
                Asn1Value::Integer(0, p.error_status as int),
                Asn1Value::Integer(0, p.error_index as int),
                Asn1Value::Sequence(0, list),
            ],
        ),
    }
}

/// The block of a PDU of the given kind whose content is `content`: the PDU
/// types are implicitly context-tagged and constructed (RFC 3416).
pub open spec fn pdu_value(pdu_type: PDUType, content: Seq<u8>) -> Asn1Value {
    Asn1Value::Unknown(Asn1Class::ContextSpecific, true, 0, pdu_type.spec_tag() as nat, content)
}

/// The blocks of a PDU: one block whose content is the DER encoding of the
/// inner blocks, one after the other; or why there are none.
pub open spec fn pdu_blocks(p: PDUView) -> Result<Seq<Asn1Value>, MessageErrorView> {
    match pdu_inner(p) {
        Err(e) => Err(e),
        Ok(inner) => match first_der_error(inner) {
            Some(e) => Err(MessageErrorView::EncodeError(encode_error_text(e))),
            None => Ok(seq![pdu_value(p.pdu_type, der_concat(inner))]),
        },
    }
}

/// Builds the block of a PDU of the given kind from its encoded content.
pub fn pdu_block(pdu_type: PDUType, content: Vec<u8>) -> (r: Asn1Block)
    ensures
        r@ == pdu_value(pdu_type, content@),
{
    let tag = pdu_type.tag();
    Asn1Block::Unknown(Asn1Class::ContextSpecific, true, 0, tag as u64, content)
}

impl PDU {
    /// A PDU of the given kind with these variable bindings, no error, and
    /// a random request id.
    pub fn new(pdu_type: PDUType, v: Vec<VarBind>) -> (r: Self)
        ensures
            r@.pdu_type == pdu_type,
            r@.error_status == 0,
            r@.error_index == 0,
            r@.var_bindings == v@,
    {
        Self::with_request_id(pdu_type, generate_request_id(), v)
    }

    /// A PDU of the given kind with this request id and these variable
    /// bindings, and no error.
    pub fn with_request_id(pdu_type: PDUType, request_id: i32, v: Vec<VarBind>) -> (r: Self)
        ensures
            r@ == (PDUView {
                pdu_type,
                request_id,
                error_status: 0,
                error_index: 0,
                var_bindings: v@,
            }),
    {
        Self { pdu_type, request_id, error_status: 0, error_index: 0, var_bindings: v }
    }

    fn inner_blocks(&self) -> (r: Result<Vec<Asn1Block>, SNMPMessageError>)
        ensures
            blocks_result(r) == pdu_inner(self@),
    {
        let mut var_bind_list: Vec<Asn1Block> = Vec::new();
        let mut i: usize = 0;
        proof {
            lemma_block_values_empty();
            assert(self.var_bindings@.take(0) =~= Seq::<VarBind>::empty());
        }
        while i < self.var_bindings.len()
            invariant
                i <= self.var_bindings@.len(),
                var_bind_list_blocks(self.var_bindings@.take(i as int)) == Ok::<
                    Seq<Asn1Value>,
                    MessageErrorView,
                >(block_values(var_bind_list@)),
            decreases self.var_bindings@.len() - i,
        {
            let ghost before = var_bind_list@;
            proof {
                assert(self.var_bindings@.take(i + 1).drop_last() =~= self.var_bindings@.take(
                    i as int,
                ));
            }
            let mut blocks = match self.var_bindings[i].to_asn1() {
                Ok(b) => b,
                Err(e) => {
                    proof {
                        lemma_var_bind_list_prefix_error(self.var_bindings@, i as int + 1);
                    }
                    return Err(e);
                },
            };
            let ghost added = blocks@;
            var_bind_list.append(&mut blocks);
            proof {
                lemma_block_values_append(before, added);
            }
            i = i + 1;
        }
        proof {
            assert(self.var_bindings@.take(i as int) =~= self.var_bindings@);
        }
        let ghost list = var_bind_list@;
        let r = vec![
            Asn1Block::Integer(0, self.request_id as i64),
            Asn1Block::Integer(0, self.error_status as i64),
            Asn1Block::Integer(0, self.error_index as i64),
            Asn1Block::Sequence(0, var_bind_list),
        ];
        proof {
            lemma_block_values_len(r@);
            assert forall|k: int| 0 <= k < 4 implies block_values(r@)[k] == block_value(r@[k]) by {
                lemma_block_values_index(r@, k);
            }
            assert(block_values(r@) =~= pdu_inner(self@)->Ok_0);
        }
        Ok(r)
    }

    /// The blocks of the PDU; the class is not used.
    pub fn to_asn1_class(&self, _c: Asn1Class) -> (r: Result<Vec<Asn1Block>, SNMPMessageError>)
        ensures
            blocks_result(r) == pdu_blocks(self@),
    {
        let inner = match self.inner_blocks() {
            Ok(b) => b,
            Err(e) => {
                return Err(e);
            },
        };
        let ghost values = block_values(inner@);
        proof {
            lemma_block_values_len(inner@);
            assert(values.take(0) =~= Seq::<Asn1Value>::empty());
        }
        let mut content_bytes: Vec<u8> = Vec::new();
        let mut i: usize = 0;
        while i < inner.len()
            invariant
                i <= inner@.len(),
                values == block_values(inner@),
                values.len() == inner@.len(),
                pdu_inner(self@) == Ok::<Seq<Asn1Value>, MessageErrorView>(values),
                first_der_error(values.take(i as int)) is None,
                content_bytes@ == der_concat(values.take(i as int)),
            decreases inner@.len() - i,
        {
            proof {
                lemma_block_values_index(inner@, i as int);
                lemma_take_one_more(values, i as int);
            }
            match der_encode(&inner[i]) {
                Ok(bytes) => {
                    let mut bytes = bytes;
                    content_bytes.append(&mut bytes);
                },
                Err(e) => {
                    proof {
                        lemma_first_der_error_prefix(values, i as int + 1);
                    }
                    return Err(SNMPMessageError::from_encode_error(e));
                },
            }
            i = i + 1;
        }
        proof {
            assert(values.take(i as int) =~= values);
        }
        let block = pdu_block(self.pdu_type, content_bytes);
        let r = vec![block];
        proof {
            lemma_block_values_empty();
            lemma_block_values_push(Seq::empty(), block);
            assert(r@ =~= Seq::<Asn1Block>::empty().push(block));
            assert(block_values(r@) =~= seq![block_value(block)]);
        }
        Ok(r)
    }

    /// The blocks of the PDU, in the universal class.
    pub fn to_asn1(&self) -> (r: Result<Vec<Asn1Block>, SNMPMessageError>)
        ensures
            blocks_result(r) == pdu_blocks(self@),
    {
        self.to_asn1_class(Asn1Class::Universal)
    }
}

/// What a GetBulkRequest PDU holds.
pub struct BulkPDUView {
    pub request_id: i32,
    pub non_repeaters: u32,
    pub max_repetitions: u32,
    pub var_bindings: Seq<VarBind>,
}

/// A GetBulkRequest PDU (RFC 3416).
#[derive(Debug, PartialEq, Eq)]
pub struct BulkPDU {
    request_id: i32,
    non_repeaters: u32,
    max_repetitions: u32,
    var_bindings: Vec<VarBind>,
}

impl View for BulkPDU {
    type V = BulkPDUView;

    closed spec fn view(&self) -> BulkPDUView {
        BulkPDUView {
            request_id: self.request_id,
            non_repeaters: self.non_repeaters,
            max_repetitions: self.max_repetitions,
            var_bindings: self.var_bindings@,
        }
    }
}

impl BulkPDU {
    /// A GetBulkRequest with these variable bindings, no non-repeaters, no
    /// repetitions, and a random request id.
    pub fn new(v: Vec<VarBind>) -> (r: Self)
        ensures
            r@.non_repeaters == 0,
            r@.max_repetitions == 0,
            r@.var_bindings == v@,
    {
        Self::with_request_id(generate_request_id(), v)
    }

    /// A GetBulkRequest with this request id and these variable bindings,
    /// no non-repeaters and no repetitions.
    pub fn with_request_id(request_id: i32, v: Vec<VarBind>) -> (r: Self)
        ensures
            r@ == (BulkPDUView {
                request_id,
                non_repeaters: 0,
                max_repetitions: 0,
                var_bindings: v@,
            }),
    {
        Self { request_id, non_repeaters: 0, max_repetitions: 0, var_bindings: v }
    }
}

/// What a scoped PDU holds.
pub struct ScopedPDUView {
    pub context_engine_id: Seq<u8>,
    pub context_name: Seq<u8>,
    pub data: PDUView,
}

/// An SNMPv3 scoped PDU (RFC 3412): ties a PDU to a specific SNMP engine
/// and context.
#[derive(Debug, PartialEq, Eq)]
pub struct ScopedPDU {
    context_engine_id: Vec<u8>,
    /// at most 32 octets per RFC 3412
    context_name: Vec<u8>,
    data: PDU,
}

impl View for ScopedPDU {
    type V = ScopedPDUView;

    closed spec fn view(&self) -> ScopedPDUView {
        ScopedPDUView {
            context_engine_id: self.context_engine_id@,
            context_name: self.context_name@,
            data: self.data@,
        }
    }
}

/// The blocks of a scoped PDU: one SEQUENCE of the context engine id, the
/// context name and the blocks of the PDU; or why there are none.
pub open spec fn scoped_pdu_blocks(p: ScopedPDUView) -> Result<Seq<Asn1Value>, MessageErrorView> {
    match pdu_blocks(p.data) {
        Err(e) => Err(e),
        Ok(data) => Ok(
            seq![
                Asn1Value::Sequence(
                    0,
                    seq![
                        Asn1Value::OctetString(p.context_engine_id.len(), p.context_engine_id),
                        Asn1Value::OctetString(p.context_name.len(), p.context_name),
                    ] + data,
                ),
            ],
        ),
    }
}

impl ScopedPDU {
    pub fn new(context_engine_id: Vec<u8>, context_name: Vec<u8>, data: PDU) -> (r: Self)
        ensures
            r@ == (ScopedPDUView {
                context_engine_id: context_engine_id@,
                context_name: context_name@,
                data: data@,
            }),
    {
        Self { context_engine_id, context_name, data }
    }

    /// The blocks of the scoped PDU; the class is not used.
    pub fn to_asn1_class(&self, _c: Asn1Class) -> (r: Result<Vec<Asn1Block>, SNMPMessageError>)
        ensures
            blocks_result(r) == scoped_pdu_blocks(self@),
    {
        let engine_id_bytes = self.context_engine_id.clone();
        assert(engine_id_bytes@ =~= self.context_engine_id@);
        let engine_id = Asn1Block::OctetString(self.context_engine_id.len(), engine_id_bytes);
        let name_bytes = self.context_name.clone();
        assert(name_bytes@ =~= self.context_name@);
        let context_name = Asn1Block::OctetString(self.context_name.len(), name_bytes);
        let mut inner = vec![engine_id, context_name];
        let ghost head = inner@;
        let mut data = match self.data.to_asn1() {
            Ok(b) => b,
            Err(e) => {
                return Err(e);
            },
        };
        let ghost data_blocks = data@;
        inner.append(&mut data);
        proof {
            lemma_block_values_append(head, data_blocks);
            lemma_block_values_empty();
            lemma_block_values_push(Seq::empty(), head[0]);
            lemma_block_values_push(seq![head[0]], head[1]);
            assert(Seq::<Asn1Block>::empty().push(head[0]) =~= seq![head[0]]);
            assert(head =~= seq![head[0]].push(head[1]));
            assert(block_values(head) =~= seq![block_value(head[0]), block_value(head[1])]);
        }
        let ghost items = inner@;
        let seq_block = Asn1Block::Sequence(0, inner);
        let r = vec![seq_block];
        proof {
            lemma_block_values_push(Seq::empty(), seq_block);
            assert(r@ =~= Seq::<Asn1Block>::empty().push(seq_block));
            assert(block_values(r@) =~= seq![block_value(seq_block)]);
        }
        Ok(r)
    }

    /// The blocks of the scoped PDU, in the universal class.
    pub fn to_asn1(&self) -> (r: Result<Vec<Asn1Block>, SNMPMessageError>)
        ensures
            blocks_result(r) == scoped_pdu_blocks(self@),
    {
        self.to_asn1_class(Asn1Class::Universal)
    }
}

/// The text of a message error names its kind and then carries the inner
/// message whole; a too-long error gives the size in decimal, followed by
/// "bytes".
pub proof fn law_message_error_texts(s: Seq<char>, n: nat)
    ensures
        message_error_text(MessageErrorView::DecodeError(s)) == "Decode error: "@ + s,
        message_error_text(MessageErrorView::EncodeError(s)) == "Encode error: "@ + s,
        message_error_text(MessageErrorView::ParseError(s)) == "Parse error: "@ + s,
        message_error_text(MessageErrorView::TooLong(n)) == "Message too long: "@ + decimal(n)
            + " bytes"@,
        digits_value(decimal(n)) == n,
{
    law_decimal(n);
}

/// The error-status numbers of RFC 3416, one for each error, from noError
/// (0) to inconsistentName (18).
pub proof fn law_pdu_error_codes(a: PDUError, b: PDUError)
    ensures
        PDUError::NoError.spec_code() == 0,
        PDUError::TooBig.spec_code() == 1,
        PDUError::NoSuchName.spec_code() == 2,
        PDUError::BadValue.spec_code() == 3,
        PDUError::ReadOnly.spec_code() == 4,
        PDUError::GenErr.spec_code() == 5,
        PDUError::NoAccess.spec_code() == 6,
        PDUError::WrongType.spec_code() == 7,
        PDUError::WrongLength.spec_code() == 8,
        PDUError::WrongEncoding.spec_code() == 9,
        PDUError::WrongValue.spec_code() == 10,
        PDUError::NoCreation.spec_code() == 11,
        PDUError::InconsistentValue.spec_code() == 12,
        PDUError::ResourceUnavailable.spec_code() == 13,
        PDUError::CommitFailed.spec_code() == 14,
        PDUError::UndoFailed.spec_code() == 15,
        PDUError::AuthorizationError.spec_code() == 16,
        PDUError::NotWritable.spec_code() == 17,
        PDUError::InconsistentName.spec_code() == 18,
        a.spec_code() == b.spec_code() ==> a == b,
{
}

/// Each kind of PDU carries its RFC 3416 context tag: GetRequest [0],
/// GetNextRequest [1], Response [2], SetRequest [3], GetBulkRequest [5],
/// InformRequest [6], SNMPv2-Trap [7], Report [8] ([4] is the obsolete
/// SNMPv1 Trap and belongs to no kind).
pub proof fn law_pdu_type_tags(t: PDUType)
    ensures
        PDUType::GetRequest.spec_tag() == 0,
        PDUType::GetNextRequest.spec_tag() == 1,
        PDUType::Response.spec_tag() == 2,
        PDUType::SetRequest.spec_tag() == 3,
        PDUType::GetBulkRequest.spec_tag() == 5,
        PDUType::InformRequest.spec_tag() == 6,
        PDUType::Trap.spec_tag() == 7,
        PDUType::Report.spec_tag() == 8,
        t.spec_tag() != 4,
        t.spec_tag() <= 8,
{
}

/// When every binding of a list encodes, the list's blocks are the
/// bindings' blocks in order, one block per binding.
pub proof fn law_var_bind_list_ok(s: Seq<VarBind>)
    requires
        forall|i: int| 0 <= i < s.len() ==> #[trigger] var_bind_blocks(s[i]@) is Ok,
    ensures
        var_bind_list_blocks(s) is Ok,
        var_bind_list_blocks(s)->Ok_0.len() == s.len(),
        forall|i: int|
            0 <= i < s.len() ==> var_bind_blocks(#[trigger] s[i]@) == Ok::<
                Seq<Asn1Value>,
                MessageErrorView,
            >(seq![var_bind_list_blocks(s)->Ok_0[i]]),
    decreases s.len(),
{
    if s.len() > 0 {
        let p = s.drop_last();
        assert forall|i: int| 0 <= i < p.len() implies #[trigger] var_bind_blocks(p[i]@) is Ok by {
            assert(p[i] == s[i]);
        }
        law_var_bind_list_ok(p);
        let prev = var_bind_list_blocks(p)->Ok_0;
        assert(var_bind_blocks(s[s.len() - 1]@) is Ok);
        law_var_bind_encoding(s.last()@);
        let bs = var_bind_blocks(s.last()@)->Ok_0;
        let l = var_bind_list_blocks(s)->Ok_0;
        assert(l == prev + bs);
        assert forall|i: int|
            0 <= i < s.len() implies var_bind_blocks(#[trigger] s[i]@) == Ok::<
                Seq<Asn1Value>,
                MessageErrorView,
            >(seq![l[i]]) by {
            if i < s.len() - 1 {
                assert(p[i] == s[i]);
                assert(var_bind_blocks(p[i]@) == Ok::<Seq<Asn1Value>, MessageErrorView>(
                    seq![prev[i]],
                ));
            } else {
                assert(bs =~= seq![l[i]]);
            }
        }
    }
}

/// When a binding does not encode and all bindings before it do, the list
/// fails with that binding's error.
pub proof fn law_var_bind_list_first_error(s: Seq<VarBind>, i: int)
    requires
        0 <= i < s.len(),
        var_bind_blocks(s[i]@) is Err,
        forall|j: int| 0 <= j < i ==> #[trigger] var_bind_blocks(s[j]@) is Ok,
    ensures
        var_bind_list_blocks(s) == var_bind_blocks(s[i]@),
    decreases s.len(),
{
    let p = s.drop_last();
    if i == s.len() - 1 {
        assert forall|j: int| 0 <= j < p.len() implies #[trigger] var_bind_blocks(p[j]@) is Ok by {
            assert(p[j] == s[j]);
        }
        law_var_bind_list_ok(p);
    } else {
        assert(p[i] == s[i]);
        assert forall|j: int| 0 <= j < i implies #[trigger] var_bind_blocks(p[j]@) is Ok by {
            assert(p[j] == s[j]);
        }
        law_var_bind_list_first_error(p, i);
    }
}

/// A PDU fails with the error of its first binding that does not encode;
/// otherwise with the encoder's error for the first object identifier in its
/// bindings that DER cannot pack; otherwise it is one constructed,
/// context-specific block, at offset 0, tagged with its kind's number, whose
/// content is the DER encoding of the request-id, the error-status, the
/// error-index and the SEQUENCE of the bindings' blocks, one after the other.
pub proof fn law_pdu_encoding(p: PDUView)
    ensures
        var_bind_list_blocks(p.var_bindings) matches Err(e) ==> pdu_blocks(p) == Err::<
            Seq<Asn1Value>,
            MessageErrorView,
        >(e),
        var_bind_list_blocks(p.var_bindings) matches Ok(list) ==> (first_der_error(list) matches Some(
            e,
        ) ==> pdu_blocks(p) == Err::<Seq<Asn1Value>, MessageErrorView>(
            MessageErrorView::EncodeError(encode_error_text(e)),
        )),
        pdu_blocks(p) is Ok <==> (var_bind_list_blocks(p.var_bindings) is Ok && first_der_error(
            var_bind_list_blocks(p.var_bindings)->Ok_0,
        ) is None),
        pdu_blocks(p) matches Ok(bs) ==> bs.len() == 1 && (bs[0] matches Asn1Value::Unknown(
            c,
            k,
            o,
            t,
            content,
        ) && c == Asn1Class::ContextSpecific && k && o == 0 && t == p.pdu_type.spec_tag()
            && content == der_encoding(Asn1Value::Integer(0, p.request_id as int)) + der_encoding(
            Asn1Value::Integer(0, p.error_status as int),
        ) + der_encoding(Asn1Value::Integer(0, p.error_index as int)) + der_encoding(
            Asn1Value::Sequence(0, var_bind_list_blocks(p.var_bindings)->Ok_0),
        )),
{
    if var_bind_list_blocks(p.var_bindings) is Ok {
        let list = var_bind_list_blocks(p.var_bindings)->Ok_0;
        let inner = pdu_inner(p)->Ok_0;
        let a = Asn1Value::Integer(0, p.request_id as int);
        let b = Asn1Value::Integer(0, p.error_status as int);
        let c = Asn1Value::Integer(0, p.error_index as int);
        let d = Asn1Value::Sequence(0, list);
        assert(inner == seq![a, b, c, d]);
        assert(inner.drop_last() =~= seq![a, b, c]);
        assert(seq![a, b, c].drop_last() =~= seq![a, b]);
        assert(seq![a, b].drop_last() =~= seq![a]);
        assert(seq![a].drop_last() =~= Seq::<Asn1Value>::empty());
        assert(first_der_error(Seq::<Asn1Value>::empty()) is None);
        assert(der_concat(Seq::<Asn1Value>::empty()) =~= Seq::<u8>::empty());
        assert(seq![a].last() == a);
        assert(der_error(a) is None);
        assert(first_der_error(seq![a]) is None);
        assert(seq![a, b].last() == b);
        assert(der_error(b) is None);
        assert(first_der_error(seq![a, b]) is None);
        assert(seq![a, b, c].last() == c);
        assert(der_error(c) is None);
        assert(first_der_error(seq![a, b, c]) is None);
        assert(inner.last() == d);
        assert(first_der_error(inner) == der_error(d));
        assert(der_concat(seq![a]) =~= der_encoding(a));
        assert(der_concat(seq![a, b]) =~= der_encoding(a) + der_encoding(b));
        assert(der_concat(seq![a, b, c]) =~= der_encoding(a) + der_encoding(b) + der_encoding(c));
        assert(der_concat(inner) =~= der_encoding(a) + der_encoding(b) + der_encoding(c)
            + der_encoding(d));
    }
}

/// A scoped PDU fails exactly when its PDU fails, with the PDU's error;
/// otherwise it is one SEQUENCE, at offset 0, of exactly three elements: an
/// OCTET STRING holding the whole context engine id, an OCTET STRING holding
/// the whole context name (the empty one included), each with its length as
/// offset, and the PDU's block.
pub proof fn law_scoped_pdu_encoding(p: ScopedPDUView)
    ensures
        scoped_pdu_blocks(p) is Ok <==> pdu_blocks(p.data) is Ok,
        pdu_blocks(p.data) matches Err(e) ==> scoped_pdu_blocks(p) == Err::<
            Seq<Asn1Value>,
            MessageErrorView,
        >(e),
        scoped_pdu_blocks(p) matches Ok(bs) ==> bs.len() == 1 && (bs[0] matches Asn1Value::Sequence(
            o,
            items,
        ) && o == 0 && items.len() == 3 && (items[0] matches Asn1Value::OctetString(n0, c0) && n0
            == p.context_engine_id.len() && c0 == p.context_engine_id) && (items[1] matches Asn1Value::OctetString(
            n1,
            c1,
        ) && n1 == p.context_name.len() && c1 == p.context_name) && pdu_blocks(p.data) == Ok::<
            Seq<Asn1Value>,
            MessageErrorView,
        >(seq![items[2]])),
{
    law_pdu_encoding(p.data);
    if pdu_blocks(p.data) is Ok {
        let data = pdu_blocks(p.data)->Ok_0;
        let head = seq![
            Asn1Value::OctetString(p.context_engine_id.len(), p.context_engine_id),
            Asn1Value::OctetString(p.context_name.len(), p.context_name),
        ];
        let items = head + data;
        assert(items[0] == head[0]);
        assert(items[1] == head[1]);
        assert(items[2] == data[0]);
        assert(data =~= seq![items[2]]);
    }
}

/// Once a binding in a prefix has no blocks, the whole list fails with the
/// first such error.
proof fn lemma_var_bind_list_prefix_error(s: Seq<VarBind>, k: int)
    requires
        0 <= k <= s.len(),
        var_bind_list_blocks(s.take(k)) is Err,
    ensures
        var_bind_list_blocks(s) == var_bind_list_blocks(s.take(k)),
    decreases s.len(),
{
    if k == s.len() {
        assert(s.take(k) =~= s);
    } else {
        assert(s.drop_last().take(k) =~= s.take(k));
        lemma_var_bind_list_prefix_error(s.drop_last(), k);
    }
}

} // verus!
