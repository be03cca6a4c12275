//! The fixed twelve-byte message header and its bit-packed flags.

use vstd::prelude::*;

use crate::wire::{be16_at, be16_bytes, lemma_be16_round_trip, push_be16, read_be16, DnsError};

verus! {

/// The twelve-byte header that starts every message.
#[derive(Debug, Clone, Copy, PartialEq, Eq, Structural)]
pub struct DnsHeader {
    pub packet_identifier: u16,
    pub flags: u16,
    pub question_count: u16,
    pub answer_record_count: u16,
    pub authority_record_count: u16,
    pub additional_record_count: u16,
}

/// The query/response indicator, bit 15 of the flags.
#[derive(Debug, Clone, Copy, PartialEq, Eq, Structural)]
pub enum QueryResponseIndicator {
    Query(),
    Response(),
}

/// The kind of request, bits 11 to 14 of the flags.
#[derive(Debug, Clone, Copy, PartialEq, Eq, Structural)]
pub enum OperationCode {
    Query(),
    IQuery(),
    Status(),
    Unassigned(),
    Notify(),
    Update(),
    DnsStatefulOperations(),
}

/// The three reserved bits 4 to 6 of the flags, which are always zero.
#[derive(Debug, Clone, Copy, PartialEq, Eq, Structural)]
pub enum Reserved {
    Unassigned(),
}

/// The outcome of a request, reported in the low four bits of the flags.
#[derive(Debug, Clone, Copy, PartialEq, Eq, Structural)]
pub enum ResponseCode {
    NoError,
    FormErr,
    ServFail,
    NXDomain,
    NotImp,
    Refused,
    YXDomain,
    YXRRSet,
    NXRRSet,
    NotAuth,
    NotZone,
    DSOTYPENI,
    Unassigned,
    BADVERS,
    BADKEY,
    BADTIME,
    BADMODE,
    BADNAME,
    BADALG,
    BADTRUNC,
    BADCOOKIE,
    Reserved,
}

/// One field of the flags together with the value it is to be given.
#[derive(Debug, Clone, Copy, PartialEq, Eq, Structural)]
pub enum DnsHeaderFlag {
    Qr(QueryResponseIndicator),
    OpCode(OperationCode),
    Aa(bool),
    Tc(bool),
    Rd(bool),
    Ra(bool),
    Z(Reserved),
    RCode(ResponseCode),
}

impl QueryResponseIndicator {
    /// The flag word with only this indicator's bit set.
    pub open spec fn bits(&self) -> u16 {
        match self {
            QueryResponseIndicator::Query() => 0,
            QueryResponseIndicator::Response() => 0x8000,
        }
    }

    /// The flag word with only this indicator's bit set.
    pub fn value(&self) -> (r: u16)
        ensures
            r == self.bits(),
    {
        match *self {
            QueryResponseIndicator::Query() => 0b0000_0000_0000_0000,
            QueryResponseIndicator::Response() => 0b1000_0000_0000_0000,
        }
    }
}

impl OperationCode {
    /// The four-bit wire code of the operation.
    pub open spec fn code(&self) -> u8 {
        match self {
            OperationCode::Query() => 0,
            OperationCode::IQuery() => 1,
            OperationCode::Status() => 2,
            OperationCode::Unassigned() => 3,
            OperationCode::Notify() => 4,
            OperationCode::Update() => 5,
            OperationCode::DnsStatefulOperations() => 6,
        }
    }

    /// The four-bit wire code of the operation.
    pub fn value(&self) -> (r: u8)
        ensures
            r == self.code(),
    {
        match *self {
            OperationCode::Query() => 0,
            OperationCode::IQuery() => 1,
            OperationCode::Status() => 2,
            OperationCode::Unassigned() => 3,
            OperationCode::Notify() => 4,
            OperationCode::Update() => 5,
            OperationCode::DnsStatefulOperations() => 6,
        }
    }

    /// The operation with wire code `v`; codes above 6 are not assigned.
    pub fn from_value(v: u8) -> (r: Result<OperationCode, DnsError>)
        ensures
            r == opcode_from(v),
    {
        match v {
            0 => Ok(OperationCode::Query()),
            1 => Ok(OperationCode::IQuery()),
            2 => Ok(OperationCode::Status()),
            3 => Ok(OperationCode::Unassigned()),
            4 => Ok(OperationCode::Notify()),
            5 => Ok(OperationCode::Update()),
            6 => Ok(OperationCode::DnsStatefulOperations()),
            _ => Err(DnsError::MalformedHeader),
        }
    }
}

/// The operation whose wire code is `v`.
pub open spec fn opcode_from(v: u8) -> Result<OperationCode, DnsError> {
    if v == 0 {
        Ok(OperationCode::Query())
    } else if v == 1 {
        Ok(OperationCode::IQuery())
    } else if v == 2 {
        Ok(OperationCode::Status())
    } else if v == 3 {
        Ok(OperationCode::Unassigned())
    } else if v == 4 {
        Ok(OperationCode::Notify())
    } else if v == 5 {
        Ok(OperationCode::Update())
    } else if v == 6 {
        Ok(OperationCode::DnsStatefulOperations())
    } else {
        Err(DnsError::MalformedHeader)
    }
}

impl ResponseCode {
    /// The registered numeric code of the response.
    pub open spec fn code(&self) -> u16 {
        match self {
            ResponseCode::NoError => 0,
            ResponseCode::FormErr => 1,
            ResponseCode::ServFail => 2,
            ResponseCode::NXDomain => 3,
            ResponseCode::NotImp => 4,
            ResponseCode::Refused => 5,
            ResponseCode::YXDomain => 6,
            ResponseCode::YXRRSet => 7,
            ResponseCode::NXRRSet => 8,
            ResponseCode::NotAuth => 9,
            ResponseCode::NotZone => 10,
            ResponseCode::DSOTYPENI => 11,
            ResponseCode::Unassigned => 12,
            ResponseCode::BADVERS => 16,
            ResponseCode::BADKEY => 17,
            ResponseCode::BADTIME => 18,
            ResponseCode::BADMODE => 19,
            ResponseCode::BADNAME => 20,
            ResponseCode::BADALG => 21,
            ResponseCode::BADTRUNC => 22,
            ResponseCode::BADCOOKIE => 23,
            ResponseCode::Reserved => 65535,
        }
    }

    /// The registered numeric code of the response.
    pub fn value(&self) -> (r: u16)
        ensures
            r == self.code(),
    {
        match *self {
            ResponseCode::NoError => 0,
            ResponseCode::FormErr => 1,
            ResponseCode::ServFail => 2,
            ResponseCode::NXDomain => 3,
            ResponseCode::NotImp => 4,
            ResponseCode::Refused => 5,
            ResponseCode::YXDomain => 6,
            ResponseCode::YXRRSet => 7,
            ResponseCode::NXRRSet => 8,
            ResponseCode::NotAuth => 9,
            ResponseCode::NotZone => 10,
            ResponseCode::DSOTYPENI => 11,
            ResponseCode::Unassigned => 12,
            ResponseCode::BADVERS => 16,
            ResponseCode::BADKEY => 17,
            ResponseCode::BADTIME => 18,
            ResponseCode::BADMODE => 19,
            ResponseCode::BADNAME => 20,
            ResponseCode::BADALG => 21,
            ResponseCode::BADTRUNC => 22,
            ResponseCode::BADCOOKIE => 23,
            ResponseCode::Reserved => 65535,
        }
    }
}

/// The opcode field of a flag word, bits 11 to 14.
pub open spec fn opcode_bits(f: u16) -> u16 {
    (f & 0x7800) >> 11
}

/// The response-code field of a flag word, bits 0 to 3.
pub open spec fn rcode_bits(f: u16) -> u16 {
    f & 0x000F
}

/// `f` with the single bit `mask` set when `on` holds and cleared otherwise.
pub open spec fn with_bit(f: u16, mask: u16, on: bool) -> u16 {
    if on {
        f | mask
    } else {
        f & !mask
    }
}

/// The flag word `f` after `flag` has been written into it.
pub open spec fn apply_flag(f: u16, flag: DnsHeaderFlag) -> u16 {
    match flag {
        DnsHeaderFlag::Qr(qri) => match qri {
            QueryResponseIndicator::Query() => f & 0x7FFF,
            QueryResponseIndicator::Response() => f | 0x8000,
        },
        DnsHeaderFlag::OpCode(op) => (f & 0x87FF) | ((op.code() as u16) << 11u16),
        DnsHeaderFlag::Aa(on) => with_bit(f, 0x0400, on),
        DnsHeaderFlag::Tc(on) => with_bit(f, 0x0200, on),
        DnsHeaderFlag::Rd(on) => with_bit(f, 0x0100, on),
        DnsHeaderFlag::Ra(on) => with_bit(f, 0x0080, on),
        DnsHeaderFlag::Z(_) => f & 0xFF8F,
        DnsHeaderFlag::RCode(code) => (f & 0xFFF0) | (code.code() & 0x000F),
    }
}

/// The twelve wire bytes of a header.
pub open spec fn header_wire(h: DnsHeader) -> Seq<u8> {
    be16_bytes(h.packet_identifier) + be16_bytes(h.flags) + be16_bytes(h.question_count)
        + be16_bytes(h.answer_record_count) + be16_bytes(h.authority_record_count)
        + be16_bytes(h.additional_record_count)
}

/// The header that the first twelve bytes of `b` encode.
pub open spec fn header_from_wire(b: Seq<u8>) -> DnsHeader {
    DnsHeader {
        packet_identifier: be16_at(b, 0) as u16,
        flags: be16_at(b, 2) as u16,
        question_count: be16_at(b, 4) as u16,
        answer_record_count: be16_at(b, 6) as u16,
        authority_record_count: be16_at(b, 8) as u16,
        additional_record_count: be16_at(b, 10) as u16,
    }
}

impl DnsHeader {
    /// Decodes a header from exactly twelve bytes: six big-endian 16-bit
    /// fields, in the order of the struct.
    pub fn deserialize(bytes: &[u8]) -> (r: Result<DnsHeader, DnsError>)
        ensures
            bytes@.len() != 12 ==> r == Err::<DnsHeader, DnsError>(DnsError::MalformedHeader),
            bytes@.len() == 12 ==> r == Ok::<DnsHeader, DnsError>(header_from_wire(bytes@)),
    {
        if bytes.len() != 12 {
            return Err(DnsError::MalformedHeader);
        }
        Ok(DnsHeader {
            packet_identifier: read_be16(bytes, 0),
            flags: read_be16(bytes, 2),
            question_count: read_be16(bytes, 4),
            answer_record_count: read_be16(bytes, 6),
            authority_record_count: read_be16(bytes, 8),
            additional_record_count: read_be16(bytes, 10),
        })
    }

    /// Encodes the header as its twelve wire bytes.
    pub fn serialize(&self) -> (r: Vec<u8>)
        ensures
            r@ == header_wire(*self),
            r@.len() == 12,
    {
        let mut out: Vec<u8> = Vec::new();
        push_be16(&mut out, self.packet_identifier);
        push_be16(&mut out, self.flags);
        push_be16(&mut out, self.question_count);
        push_be16(&mut out, self.answer_record_count);
        push_be16(&mut out, self.authority_record_count);
        push_be16(&mut out, self.additional_record_count);
        out
    }

    /// Writes one flag field; the other bits of the flags and the other
    /// fields of the header are left as they were.
    pub fn set_header_flag(&mut self, flag: DnsHeaderFlag)
        ensures
            final(self).flags == apply_flag(old(self).flags, flag),
            *final(self) == (DnsHeader { flags: final(self).flags, ..*old(self) }),
    {
        match flag {
            DnsHeaderFlag::Qr(qri) => match qri {
                QueryResponseIndicator::Query() => self.flags &= 0x7FFF,
                QueryResponseIndicator::Response() => self.flags |= qri.value(),
            },
            DnsHeaderFlag::OpCode(op) => {
                let code = op.value() as u16;
                self.flags = (self.flags & 0x87FF) | (code << 11u16);
            },
            DnsHeaderFlag::Aa(on) => self.flags = set_bit(self.flags, 0x0400, on),
            DnsHeaderFlag::Tc(on) => self.flags = set_bit(self.flags, 0x0200, on),
            DnsHeaderFlag::Rd(on) => self.flags = set_bit(self.flags, 0x0100, on),
            DnsHeaderFlag::Ra(on) => self.flags = set_bit(self.flags, 0x0080, on),
            DnsHeaderFlag::Z(_) => self.flags &= 0xFF8F,
            DnsHeaderFlag::RCode(code) => {
                self.flags &= 0b1111_1111_1111_0000;
                self.flags |= code.value() & 0b0000_0000_0000_1111;
            },
        }
    }

    /// The operation named by bits 11 to 14 of the flags; a code with no
    /// assigned operation is an error.
    pub fn get_op_code(&self) -> (r: Result<OperationCode, DnsError>)
        ensures
            r == opcode_from(opcode_bits(self.flags) as u8),
    {
        let op_bits = (self.flags & 0b0111_1000_0000_0000) >> 11u16;
        OperationCode::from_value(op_bits as u8)
    }
}

fn set_bit(f: u16, mask: u16, on: bool) -> (r: u16)
    ensures
        r == with_bit(f, mask, on),
{
    if on {
        f | mask
    } else {
        f & !mask
    }
}

/// Decoding the wire form of a header gives back the same header.
pub proof fn lemma_header_round_trip(h: DnsHeader)
    ensures
        header_wire(h).len() == 12,
        header_from_wire(header_wire(h)) == h,
{
    let w = header_wire(h);
    let e = Seq::<u8>::empty();
    let b0 = be16_bytes(h.packet_identifier);
    let b1 = be16_bytes(h.flags);
    let b2 = be16_bytes(h.question_count);
    let b3 = be16_bytes(h.answer_record_count);
    let b4 = be16_bytes(h.authority_record_count);
    let b5 = be16_bytes(h.additional_record_count);
    assert(w =~= e + b0 + (b1 + b2 + b3 + b4 + b5));
    lemma_be16_round_trip(h.packet_identifier, e, b1 + b2 + b3 + b4 + b5);
    assert(w =~= b0 + b1 + (b2 + b3 + b4 + b5));
    lemma_be16_round_trip(h.flags, b0, b2 + b3 + b4 + b5);
    assert(w =~= (b0 + b1) + b2 + (b3 + b4 + b5));
    lemma_be16_round_trip(h.question_count, b0 + b1, b3 + b4 + b5);
    assert(w =~= (b0 + b1 + b2) + b3 + (b4 + b5));
    lemma_be16_round_trip(h.answer_record_count, b0 + b1 + b2, b4 + b5);
    assert(w =~= (b0 + b1 + b2 + b3) + b4 + b5);
    lemma_be16_round_trip(h.authority_record_count, b0 + b1 + b2 + b3, b5);
    assert(w =~= (b0 + b1 + b2 + b3 + b4) + b5 + e);
    lemma_be16_round_trip(h.additional_record_count, b0 + b1 + b2 + b3 + b4, e);
}

/// Writing the response code leaves the opcode bits alone, and writing the
/// opcode leaves the response-code bits alone, whatever the flag word.
pub proof fn lemma_flag_isolation(f: u16, code: ResponseCode, op: OperationCode)
    ensures
        opcode_bits(apply_flag(f, DnsHeaderFlag::RCode(code))) == opcode_bits(f),
        rcode_bits(apply_flag(f, DnsHeaderFlag::OpCode(op))) == rcode_bits(f),
        rcode_bits(apply_flag(f, DnsHeaderFlag::RCode(code))) == code.code() & 0x000F,
        opcode_bits(apply_flag(f, DnsHeaderFlag::OpCode(op))) == op.code() as u16,
{
    let c = code.code();
    let o = op.code() as u16;
    assert(o < 16);
    assert((((f & 0xFFF0) | (c & 0x000F)) & 0x7800) >> 11 == (f & 0x7800) >> 11) by (bit_vector);
    assert(((f & 0xFFF0) | (c & 0x000F)) & 0x000F == c & 0x000F) by (bit_vector);
    assert(((f & 0x87FF) | (o << 11u16)) & 0x000F == f & 0x000F) by (bit_vector);
    assert(o < 16 ==> (((f & 0x87FF) | (o << 11u16)) & 0x7800) >> 11 == o) by (bit_vector);
}

/// Each opcode value 0 to 6 names exactly one operation, whose value it is;
/// every larger value is rejected.
pub proof fn lemma_opcode_round_trip(v: u8, op: OperationCode, other: OperationCode)
    ensures
        v <= 6 ==> opcode_from(v) is Ok && opcode_from(v)->Ok_0.code() == v,
        v > 6 ==> opcode_from(v) == Err::<OperationCode, DnsError>(DnsError::MalformedHeader),
        opcode_from(op.code()) == Ok::<OperationCode, DnsError>(op),
        op.code() == other.code() ==> op == other,
{
}

} // verus!
