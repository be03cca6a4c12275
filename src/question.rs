//! Resource types and classes, and the question record.

use vstd::prelude::*;

use crate::name::{encodable, name_at, name_wire, DomainName};
use crate::wire::{be16_at, be16_bytes, push_be16, read_be16, DnsError};

verus! {

/// The kind of resource a record describes.
#[derive(Debug, Clone, Copy, PartialEq, Eq, Structural)]
pub enum ResourceType {
    A,
    NS,
    MD,
    MF,
    CNAME,
    SOA,
    MB,
    MG,
    MR,
    NULL,
    WKS,
    PTR,
    HINFO,
    MINFO,
    MX,
    TXT,
}

/// The protocol family a record belongs to.
#[derive(Debug, Clone, Copy, PartialEq, Eq, Structural)]
pub enum ResourceClass {
    IN,
    CS,
    CH,
    HS,
    QClassAny,
}

impl ResourceType {
    /// The 16-bit wire code of the type.
    pub open spec fn code(&self) -> u16 {
        match self {
            ResourceType::A => 1,
            ResourceType::NS => 2,
            ResourceType::MD => 3,
            ResourceType::MF => 4,
            ResourceType::CNAME => 5,
            ResourceType::SOA => 6,
            ResourceType::MB => 7,
            ResourceType::MG => 8,
            ResourceType::MR => 9,
            ResourceType::NULL => 10,
            ResourceType::WKS => 11,
            ResourceType::PTR => 12,
            ResourceType::HINFO => 13,
            ResourceType::MINFO => 14,
            ResourceType::MX => 15,
            ResourceType::TXT => 16,
        }
    }

    /// The 16-bit wire code of the type.
    pub fn value(&self) -> (r: u16)
        ensures
            r == self.code(),
    {
        match *self {
            ResourceType::A => 1,
            ResourceType::NS => 2,
            ResourceType::MD => 3,
            ResourceType::MF => 4,
            ResourceType::CNAME => 5,
            ResourceType::SOA => 6,
            ResourceType::MB => 7,
            ResourceType::MG => 8,
            ResourceType::MR => 9,
            ResourceType::NULL => 10,
            ResourceType::WKS => 11,
            ResourceType::PTR => 12,
            ResourceType::HINFO => 13,
            ResourceType::MINFO => 14,
            ResourceType::MX => 15,
            ResourceType::TXT => 16,
        }
    }

    /// The type whose wire code is `v`.
    pub fn from_value(v: u16) -> (r: Result<ResourceType, DnsError>)
        ensures
            r == type_from(v),
    {
        match v {
            1 => Ok(ResourceType::A),
            2 => Ok(ResourceType::NS),
            3 => Ok(ResourceType::MD),
            4 => Ok(ResourceType::MF),
            5 => Ok(ResourceType::CNAME),
            6 => Ok(ResourceType::SOA),
            7 => Ok(ResourceType::MB),
            8 => Ok(ResourceType::MG),
            9 => Ok(ResourceType::MR),
            10 => Ok(ResourceType::NULL),
            11 => Ok(ResourceType::WKS),
            12 => Ok(ResourceType::PTR),
            13 => Ok(ResourceType::HINFO),
            14 => Ok(ResourceType::MINFO),
            15 => Ok(ResourceType::MX),
            16 => Ok(ResourceType::TXT),
            _ => Err(DnsError::UnknownResourceCode),
        }
    }
}

/// The type whose wire code is `v`.
pub open spec fn type_from(v: u16) -> Result<ResourceType, DnsError> {
    if v == 1 {
        Ok(ResourceType::A)
    } else if v == 2 {
        Ok(ResourceType::NS)
    } else if v == 3 {
        Ok(ResourceType::MD)
    } else if v == 4 {
        Ok(ResourceType::MF)
    } else if v == 5 {
        Ok(ResourceType::CNAME)
    } else if v == 6 {
        Ok(ResourceType::SOA)
    } else if v == 7 {
        Ok(ResourceType::MB)
    } else if v == 8 {
        Ok(ResourceType::MG)
    } else if v == 9 {
        Ok(ResourceType::MR)
    } else if v == 10 {
        Ok(ResourceType::NULL)
    } else if v == 11 {
        Ok(ResourceType::WKS)
    } else if v == 12 {
        Ok(ResourceType::PTR)
    } else if v == 13 {
        Ok(ResourceType::HINFO)
    } else if v == 14 {
        Ok(ResourceType::MINFO)
    } else if v == 15 {
        Ok(ResourceType::MX)
    } else if v == 16 {
        Ok(ResourceType::TXT)
    } else {
        Err(DnsError::UnknownResourceCode)
    }
}

impl ResourceClass {
    /// The 16-bit wire code of the class.
    pub open spec fn code(&self) -> u16 {
        match self {
            ResourceClass::IN => 1,
            ResourceClass::CS => 2,
            ResourceClass::CH => 3,
            ResourceClass::HS => 4,
            ResourceClass::QClassAny => 255,
        }
    }

    /// The 16-bit wire code of the class.
    pub fn value(&self) -> (r: u16)
        ensures
            r == self.code(),
    {
        match *self {
            ResourceClass::IN => 1,
            ResourceClass::CS => 2,
            ResourceClass::CH => 3,
            ResourceClass::HS => 4,
            ResourceClass::QClassAny => 255,
        }
    }

    /// The class whose wire code is `v`.
    pub fn from_value(v: u16) -> (r: Result<ResourceClass, DnsError>)
        ensures
            r == class_from(v),
    {
        match v {
            1 => Ok(ResourceClass::IN),
            2 => Ok(ResourceClass::CS),
            3 => Ok(ResourceClass::CH),
            4 => Ok(ResourceClass::HS),
            255 => Ok(ResourceClass::QClassAny),
            _ => Err(DnsError::UnknownResourceCode),
        }
    }
}

/// The class whose wire code is `v`.
pub open spec fn class_from(v: u16) -> Result<ResourceClass, DnsError> {
    if v == 1 {
        Ok(ResourceClass::IN)
    } else if v == 2 {
        Ok(ResourceClass::CS)
    } else if v == 3 {
        Ok(ResourceClass::CH)
    } else if v == 4 {
        Ok(ResourceClass::HS)
    } else if v == 255 {
        Ok(ResourceClass::QClassAny)
    } else {
        Err(DnsError::UnknownResourceCode)
    }
}


/// A question: a name and the type and class of records asked for.
#[derive(Debug)]
pub struct Question {
    pub name: DomainName,
    pub resource_type: ResourceType,
    pub resource_class: ResourceClass,
}

/// The mathematical content of a question.
pub struct QuestionView {
    pub name: Seq<Seq<char>>,
    pub resource_type: ResourceType,
    pub resource_class: ResourceClass,
}

impl View for Question {
    type V = QuestionView;

    open spec fn view(&self) -> QuestionView {
        QuestionView {
            name: self.name@,
            resource_type: self.resource_type,
            resource_class: self.resource_class,
        }
    }
}

/// Decodes the question at `pos`: a name, a type and a class. The result
/// holds the offset of the question's last byte.
pub open spec fn question_at(msg: Seq<u8>, pos: int) -> Result<(QuestionView, int), DnsError> {
    match name_at(msg, pos, pos) {
        None => Err(DnsError::UnresolvableName),
        Some((labels, end)) => {
            if end + 4 >= msg.len() {
                Err(DnsError::TruncatedRecord)
            } else {
                match type_from(be16_at(msg, end + 1) as u16) {
                    Err(e) => Err(e),
                    Ok(t) => match class_from(be16_at(msg, end + 3) as u16) {
                        Err(e) => Err(e),
                        Ok(c) => Ok(
                            (
                                QuestionView { name: labels, resource_type: t, resource_class: c },
                                end + 4,
                            ),
                        ),
                    },
                }
            }
        },
    }
}

/// The wire form of a question.
pub open spec fn question_wire(q: QuestionView) -> Seq<u8> {
    name_wire(q.name) + be16_bytes(q.resource_type.code()) + be16_bytes(q.resource_class.code())
}

impl Clone for Question {
    fn clone(&self) -> (r: Question)
        ensures
            r@ == self@,
    {
        Question {
            name: self.name.clone(),
            resource_type: self.resource_type,
            resource_class: self.resource_class,
        }
    }
}

impl Question {
    /// Decodes the question that starts at `offset` in the whole message
    /// `input`. Returns it with the offset of its last byte.
    pub fn deserialize(input: &[u8], offset: usize) -> (r: Result<(Question, usize), DnsError>)
        ensures
            match question_at(input@, offset as int) {
                Ok((q, end)) => r matches Ok((x, e)) && x@ == q && e == end,
                Err(err) => r == Err::<(Question, usize), DnsError>(err),
            },
    {
        let (name, name_end) = DomainName::deserialize(input, offset)?;
        if name_end >= input.len() || input.len() - name_end <= 4 {
            return Err(DnsError::TruncatedRecord);
        }
        let resource_type = ResourceType::from_value(read_be16(input, name_end + 1))?;
        let resource_class = ResourceClass::from_value(read_be16(input, name_end + 3))?;
        Ok((Question { name, resource_type, resource_class }, name_end + 4))
    }

    /// Encodes the question: its name, type and class.
    pub fn serialize(&self) -> (r: Result<Vec<u8>, DnsError>)
        ensures
            encodable(self@.name) ==> (r matches Ok(b) && b@ == question_wire(self@)),
            !encodable(self@.name) ==> r == Err::<Vec<u8>, DnsError>(DnsError::InvalidLabel),
    {
        let mut out = self.name.serialize()?;
        push_be16(&mut out, self.resource_type.value());
        push_be16(&mut out, self.resource_class.value());
        Ok(out)
    }
}

} // verus!
