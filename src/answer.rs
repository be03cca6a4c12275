//! The answer resource record.

use vstd::prelude::*;

use crate::name::{encodable, name_at, name_wire, DomainName};
use crate::question::{class_from, type_from, ResourceClass, ResourceType};
use crate::wire::{
    be16_at, be16_bytes, be32_at, be32_bytes, push_all, push_be16, push_be32, read_be16, read_be32,
    DnsError,
};

verus! {

/// An answer: a name, its type and class, a time to live, and the
/// resource data, whose declared length is `length`.
#[derive(Debug)]
pub struct Answer {
    pub name: DomainName,
    pub resource_type: ResourceType,
    pub resource_class: ResourceClass,
    pub ttl: u32,
    pub length: u16,
    pub data: Vec<u8>,
}

/// The mathematical content of an answer.
pub struct AnswerView {
    pub name: Seq<Seq<char>>,
    pub resource_type: ResourceType,
    pub resource_class: ResourceClass,
    pub ttl: u32,
    pub length: u16,
    pub data: Seq<u8>,
}

impl View for Answer {
    type V = AnswerView;

    open spec fn view(&self) -> AnswerView {
        AnswerView {
            name: self.name@,
            resource_type: self.resource_type,
            resource_class: self.resource_class,
            ttl: self.ttl,
            length: self.length,
            data: self.data@,
        }
    }
}

impl AnswerView {
    /// The declared length is the length of the data.
    pub open spec fn wf(&self) -> bool {
        self.length as int == self.data.len()
    }
}

/// Decodes the answer at `pos`: a name, type, class, time to live, data
/// length L and then L bytes of data. The result holds the offset of the
/// answer's last byte.
pub open spec fn answer_at(msg: Seq<u8>, pos: int) -> Result<(AnswerView, int), DnsError> {
    match name_at(msg, pos, pos) {
        None => Err(DnsError::UnresolvableName),
        Some((labels, end)) => {
            if end + 10 >= msg.len() {
                Err(DnsError::TruncatedRecord)
            } else {
                match type_from(be16_at(msg, end + 1) as u16) {
                    Err(e) => Err(e),
                    Ok(t) => match class_from(be16_at(msg, end + 3) as u16) {
                        Err(e) => Err(e),
                        Ok(c) => {
                            let len = be16_at(msg, end + 9);
                            if end + 10 + len >= msg.len() {
                                Err(DnsError::TruncatedRecord)
                            } else {
                                Ok(
                                    (
                                        AnswerView {
                                            name: labels,
                                            resource_type: t,
                                            resource_class: c,
                                            ttl: be32_at(msg, end + 5) as u32,
                                            length: len as u16,
                                            data: msg.subrange(end + 11, end + 11 + len),
                                        },
                                        end + 10 + len,
                                    ),
                                )
                            }
                        },
                    },
                }
            }
        },
    }
}

/// The wire form of an answer; the length field is that of the data.
pub open spec fn answer_wire(a: AnswerView) -> Seq<u8> {
    name_wire(a.name) + be16_bytes(a.resource_type.code()) + be16_bytes(a.resource_class.code())
        + be32_bytes(a.ttl) + be16_bytes(a.data.len() as u16) + a.data
}

/// An answer has a wire form when its name does and its data length fits
/// in sixteen bits.
pub open spec fn answer_encodable(a: AnswerView) -> bool {
    encodable(a.name) && a.data.len() <= 0xFFFF
}

impl Clone for Answer {
    fn clone(&self) -> (r: Answer)
        ensures
            r@ == self@,
    {
        let mut data: Vec<u8> = Vec::new();
        push_all(&mut data, self.data.as_slice());
        Answer {
            name: self.name.clone(),
            resource_type: self.resource_type,
            resource_class: self.resource_class,
            ttl: self.ttl,
            length: self.length,
            data,
        }
    }
}

impl Answer {
    /// Decodes the answer that starts at `offset` in the whole message
    /// `input`. Returns it with the offset of its last data byte. Data that
    /// would run past the end of `input` is a `TruncatedRecord`.
    pub fn deserialize(input: &[u8], offset: usize) -> (r: Result<(Answer, usize), DnsError>)
        ensures
            match answer_at(input@, offset as int) {
                Ok((a, end)) => r matches Ok((x, e)) && x@ == a && e == end,
                Err(err) => r == Err::<(Answer, usize), DnsError>(err),
            },
            r matches Ok((x, _)) ==> x@.wf(),
    {
        let (name, name_end) = DomainName::deserialize(input, offset)?;
        if name_end >= input.len() || input.len() - name_end <= 10 {
            return Err(DnsError::TruncatedRecord);
        }
        let resource_type = ResourceType::from_value(read_be16(input, name_end + 1))?;
        let resource_class = ResourceClass::from_value(read_be16(input, name_end + 3))?;
        let ttl = read_be32(input, name_end + 5);
        let length = read_be16(input, name_end + 9);
        if input.len() - name_end - 10 <= length as usize {
            return Err(DnsError::TruncatedRecord);
        }
        let data_start = name_end + 11;
        let data_end = data_start + length as usize;
        let mut data: Vec<u8> = Vec::new();
        push_all(&mut data, &input[data_start..data_end]);
        Ok((Answer { name, resource_type, resource_class, ttl, length, data }, data_end - 1))
    }

    /// Encodes the answer. The length field is computed from the data, not
    /// taken from `length`.
    pub fn serialize(&self) -> (r: Result<Vec<u8>, DnsError>)
        ensures
            answer_encodable(self@) ==> (r matches Ok(b) && b@ == answer_wire(self@)),
            !encodable(self@.name) ==> r == Err::<Vec<u8>, DnsError>(DnsError::InvalidLabel),
            encodable(self@.name) && self@.data.len() > 0xFFFF ==> r == Err::<Vec<u8>, DnsError>(
                DnsError::MessageTooLong,
            ),
    {
        let mut out = self.name.serialize()?;
        if self.data.len() > 0xFFFF {
            return Err(DnsError::MessageTooLong);
        }
        push_be16(&mut out, self.resource_type.value());
        push_be16(&mut out, self.resource_class.value());
        push_be32(&mut out, self.ttl);
        push_be16(&mut out, self.data.len() as u16);
        push_all(&mut out, self.data.as_slice());
        Ok(out)
    }
}

} // verus!
