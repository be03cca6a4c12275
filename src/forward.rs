//! The forwarding policy: answer each question locally, or split the query
//! into one upstream query per question and merge the first answer of each
//! reply back into the original message.
//!
//! The exchange with the upstream resolver happens outside this module. A
//! [`Forwarder`] says which datagram to send next, is told what came back
//! (or that nothing did), and at the end produces the response datagram.

use vstd::prelude::*;

use crate::answer::AnswerView;
use crate::header::{
    apply_flag, opcode_bits, opcode_from, DnsHeader, DnsHeaderFlag, OperationCode,
    QueryResponseIndicator, ResponseCode,
};
use crate::message::{datagram, local_answer, message_at, DnsMessage, MessageView};
use crate::question::QuestionView;
use crate::wire::DnsError;

verus! {

/// The single-question query sent upstream for question `i` of `m`: the
/// same header, but counting one question and no other records.
pub open spec fn sub_query_view(m: MessageView, i: int) -> MessageView {
    MessageView {
        header: DnsHeader {
            question_count: 1,
            answer_record_count: 0,
            authority_record_count: 0,
            additional_record_count: 0,
            ..m.header
        },
        questions: seq![m.questions[i]],
        answers: Seq::empty(),
        authority: Seq::empty(),
        extra: Seq::empty(),
    }
}

/// `m` after the upstream reply `reply` to one of its questions: the
/// reply's first answer is appended and counted, if it decoded and has one.
pub open spec fn with_first_answer(m: MessageView, reply: Result<MessageView, DnsError>) -> MessageView {
    match reply {
        Ok(r) => if r.answers.len() > 0 {
            MessageView {
                header: DnsHeader {
                    answer_record_count: (m.header.answer_record_count + 1) as u16,
                    ..m.header
                },
                answers: m.answers.push(r.answers[0]),
                ..m
            }
        } else {
            m
        },
        Err(_) => m,
    }
}

/// The response code for a request whose flags are `f`: `NoError` for a
/// standard query, `NotImp` for any other operation.
pub open spec fn response_code_for(f: u16) -> ResponseCode {
    if opcode_from(opcode_bits(f) as u8) == Ok::<OperationCode, DnsError>(OperationCode::Query()) {
        ResponseCode::NoError
    } else {
        ResponseCode::NotImp
    }
}

/// The flags of the response to a request with flags `f`: the response
/// bit set, then the response code chosen from the opcode.
pub open spec fn response_flags(f: u16) -> u16 {
    let marked = apply_flag(f, DnsHeaderFlag::Qr(QueryResponseIndicator::Response()));
    apply_flag(marked, DnsHeaderFlag::RCode(response_code_for(marked)))
}

/// `m` marked as the response to itself.
pub open spec fn response_view(m: MessageView) -> MessageView {
    MessageView {
        header: DnsHeader { flags: response_flags(m.header.flags), ..m.header },
        ..m
    }
}

/// `m` with one local answer appended and counted per question.
pub open spec fn locally_answered(m: MessageView) -> MessageView {
    MessageView {
        header: DnsHeader {
            answer_record_count: (m.header.answer_record_count + m.questions.len()) as u16,
            ..m.header
        },
        answers: m.answers + m.questions.map_values(|q: QuestionView| local_answer(q)),
        ..m
    }
}

impl DnsMessage {
    /// The single-question query to send upstream for question `i`.
    pub fn sub_query(&self, i: usize) -> (r: DnsMessage)
        requires
            i < self.questions@.len(),
        ensures
            r@ == sub_query_view(self@, i as int),
    {
        let mut header = self.header;
        header.question_count = 1;
        header.answer_record_count = 0;
        header.authority_record_count = 0;
        header.additional_record_count = 0;
        let mut questions = Vec::new();
        questions.push(self.questions[i].clone());
        let r = DnsMessage {
            header,
            questions,
            answers: Vec::new(),
            authority: Vec::new(),
            extra: Vec::new(),
        };
        assert(r@.questions =~= seq![self@.questions[i as int]]);
        assert(r@.answers =~= Seq::<AnswerView>::empty());
        assert(r@.authority =~= Seq::<u8>::empty());
        assert(r@.extra =~= Seq::<u8>::empty());
        r
    }

    /// Appends the first answer of an upstream reply, if it has one, and
    /// counts it in the header.
    pub fn take_first_answer(&mut self, reply: &DnsMessage)
        requires
            old(self).header.answer_record_count < 0xFFFF,
        ensures
            final(self)@ == with_first_answer(old(self)@, Ok::<MessageView, DnsError>(reply@)),
            old(self)@.wf() ==> final(self)@.wf(),
    {
        if reply.answers.len() > 0 {
            let answer = reply.answers[0].clone();
            let ghost before = self@;
            self.answers.push(answer);
            self.header.answer_record_count = self.header.answer_record_count + 1;
            assert(self@.answers =~= before.answers.push(reply@.answers[0]));
        }
    }

    /// Marks the message as a response: sets the response bit, then the
    /// response code, `NoError` for a standard query and `NotImp` otherwise.
    pub fn mark_response(&mut self)
        ensures
            final(self)@ == response_view(old(self)@),
            old(self)@.wf() ==> final(self)@.wf(),
    {
        self.header.set_header_flag(DnsHeaderFlag::Qr(QueryResponseIndicator::Response()));
        let code = match self.header.get_op_code() {
            Ok(OperationCode::Query()) => ResponseCode::NoError,
            _ => ResponseCode::NotImp,
        };
        self.header.set_header_flag(DnsHeaderFlag::RCode(code));
    }

    /// Answers every question locally and marks the message as a response.
    pub fn respond_locally(&mut self)
        requires
            old(self).header.answer_record_count + old(self).questions@.len() <= 0xFFFF,
        ensures
            final(self)@ == response_view(locally_answered(old(self)@)),
            final(self)@.answers.len() == old(self)@.answers.len() + old(self)@.questions.len(),
            old(self)@.wf() ==> final(self)@.wf(),
    {
        self.generate_answers();
        self.mark_response();
    }
}

/// The forwarding of one query, question by question.
pub struct Forwarder {
    message: DnsMessage,
    next: usize,
}

impl Forwarder {
    /// The query, with the answers gathered so far.
    pub closed spec fn message(&self) -> MessageView {
        self.message@
    }

    /// The index of the question to forward next.
    pub closed spec fn next(&self) -> int {
        self.next as int
    }

    /// No question is beyond the end, and the answer count stays within
    /// sixteen bits whatever the replies to the remaining questions.
    pub closed spec fn inv(&self) -> bool {
        &&& self.next <= self.message@.questions.len()
        &&& self.message.header.answer_record_count + self.message@.questions.len() - self.next
            <= 0xFFFF
    }

    /// Starts forwarding `query` from its first question.
    pub fn new(query: DnsMessage) -> (r: Forwarder)
        requires
            query.header.answer_record_count + query.questions@.len() <= 0xFFFF,
        ensures
            r.inv(),
            r.message() == query@,
            r.next() == 0,
    {
        Forwarder { message: query, next: 0 }
    }

    /// The datagram to send upstream for the next question, or `None` when
    /// every question has been forwarded. A question whose query has no
    /// datagram is passed over and contributes no answer.
    pub fn next_request(&mut self) -> (r: Option<[u8; 512]>)
        requires
            old(self).inv(),
        ensures
            final(self).inv(),
            final(self).message() == old(self).message(),
            old(self).next() <= final(self).next() <= old(self).message().questions.len(),
            forall|j: int|
                old(self).next() <= j < final(self).next() ==> #[trigger] datagram(
                    sub_query_view(old(self).message(), j),
                ) is Err,
            match r {
                Some(b) => final(self).next() < old(self).message().questions.len() && datagram(
                    sub_query_view(old(self).message(), final(self).next()),
                ) == Ok::<Seq<u8>, DnsError>(b@),
                None => final(self).next() == old(self).message().questions.len(),
            },
    {
        let ghost first = self.next as int;
        while self.next < self.message.questions.len()
            invariant
                self.inv(),
                self.message() == old(self).message(),
                first == old(self).next(),
                first <= self.next(),
                forall|j: int|
                    first <= j < self.next() ==> #[trigger] datagram(
                        sub_query_view(self.message(), j),
                    ) is Err,
            decreases self.message.questions@.len() - self.next,
        {
            let query = self.message.sub_query(self.next);
            match query.serialize_as_be() {
                Ok(b) => {
                    return Some(b);
                },
                Err(_) => {
                    self.next = self.next + 1;
                },
            }
        }
        None
    }

    /// Takes the upstream reply to the question last requested: its first
    /// answer, if it decodes and has one, joins the message. Then moves on.
    pub fn accept_reply(&mut self, reply: &[u8])
        requires
            old(self).inv(),
        ensures
            final(self).inv(),
            old(self).next() < old(self).message().questions.len() ==> final(self).next()
                == old(self).next() + 1 && final(self).message() == with_first_answer(
                old(self).message(),
                message_at(reply@),
            ),
            old(self).next() >= old(self).message().questions.len() ==> final(self).next()
                == old(self).next() && final(self).message() == old(self).message(),
    {
        if self.next >= self.message.questions.len() {
            return;
        }
        match DnsMessage::deserialize(reply) {
            Ok(answered) => self.message.take_first_answer(&answered),
            Err(_) => {},
        }
        assert(self.message@.questions.len() == old(self).message@.questions.len());
        self.next = self.next + 1;
    }

    /// Records that the question last requested got no reply; it
    /// contributes no answer. Then moves on.
    pub fn upstream_failed(&mut self)
        requires
            old(self).inv(),
        ensures
            final(self).inv(),
            final(self).message() == old(self).message(),
            old(self).next() < old(self).message().questions.len() ==> final(self).next()
                == old(self).next() + 1,
            old(self).next() >= old(self).message().questions.len() ==> final(self).next()
                == old(self).next(),
    {
        if self.next < self.message.questions.len() {
            self.next = self.next + 1;
        }
    }

    /// The response datagram: the message with the answers gathered, marked
    /// as a response.
    pub fn finish(self) -> (r: Result<[u8; 512], DnsError>)
        ensures
            match datagram(response_view(self.message())) {
                Ok(d) => r matches Ok(b) && b@ == d,
                Err(e) => r == Err::<[u8; 512], DnsError>(e),
            },
    {
        let mut message = self.message;
        message.mark_response();
        message.serialize_as_be()
    }
}

} // verus!
