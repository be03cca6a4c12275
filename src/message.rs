//! Whole messages: a header, a question section and an answer section.

use vstd::prelude::*;

use crate::answer::{answer_at, answer_wire, Answer, AnswerView};
use crate::header::{apply_flag, header_from_wire, header_wire, DnsHeader, DnsHeaderFlag};
use crate::name::{encodable, name_at};
use crate::question::{question_at, question_wire, Question, QuestionView};
use crate::wire::{push_all, DnsError};

verus! {

/// The largest message that fits in one datagram.
pub const MAX_MESSAGE_LEN: usize = 512;

/// The time to live of an answer made up locally.
pub const LOCAL_TTL: u32 = 60;

/// A message. The authority and additional sections are carried as bytes
/// and never interpreted.
#[derive(Debug)]
pub struct DnsMessage {
    pub header: DnsHeader,
    pub questions: Vec<Question>,
    pub answers: Vec<Answer>,
    pub authority: Vec<u8>,
    pub extra: Vec<u8>,
}

/// The mathematical content of a message.
pub struct MessageView {
    pub header: DnsHeader,
    pub questions: Seq<QuestionView>,
    pub answers: Seq<AnswerView>,
    pub authority: Seq<u8>,
    pub extra: Seq<u8>,
}

/// The content of each question.
pub open spec fn questions_view(v: Seq<Question>) -> Seq<QuestionView> {
    v.map_values(|q: Question| q@)
}

/// The content of each answer.
pub open spec fn answers_view(v: Seq<Answer>) -> Seq<AnswerView> {
    v.map_values(|a: Answer| a@)
}

impl View for DnsMessage {
    type V = MessageView;

    open spec fn view(&self) -> MessageView {
        MessageView {
            header: self.header,
            questions: questions_view(self.questions@),
            answers: answers_view(self.answers@),
            authority: self.authority@,
            extra: self.extra@,
        }
    }
}

impl MessageView {
    /// The question and answer counts of the header are the numbers of
    /// questions and answers present.
    pub open spec fn wf(&self) -> bool {
        &&& self.header.question_count as int == self.questions.len()
        &&& self.header.answer_record_count as int == self.answers.len()
    }
}

/// Decodes `count` questions one after the other from `pos` on. The result
/// holds the offset just after the last of them.
pub open spec fn questions_at(msg: Seq<u8>, pos: int, count: nat) -> Result<
    (Seq<QuestionView>, int),
    DnsError,
>
    decreases count,
{
    if count == 0 {
        Ok((Seq::empty(), pos))
    } else {
        match questions_at(msg, pos, (count - 1) as nat) {
            Err(e) => Err(e),
            Ok((qs, next)) => match question_at(msg, next) {
                Err(e) => Err(e),
                Ok((q, end)) => Ok((qs.push(q), end + 1)),
            },
        }
    }
}

/// Decodes `count` answers one after the other from `pos` on. The result
/// holds the offset just after the last of them.
pub open spec fn answers_at(msg: Seq<u8>, pos: int, count: nat) -> Result<
    (Seq<AnswerView>, int),
    DnsError,
>
    decreases count,
{
    if count == 0 {
        Ok((Seq::empty(), pos))
    } else {
        match answers_at(msg, pos, (count - 1) as nat) {
            Err(e) => Err(e),
            Ok((ans, next)) => match answer_at(msg, next) {
                Err(e) => Err(e),
                Ok((a, end)) => Ok((ans.push(a), end + 1)),
            },
        }
    }
}

/// Decodes a whole message: the header from the first twelve bytes, then
/// as many questions and answers as the header counts.
pub open spec fn message_at(msg: Seq<u8>) -> Result<MessageView, DnsError> {
    if msg.len() < 12 {
        Err(DnsError::MalformedHeader)
    } else {
        let h = header_from_wire(msg.subrange(0, 12));
        match questions_at(msg, 12, h.question_count as nat) {
            Err(e) => Err(e),
            Ok((qs, next)) => match answers_at(msg, next, h.answer_record_count as nat) {
                Err(e) => Err(e),
                Ok((ans, _)) => Ok(
                    MessageView {
                        header: h,
                        questions: qs,
                        answers: ans,
                        authority: Seq::empty(),
                        extra: Seq::empty(),
                    },
                ),
            },
        }
    }
}

/// The wire form of the questions, in order, or the error of the first one
/// that has none.
pub open spec fn questions_bytes(qs: Seq<QuestionView>) -> Result<Seq<u8>, DnsError>
    decreases qs.len(),
{
    if qs.len() == 0 {
        Ok(Seq::empty())
    } else {
        match questions_bytes(qs.drop_last()) {
            Err(e) => Err(e),
            Ok(b) => if encodable(qs.last().name) {
                Ok(b + question_wire(qs.last()))
            } else {
                Err(DnsError::InvalidLabel)
            },
        }
    }
}

/// The wire form of one answer, or why it has none.
pub open spec fn answer_bytes(a: AnswerView) -> Result<Seq<u8>, DnsError> {
    if !encodable(a.name) {
        Err(DnsError::InvalidLabel)
    } else if a.data.len() > 0xFFFF {
        Err(DnsError::MessageTooLong)
    } else {
        Ok(answer_wire(a))
    }
}

/// The wire form of the answers, in order, or the error of the first one
/// that has none.
pub open spec fn answers_bytes(ans: Seq<AnswerView>) -> Result<Seq<u8>, DnsError>
    decreases ans.len(),
{
    if ans.len() == 0 {
        Ok(Seq::empty())
    } else {
        match answers_bytes(ans.drop_last()) {
            Err(e) => Err(e),
            Ok(b) => match answer_bytes(ans.last()) {
                Err(e) => Err(e),
                Ok(w) => Ok(b + w),
            },
        }
    }
}

/// The wire form of a message: the header, the questions and the answers,
/// without padding; or why it has none.
pub open spec fn message_bytes(m: MessageView) -> Result<Seq<u8>, DnsError> {
    match questions_bytes(m.questions) {
        Err(e) => Err(e),
        Ok(qb) => match answers_bytes(m.answers) {
            Err(e) => Err(e),
            Ok(ab) => Ok(header_wire(m.header) + qb + ab),
        },
    }
}

/// The datagram that carries `w`: `w` padded with zero bytes to 512 bytes.
pub open spec fn padded(w: Seq<u8>) -> Seq<u8> {
    w + Seq::new((MAX_MESSAGE_LEN - w.len()) as nat, |i: int| 0u8)
}

/// The 512-byte datagram of a message, or why it has none.
pub open spec fn datagram(m: MessageView) -> Result<Seq<u8>, DnsError> {
    match message_bytes(m) {
        Err(e) => Err(e),
        Ok(w) => if w.len() > MAX_MESSAGE_LEN {
            Err(DnsError::MessageTooLong)
        } else {
            Ok(padded(w))
        },
    }
}

/// The answer made up locally for a question: its name, type and class,
/// a fixed time to live and the fixed address 8.8.8.8.
pub open spec fn local_answer(q: QuestionView) -> AnswerView {
    AnswerView {
        name: q.name,
        resource_type: q.resource_type,
        resource_class: q.resource_class,
        ttl: LOCAL_TTL,
        length: 4,
        data: seq![8u8, 8u8, 8u8, 8u8],
    }
}

/// Once a question fails to decode, so do all the counts beyond it.
proof fn lemma_questions_err_stays(msg: Seq<u8>, pos: int, k: nat, m: nat)
    requires
        k <= m,
        questions_at(msg, pos, k) is Err,
    ensures
        questions_at(msg, pos, m) == questions_at(msg, pos, k),
    decreases m - k,
{
    if k < m {
        lemma_questions_err_stays(msg, pos, k, (m - 1) as nat);
    }
}

/// Once an answer fails to decode, so do all the counts beyond it.
proof fn lemma_answers_err_stays(msg: Seq<u8>, pos: int, k: nat, m: nat)
    requires
        k <= m,
        answers_at(msg, pos, k) is Err,
    ensures
        answers_at(msg, pos, m) == answers_at(msg, pos, k),
    decreases m - k,
{
    if k < m {
        lemma_answers_err_stays(msg, pos, k, (m - 1) as nat);
    }
}

/// Once a question has no wire form, neither has any longer section.
proof fn lemma_questions_bytes_err_stays(qs: Seq<QuestionView>, k: int)
    requires
        0 <= k <= qs.len(),
        questions_bytes(qs.subrange(0, k)) is Err,
    ensures
        questions_bytes(qs) == questions_bytes(qs.subrange(0, k)),
    decreases qs.len() - k,
{
    if k < qs.len() {
        let next = qs.subrange(0, k + 1);
        assert(next.drop_last() =~= qs.subrange(0, k));
        lemma_questions_bytes_err_stays(qs, k + 1);
    } else {
        assert(qs.subrange(0, k) =~= qs);
    }
}

/// Once an answer has no wire form, neither has any longer section.
proof fn lemma_answers_bytes_err_stays(ans: Seq<AnswerView>, k: int)
    requires
        0 <= k <= ans.len(),
        answers_bytes(ans.subrange(0, k)) is Err,
    ensures
        answers_bytes(ans) == answers_bytes(ans.subrange(0, k)),
    decreases ans.len() - k,
{
    if k < ans.len() {
        let next = ans.subrange(0, k + 1);
        assert(next.drop_last() =~= ans.subrange(0, k));
        lemma_answers_bytes_err_stays(ans, k + 1);
    } else {
        assert(ans.subrange(0, k) =~= ans);
    }
}

/// A name that decodes ends at or after its first byte, inside the message.
proof fn lemma_name_end_bounds(msg: Seq<u8>, start: int, pos: int)
    requires
        name_at(msg, start, pos) is Some,
    ensures
        pos <= name_at(msg, start, pos)->Some_0.1 < msg.len(),
    decreases start, msg.len() - pos,
{
    if msg[pos] != 0 && msg[pos] < 0xC0 {
        lemma_name_end_bounds(msg, start, pos + 1 + msg[pos] as int);
    }
}

impl DnsMessage {
    /// Decodes `count` questions one after the other, the first at `offset`
    /// in the whole message `input`. Returns them with the offset just after
    /// the last one.
    pub fn parse_question_section(input: &[u8], offset: usize, count: u16) -> (r: Result<
        (Vec<Question>, usize),
        DnsError,
    >)
        ensures
            match questions_at(input@, offset as int, count as nat) {
                Ok((qs, next)) => r matches Ok((v, n)) && questions_view(v@) == qs && n == next,
                Err(e) => r == Err::<(Vec<Question>, usize), DnsError>(e),
            },
            r matches Ok((v, n)) ==> v@.len() == count,
            r matches Ok((v, n)) ==> offset + v@.len() <= n <= input@.len() || count == 0,
    {
        let mut questions: Vec<Question> = Vec::new();
        let mut off: usize = offset;
        let mut k: u16 = 0;
        assert(questions_view(questions@) =~= Seq::empty());
        while k < count
            invariant
                k <= count,
                questions_at(input@, offset as int, k as nat) == Ok::<(Seq<QuestionView>, int), DnsError>(
                    (questions_view(questions@), off as int),
                ),
                k == questions@.len(),
                k > 0 ==> offset + k <= off <= input@.len(),
            decreases count - k,
        {
            match Question::deserialize(input, off) {
                Ok((q, end)) => {
                    proof {
                        lemma_name_end_bounds(input@, off as int, off as int);
                    }
                    assert(end < input.len());
                    let ghost before = questions@;
                    questions.push(q);
                    assert(questions_view(questions@) =~= questions_view(before).push(q@));
                    off = end + 1;
                    k = k + 1;
                },
                Err(e) => {
                    proof {
                        lemma_questions_err_stays(input@, offset as int, (k + 1) as nat, count as nat);
                    }
                    return Err(e);
                },
            }
        }
        Ok((questions, off))
    }

    /// Decodes `count` answers one after the other, the first at `offset`
    /// in the whole message `input`. Returns them with the offset just after
    /// the last one.
    pub fn parse_answer_section(input: &[u8], offset: usize, count: u16) -> (r: Result<
        (Vec<Answer>, usize),
        DnsError,
    >)
        ensures
            match answers_at(input@, offset as int, count as nat) {
                Ok((ans, next)) => r matches Ok((v, n)) && answers_view(v@) == ans && n == next,
                Err(e) => r == Err::<(Vec<Answer>, usize), DnsError>(e),
            },
            r matches Ok((v, n)) ==> v@.len() == count,
            r matches Ok((v, n)) ==> offset + v@.len() <= n <= input@.len() || count == 0,
    {
        let mut answers: Vec<Answer> = Vec::new();
        let mut off: usize = offset;
        let mut k: u16 = 0;
        assert(answers_view(answers@) =~= Seq::empty());
        while k < count
            invariant
                k <= count,
                answers_at(input@, offset as int, k as nat) == Ok::<(Seq<AnswerView>, int), DnsError>(
                    (answers_view(answers@), off as int),
                ),
                k == answers@.len(),
                k > 0 ==> offset + k <= off <= input@.len(),
            decreases count - k,
        {
            match Answer::deserialize(input, off) {
                Ok((a, end)) => {
                    proof {
                        lemma_name_end_bounds(input@, off as int, off as int);
                    }
                    assert(end < input.len());
                    let ghost before = answers@;
                    answers.push(a);
                    assert(answers_view(answers@) =~= answers_view(before).push(a@));
                    off = end + 1;
                    k = k + 1;
                },
                Err(e) => {
                    proof {
                        lemma_answers_err_stays(input@, offset as int, (k + 1) as nat, count as nat);
                    }
                    return Err(e);
                },
            }
        }
        Ok((answers, off))
    }

    /// Decodes a whole packet: the header from its first twelve bytes, then
    /// the questions from offset 12 and the answers right after them, as
    /// many of each as the header counts. The first record that fails to
    /// decode fails the whole packet.
    pub fn deserialize(packet: &[u8]) -> (r: Result<DnsMessage, DnsError>)
        ensures
            match message_at(packet@) {
                Ok(m) => r matches Ok(x) && x@ == m,
                Err(e) => r == Err::<DnsMessage, DnsError>(e),
            },
            r matches Ok(x) ==> x@.wf() && x@.questions.len() + x@.answers.len() + 12
                <= packet@.len(),
    {
        if packet.len() < 12 {
            return Err(DnsError::MalformedHeader);
        }
        let header = DnsHeader::deserialize(&packet[0..12])?;
        let (questions, next) = DnsMessage::parse_question_section(
            packet,
            12,
            header.question_count,
        )?;
        let (answers, _) = DnsMessage::parse_answer_section(
            packet,
            next,
            header.answer_record_count,
        )?;
        let r = DnsMessage {
            header,
            questions,
            answers,
            authority: Vec::new(),
            extra: Vec::new(),
        };
        assert(r@.authority =~= Seq::<u8>::empty());
        assert(r@.extra =~= Seq::<u8>::empty());
        Ok(r)
    }

    /// Encodes the message into one 512-byte datagram: the header, each
    /// question in order, then each answer in order, padded with zeros. A
    /// message that does not fit is an error, never cut short.
    pub fn serialize_as_be(self) -> (r: Result<[u8; 512], DnsError>)
        ensures
            match datagram(self@) {
                Ok(d) => r matches Ok(b) && b@ == d,
                Err(e) => r == Err::<[u8; 512], DnsError>(e),
            },
    {
        let ghost qv = self@.questions;
        let ghost av = self@.answers;
        let mut qb: Vec<u8> = Vec::new();
        let mut i: usize = 0;
        assert(qv.subrange(0, 0) =~= Seq::<QuestionView>::empty());
        while i < self.questions.len()
            invariant
                i <= qv.len(),
                qv == questions_view(self.questions@),
                questions_bytes(qv.subrange(0, i as int)) == Ok::<Seq<u8>, DnsError>(qb@),
            decreases qv.len() - i,
        {
            let ghost done = qv.subrange(0, i as int + 1);
            assert(done.drop_last() =~= qv.subrange(0, i as int));
            assert(done.last() == self.questions@[i as int]@);
            match self.questions[i].serialize() {
                Ok(b) => {
                    push_all(&mut qb, b.as_slice());
                },
                Err(e) => {
                    proof {
                        lemma_questions_bytes_err_stays(qv, i as int + 1);
                    }
                    return Err(e);
                },
            }
            i = i + 1;
        }
        assert(qv.subrange(0, i as int) =~= qv);
        let mut ab: Vec<u8> = Vec::new();
        let mut j: usize = 0;
        assert(av.subrange(0, 0) =~= Seq::<AnswerView>::empty());
        while j < self.answers.len()
            invariant
                j <= av.len(),
                av == answers_view(self.answers@),
                questions_bytes(qv) == Ok::<Seq<u8>, DnsError>(qb@),
                qv == self@.questions,
                answers_bytes(av.subrange(0, j as int)) == Ok::<Seq<u8>, DnsError>(ab@),
            decreases av.len() - j,
        {
            let ghost done = av.subrange(0, j as int + 1);
            assert(done.drop_last() =~= av.subrange(0, j as int));
            assert(done.last() == self.answers@[j as int]@);
            match self.answers[j].serialize() {
                Ok(b) => {
                    push_all(&mut ab, b.as_slice());
                },
                Err(e) => {
                    proof {
                        lemma_answers_bytes_err_stays(av, j as int + 1);
                    }
                    return Err(e);
                },
            }
            j = j + 1;
        }
        assert(av.subrange(0, j as int) =~= av);
        if qb.len() > MAX_MESSAGE_LEN || ab.len() > MAX_MESSAGE_LEN || 12 + qb.len() + ab.len()
            > MAX_MESSAGE_LEN {
            return Err(DnsError::MessageTooLong);
        }
        let mut w = self.header.serialize();
        push_all(&mut w, qb.as_slice());
        push_all(&mut w, ab.as_slice());
        let mut buf = [0u8; 512];
        let mut k: usize = 0;
        while k < w.len()
            invariant
                w@.len() <= MAX_MESSAGE_LEN,
                k <= w@.len(),
                buf@.len() == MAX_MESSAGE_LEN,
                forall|x: int| 0 <= x < k ==> buf@[x] == w@[x],
                forall|x: int| k <= x < MAX_MESSAGE_LEN ==> buf@[x] == 0,
            decreases w@.len() - k,
        {
            buf[k] = w[k];
            k = k + 1;
        }
        assert(buf@ =~= padded(w@));
        Ok(buf)
    }

    /// Answers every question locally: appends one made-up answer per
    /// question, in order, and counts each in the header.
    pub fn generate_answers(&mut self)
        requires
            old(self).header.answer_record_count + old(self).questions@.len() <= 0xFFFF,
        ensures
            final(self)@.answers == old(self)@.answers + old(self)@.questions.map_values(
                |q: QuestionView| local_answer(q),
            ),
            final(self)@.header == (DnsHeader {
                answer_record_count: (old(self).header.answer_record_count
                    + old(self).questions@.len()) as u16,
                ..old(self).header
            }),
            final(self)@.questions == old(self)@.questions,
            final(self)@.authority == old(self)@.authority,
            final(self)@.extra == old(self)@.extra,
            old(self)@.wf() ==> final(self)@.wf(),
    {
        let ghost start = self@;
        let mut i: usize = 0;
        while i < self.questions.len()
            invariant
                i <= self.questions@.len(),
                self@.questions == start.questions,
                self@.authority == start.authority,
                self@.extra == start.extra,
                start.header.answer_record_count + start.questions.len() <= 0xFFFF,
                self@.header == (DnsHeader {
                    answer_record_count: (start.header.answer_record_count + i) as u16,
                    ..start.header
                }),
                self@.answers == start.answers + start.questions.subrange(0, i as int).map_values(
                    |q: QuestionView| local_answer(q),
                ),
            decreases self.questions@.len() - i,
        {
            let q = &self.questions[i];
            let mut data: Vec<u8> = Vec::new();
            data.push(8);
            data.push(8);
            data.push(8);
            data.push(8);
            assert(data@ =~= seq![8u8, 8u8, 8u8, 8u8]);
            let answer = Answer {
                name: q.name.clone(),
                resource_type: q.resource_type,
                resource_class: q.resource_class,
                ttl: LOCAL_TTL,
                length: 4,
                data,
            };
            assert(answer@ == local_answer(start.questions[i as int]));
            let ghost before = self.answers@;
            self.answers.push(answer);
            self.header.answer_record_count = self.header.answer_record_count + 1;
            proof {
                assert(answers_view(self.answers@) =~= answers_view(before).push(answer@));
                assert(start.questions.subrange(0, i as int + 1).map_values(
                    |q: QuestionView| local_answer(q),
                ) =~= start.questions.subrange(0, i as int).map_values(
                    |q: QuestionView| local_answer(q),
                ).push(local_answer(start.questions[i as int])));
            }
            i = i + 1;
        }
        assert(start.questions.subrange(0, i as int) =~= start.questions);
    }

    /// Writes one flag field of the header; nothing else changes.
    pub fn set_header_flag(&mut self, flag: DnsHeaderFlag)
        ensures
            final(self)@ == (MessageView {
                header: DnsHeader { flags: apply_flag(old(self).header.flags, flag), ..old(self).header },
                ..old(self)@
            }),
            old(self)@.wf() ==> final(self)@.wf(),
    {
        self.header.set_header_flag(flag);
    }
}

} // verus!
