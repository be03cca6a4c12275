use dns_forwarder::{
    Answer, BytePacketBuffer, DnsHeader, DnsMessage, DomainName, Forwarder, Question,
    ResourceClass, ResourceType,
};

fn name(labels: &[&str]) -> DomainName {
    DomainName { content: labels.iter().map(|l| l.to_string()).collect() }
}

fn question(labels: &[&str]) -> Question {
    Question { name: name(labels), resource_type: ResourceType::A, resource_class: ResourceClass::IN }
}

fn query(flags: u16, questions: &[&[&str]]) -> DnsMessage {
    DnsMessage {
        header: DnsHeader {
            packet_identifier: 77,
            flags,
            question_count: questions.len() as u16,
            answer_record_count: 0,
            authority_record_count: 0,
            additional_record_count: 0,
        },
        questions: questions.iter().map(|q| question(q)).collect(),
        answers: vec![],
        authority: vec![],
        extra: vec![],
    }
}

/// What an upstream resolver sends back for a single-question query.
fn upstream_reply(request: &[u8], address: Option<[u8; 4]>) -> [u8; 512] {
    let mut reply = DnsMessage::deserialize(request).unwrap();
    if let Some(ip) = address {
        let q = &reply.questions[0];
        let answer = Answer {
            name: q.name.clone(),
            resource_type: q.resource_type,
            resource_class: q.resource_class,
            ttl: 300,
            length: 4,
            data: ip.to_vec(),
        };
        reply.answers.push(answer);
        reply.header.answer_record_count = 1;
    }
    reply.mark_response();
    reply.serialize_as_be().unwrap()
}

#[test]
fn upstream_answers_first_question_and_drops_second() {
    let packet = query(0x0100, &[&["one", "com"], &["two", "com"]]).serialize_as_be().unwrap();
    let parsed = DnsMessage::deserialize(&packet).unwrap();
    let mut fwd = Forwarder::new(parsed);

    let first = fwd.next_request().unwrap();
    let sub = DnsMessage::deserialize(&first).unwrap();
    assert_eq!(sub.header.question_count, 1);
    assert_eq!(sub.header.answer_record_count, 0);
    assert_eq!(sub.header.packet_identifier, 77);
    assert_eq!(sub.questions[0].name.content, vec!["one", "com"]);
    fwd.accept_reply(&upstream_reply(&first, Some([1, 2, 3, 4])));

    let second = fwd.next_request().unwrap();
    let sub = DnsMessage::deserialize(&second).unwrap();
    assert_eq!(sub.questions.len(), 1);
    assert_eq!(sub.questions[0].name.content, vec!["two", "com"]);
    fwd.upstream_failed();

    assert!(fwd.next_request().is_none());
    let response = DnsMessage::deserialize(&fwd.finish().unwrap()).unwrap();
    assert_eq!(response.answers.len(), 1);
    assert_eq!(response.header.answer_record_count, 1);
    assert_eq!(response.answers[0].name.content, vec!["one", "com"]);
    assert_eq!(response.answers[0].data, vec![1, 2, 3, 4]);
    assert_eq!(response.answers[0].ttl, 300);
    assert_eq!(response.header.flags & 0x8000, 0x8000);
    assert_eq!(response.header.flags & 0x000F, 0);
    assert_eq!(response.questions.len(), 2);
}

#[test]
fn reply_without_answers_contributes_nothing() {
    let packet = query(0x0100, &[&["a"], &["b"]]).serialize_as_be().unwrap();
    let mut fwd = Forwarder::new(DnsMessage::deserialize(&packet).unwrap());
    let first = fwd.next_request().unwrap();
    fwd.accept_reply(&upstream_reply(&first, None));
    let second = fwd.next_request().unwrap();
    fwd.accept_reply(&upstream_reply(&second, Some([9, 9, 9, 9])));
    assert!(fwd.next_request().is_none());
    let response = DnsMessage::deserialize(&fwd.finish().unwrap()).unwrap();
    assert_eq!(response.answers.len(), 1);
    assert_eq!(response.answers[0].name.content, vec!["b"]);
}

#[test]
fn garbage_reply_is_tolerated() {
    let packet = query(0x0100, &[&["a"]]).serialize_as_be().unwrap();
    let mut fwd = Forwarder::new(DnsMessage::deserialize(&packet).unwrap());
    let _ = fwd.next_request().unwrap();
    fwd.accept_reply(&[1, 2, 3]);
    assert!(fwd.next_request().is_none());
    let response = DnsMessage::deserialize(&fwd.finish().unwrap()).unwrap();
    assert_eq!(response.answers.len(), 0);
    assert_eq!(response.header.answer_record_count, 0);
}

#[test]
fn question_without_wire_form_is_passed_over() {
    let mut q = query(0x0100, &[&["a"], &["b"]]);
    q.questions[0].name.content[0] = String::new();
    let mut fwd = Forwarder::new(q);
    let request = fwd.next_request().unwrap();
    let sub = DnsMessage::deserialize(&request).unwrap();
    assert_eq!(sub.questions[0].name.content, vec!["b"]);
}

#[test]
fn other_opcode_gets_not_implemented() {
    let packet = query(0x2100, &[&["a"]]).serialize_as_be().unwrap();
    let mut fwd = Forwarder::new(DnsMessage::deserialize(&packet).unwrap());
    let _ = fwd.next_request().unwrap();
    fwd.upstream_failed();
    let response = DnsMessage::deserialize(&fwd.finish().unwrap()).unwrap();
    assert_eq!(response.header.flags, 0xA104);
}

#[test]
fn local_response_has_one_answer_per_question() {
    for n in 0..5usize {
        let labels: Vec<Vec<String>> = (0..n).map(|i| vec![format!("host{}", i), "test".to_string()]).collect();
        let refs: Vec<Vec<&str>> = labels.iter().map(|l| l.iter().map(|s| s.as_str()).collect()).collect();
        let slices: Vec<&[&str]> = refs.iter().map(|v| v.as_slice()).collect();
        let packet = query(0x0100, &slices).serialize_as_be().unwrap();
        let mut m = DnsMessage::deserialize(&packet).unwrap();
        m.respond_locally();
        let response = DnsMessage::deserialize(&m.serialize_as_be().unwrap()).unwrap();
        assert_eq!(response.answers.len(), n);
        assert_eq!(response.header.answer_record_count as usize, n);
        assert_eq!(response.header.flags, 0x8100);
        for (i, a) in response.answers.iter().enumerate() {
            assert_eq!(a.name.content, labels[i]);
            assert_eq!(a.data, vec![8, 8, 8, 8]);
        }
    }
}

#[test]
fn sub_query_keeps_one_question() {
    let mut q = query(0x0100, &[&["a"], &["b"], &["c"]]);
    q.header.authority_record_count = 5;
    let sub = q.sub_query(1);
    assert_eq!(sub.header.question_count, 1);
    assert_eq!(sub.header.authority_record_count, 0);
    assert_eq!(sub.header.flags, 0x0100);
    assert_eq!(sub.questions.len(), 1);
    assert_eq!(sub.questions[0].name.content, vec!["b"]);
}

#[test]
fn packet_buffer_starts_zeroed() {
    let b = BytePacketBuffer::new();
    assert_eq!(b.position, 0);
    assert!(b.buf.iter().all(|x| *x == 0));
    assert_eq!(b.buf.len(), 512);
}
