use dns_forwarder::{
    Answer, DnsError, DnsHeader, DnsHeaderFlag, DnsMessage, DomainName, OperationCode,
    QueryResponseIndicator, Question, Reserved, ResourceClass, ResourceType, ResponseCode,
};

fn name(labels: &[&str]) -> DomainName {
    DomainName { content: labels.iter().map(|l| l.to_string()).collect() }
}

fn header(flags: u16) -> DnsHeader {
    DnsHeader {
        packet_identifier: 1234,
        flags,
        question_count: 1,
        answer_record_count: 2,
        authority_record_count: 3,
        additional_record_count: 4,
    }
}

#[test]
fn header_serializes_big_endian() {
    let bytes = header(0x8180).serialize();
    assert_eq!(bytes, vec![0x04, 0xD2, 0x81, 0x80, 0, 1, 0, 2, 0, 3, 0, 4]);
}

#[test]
fn header_round_trip() {
    for flags in [0u16, 1, 0x0100, 0x8180, 0x7800, 0xFFFF] {
        let h = header(flags);
        let back = DnsHeader::deserialize(&h.serialize()).unwrap();
        assert_eq!(back, h);
    }
}

#[test]
fn header_of_wrong_length_is_malformed() {
    assert_eq!(DnsHeader::deserialize(&[0u8; 11]), Err(DnsError::MalformedHeader));
    assert_eq!(DnsHeader::deserialize(&[0u8; 13]), Err(DnsError::MalformedHeader));
    assert_eq!(DnsHeader::deserialize(&[]), Err(DnsError::MalformedHeader));
}

#[test]
fn response_bit_is_set_and_cleared_alone() {
    let mut h = header(0x0123);
    h.set_header_flag(DnsHeaderFlag::Qr(QueryResponseIndicator::Response()));
    assert_eq!(h.flags, 0x8123);
    h.set_header_flag(DnsHeaderFlag::Qr(QueryResponseIndicator::Query()));
    assert_eq!(h.flags, 0x0123);
    assert_eq!(h.packet_identifier, 1234);
    assert_eq!(h.question_count, 1);
}

#[test]
fn response_code_replaces_low_bits() {
    let mut h = header(0x812F);
    h.set_header_flag(DnsHeaderFlag::RCode(ResponseCode::NotImp));
    assert_eq!(h.flags, 0x8124);
    h.set_header_flag(DnsHeaderFlag::RCode(ResponseCode::NoError));
    assert_eq!(h.flags, 0x8120);
    // Only the low four bits of a code are kept.
    h.set_header_flag(DnsHeaderFlag::RCode(ResponseCode::BADVERS));
    assert_eq!(h.flags, 0x8120);
    h.set_header_flag(DnsHeaderFlag::RCode(ResponseCode::Reserved));
    assert_eq!(h.flags, 0x812F);
}

#[test]
fn other_flag_fields_are_written() {
    let mut h = header(0);
    h.set_header_flag(DnsHeaderFlag::Aa(true));
    h.set_header_flag(DnsHeaderFlag::Tc(true));
    h.set_header_flag(DnsHeaderFlag::Rd(true));
    h.set_header_flag(DnsHeaderFlag::Ra(true));
    assert_eq!(h.flags, 0x0780);
    h.set_header_flag(DnsHeaderFlag::Tc(false));
    assert_eq!(h.flags, 0x0580);
    let mut z = header(0xFFFF);
    z.set_header_flag(DnsHeaderFlag::Z(Reserved::Unassigned()));
    assert_eq!(z.flags, 0xFF8F);
}

#[test]
fn response_code_and_opcode_do_not_disturb_each_other() {
    for flags in [0u16, 0x7800, 0x0805, 0xFFFF, 0x1234, 0x8000] {
        let mut h = header(flags);
        h.set_header_flag(DnsHeaderFlag::RCode(ResponseCode::Refused));
        assert_eq!(h.flags & 0x7800, flags & 0x7800);
        assert_eq!(h.flags & 0x000F, 5);
        let mut g = header(flags);
        g.set_header_flag(DnsHeaderFlag::OpCode(OperationCode::Update()));
        assert_eq!(g.flags & 0x000F, flags & 0x000F);
        assert_eq!((g.flags & 0x7800) >> 11, 5);
    }
}

#[test]
fn opcode_values_round_trip() {
    let all = [
        OperationCode::Query(),
        OperationCode::IQuery(),
        OperationCode::Status(),
        OperationCode::Unassigned(),
        OperationCode::Notify(),
        OperationCode::Update(),
        OperationCode::DnsStatefulOperations(),
    ];
    for (i, op) in all.iter().enumerate() {
        assert_eq!(op.value() as usize, i);
        assert_eq!(OperationCode::from_value(i as u8), Ok(*op));
    }
    for v in 7u8..=15 {
        assert_eq!(OperationCode::from_value(v), Err(DnsError::MalformedHeader));
    }
}

#[test]
fn opcode_is_read_from_flags() {
    assert_eq!(header(0x0100).get_op_code(), Ok(OperationCode::Query()));
    assert_eq!(header(0x1000).get_op_code(), Ok(OperationCode::Status()));
    assert_eq!(header(0x3000).get_op_code(), Ok(OperationCode::DnsStatefulOperations()));
    assert_eq!(header(0x3800).get_op_code(), Err(DnsError::MalformedHeader));
    assert_eq!(header(0xF8FF).get_op_code(), Err(DnsError::MalformedHeader));
}

#[test]
fn indicator_values() {
    assert_eq!(QueryResponseIndicator::Query().value(), 0);
    assert_eq!(QueryResponseIndicator::Response().value(), 0x8000);
    assert_eq!(ResponseCode::NotImp.value(), 4);
    assert_eq!(ResponseCode::BADCOOKIE.value(), 23);
}

#[test]
fn resource_codes_map_both_ways() {
    assert_eq!(ResourceType::A.value(), 1);
    assert_eq!(ResourceType::TXT.value(), 16);
    assert_eq!(ResourceType::from_value(15), Ok(ResourceType::MX));
    assert_eq!(ResourceType::from_value(0), Err(DnsError::UnknownResourceCode));
    assert_eq!(ResourceType::from_value(17), Err(DnsError::UnknownResourceCode));
    assert_eq!(ResourceClass::QClassAny.value(), 255);
    assert_eq!(ResourceClass::from_value(3), Ok(ResourceClass::CH));
    assert_eq!(ResourceClass::from_value(5), Err(DnsError::UnknownResourceCode));
}

#[test]
fn name_encodes_as_length_prefixed_labels() {
    let bytes = name(&["www", "ab"]).serialize().unwrap();
    assert_eq!(bytes, vec![3, b'w', b'w', b'w', 2, b'a', b'b', 0]);
    assert_eq!(DomainName::new().serialize().unwrap(), vec![0]);
}

#[test]
fn name_round_trip() {
    for labels in [vec![], vec!["a"], vec!["example", "net"], vec!["x", "yy", "zzz", "é"]] {
        let n = name(&labels);
        let bytes = n.serialize().unwrap();
        let (back, end) = DomainName::deserialize(&bytes, 0).unwrap();
        assert_eq!(back.content, n.content);
        assert_eq!(end, bytes.len() - 1);
    }
}

#[test]
fn label_without_wire_form_is_rejected() {
    assert_eq!(name(&["ok", ""]).serialize(), Err(DnsError::InvalidLabel));
    let long = "a".repeat(64);
    assert_eq!(name(&[long.as_str()]).serialize(), Err(DnsError::InvalidLabel));
    let longest = "a".repeat(63);
    assert_eq!(name(&[longest.as_str()]).serialize().unwrap().len(), 65);
}

#[test]
fn invalid_utf8_label_is_decoded_lossily() {
    let (n, end) = DomainName::deserialize(&[2, b'a', 0xFF, 0], 0).unwrap();
    assert_eq!(n.content, vec!["a\u{FFFD}".to_string()]);
    assert_eq!(end, 3);
}

#[test]
fn pointer_to_offset_twelve_resolves() {
    let mut packet = vec![0u8; 12];
    packet.extend_from_slice(&name(&["abc", "subdomain", "com"]).serialize().unwrap());
    let pointer_at = packet.len();
    packet.extend_from_slice(&[0xC0, 12, 0xAA]);
    let (direct, _) = DomainName::deserialize(&packet, 12).unwrap();
    let (via_pointer, end) = DomainName::deserialize(&packet, pointer_at).unwrap();
    assert_eq!(via_pointer.content, direct.content);
    assert_eq!(via_pointer.content, vec!["abc", "subdomain", "com"]);
    assert_eq!(end, pointer_at + 1);
}

#[test]
fn labels_before_a_pointer_are_kept() {
    let mut packet = vec![0u8; 12];
    packet.extend_from_slice(&name(&["example", "com"]).serialize().unwrap());
    let start = packet.len();
    packet.extend_from_slice(&[3, b'w', b'w', b'w', 0xC0, 12]);
    let (n, end) = DomainName::deserialize(&packet, start).unwrap();
    assert_eq!(n.content, vec!["www", "example", "com"]);
    assert_eq!(end, start + 5);
}

#[test]
fn pointer_that_does_not_point_back_is_unresolvable() {
    // To itself.
    assert_eq!(DomainName::deserialize(&[0xC0, 0], 0).unwrap_err(), DnsError::UnresolvableName);
    // Forward.
    assert_eq!(
        DomainName::deserialize(&[0xC0, 2, 0], 0).unwrap_err(),
        DnsError::UnresolvableName
    );
    // Into the name that holds it: a cycle.
    assert_eq!(
        DomainName::deserialize(&[0, 1, b'a', 0xC0, 1], 1).unwrap_err(),
        DnsError::UnresolvableName
    );
    // Past the end.
    assert_eq!(DomainName::deserialize(&[0, 0xC0], 1).unwrap_err(), DnsError::UnresolvableName);
}

#[test]
fn unterminated_name_is_unresolvable() {
    assert_eq!(DomainName::deserialize(&[3, b'a', b'b', b'c'], 0).unwrap_err(), DnsError::UnresolvableName);
    assert_eq!(DomainName::deserialize(&[5, b'a'], 0).unwrap_err(), DnsError::UnresolvableName);
    assert_eq!(DomainName::deserialize(&[], 0).unwrap_err(), DnsError::UnresolvableName);
    assert_eq!(DomainName::deserialize(&[0], 1).unwrap_err(), DnsError::UnresolvableName);
}

#[test]
fn question_round_trip() {
    let q = Question {
        name: name(&["example", "org"]),
        resource_type: ResourceType::MX,
        resource_class: ResourceClass::CH,
    };
    let bytes = q.serialize().unwrap();
    assert_eq!(&bytes[bytes.len() - 4..], &[0, 15, 0, 3]);
    let (back, end) = Question::deserialize(&bytes, 0).unwrap();
    assert_eq!(back.name.content, q.name.content);
    assert_eq!(back.resource_type, ResourceType::MX);
    assert_eq!(back.resource_class, ResourceClass::CH);
    assert_eq!(end, bytes.len() - 1);
}

#[test]
fn question_with_unknown_codes_fails() {
    assert_eq!(Question::deserialize(&[0, 0, 99, 0, 1], 0).unwrap_err(), DnsError::UnknownResourceCode);
    assert_eq!(Question::deserialize(&[0, 0, 1, 0, 9], 0).unwrap_err(), DnsError::UnknownResourceCode);
}

#[test]
fn question_cut_short_is_truncated() {
    assert_eq!(Question::deserialize(&[0, 0, 1, 0], 0).unwrap_err(), DnsError::TruncatedRecord);
}

#[test]
fn answer_round_trip_recomputes_length() {
    let a = Answer {
        name: name(&["a", "b"]),
        resource_type: ResourceType::A,
        resource_class: ResourceClass::IN,
        ttl: 0x01020304,
        length: 99,
        data: vec![127, 0, 0, 1],
    };
    let bytes = a.serialize().unwrap();
    assert_eq!(&bytes[5..], &[0, 1, 0, 1, 1, 2, 3, 4, 0, 4, 127, 0, 0, 1]);
    let (back, end) = Answer::deserialize(&bytes, 0).unwrap();
    assert_eq!(back.name.content, a.name.content);
    assert_eq!(back.ttl, 0x01020304);
    assert_eq!(back.length, 4);
    assert_eq!(back.data, vec![127, 0, 0, 1]);
    assert_eq!(end, bytes.len() - 1);
}

#[test]
fn answer_with_data_past_the_end_is_truncated() {
    // Root name, type A, class IN, ttl 0, declared length 4, two data bytes.
    let bytes = [0, 0, 1, 0, 1, 0, 0, 0, 0, 0, 4, 9, 9];
    assert_eq!(Answer::deserialize(&bytes, 0).unwrap_err(), DnsError::TruncatedRecord);
    // The same record with its four bytes decodes.
    let full = [0, 0, 1, 0, 1, 0, 0, 0, 0, 0, 4, 9, 9, 9, 9];
    assert_eq!(Answer::deserialize(&full, 0).unwrap().1, 14);
    // Fixed fields cut short.
    assert_eq!(Answer::deserialize(&bytes[..8], 0).unwrap_err(), DnsError::TruncatedRecord);
}

#[test]
fn answer_with_empty_data_ends_at_length_field() {
    let bytes = [0, 0, 16, 0, 1, 0, 0, 0, 0, 0, 0];
    let (a, end) = Answer::deserialize(&bytes, 0).unwrap();
    assert_eq!(a.data, Vec::<u8>::new());
    assert_eq!(a.resource_type, ResourceType::TXT);
    assert_eq!(end, 10);
}

fn query_packet(questions: &[&[&str]]) -> Vec<u8> {
    let mut h = header(0x0100);
    h.question_count = questions.len() as u16;
    h.answer_record_count = 0;
    h.authority_record_count = 0;
    h.additional_record_count = 0;
    let mut packet = h.serialize();
    for labels in questions {
        let q = Question {
            name: name(labels),
            resource_type: ResourceType::A,
            resource_class: ResourceClass::IN,
        };
        packet.extend_from_slice(&q.serialize().unwrap());
    }
    packet.resize(512, 0);
    packet
}

#[test]
fn message_decodes_questions_and_answers() {
    let packet = query_packet(&[&["a", "com"], &["b", "org"]]);
    let m = DnsMessage::deserialize(&packet).unwrap();
    assert_eq!(m.header.question_count, 2);
    assert_eq!(m.questions.len(), 2);
    assert_eq!(m.questions[1].name.content, vec!["b", "org"]);
    assert!(m.answers.is_empty());
    assert!(m.authority.is_empty());
    assert!(m.extra.is_empty());
}

#[test]
fn message_with_bad_record_fails_whole() {
    let mut packet = query_packet(&[&["a", "com"]]);
    packet[5] = 2; // a second question that is all zero bytes: type 0
    assert_eq!(DnsMessage::deserialize(&packet).unwrap_err(), DnsError::UnknownResourceCode);
    assert_eq!(DnsMessage::deserialize(&packet[..11]).unwrap_err(), DnsError::MalformedHeader);
}

#[test]
fn message_serializes_into_padded_datagram() {
    let packet = query_packet(&[&["a", "com"], &["b", "org"]]);
    let m = DnsMessage::deserialize(&packet).unwrap();
    let out = m.serialize_as_be().unwrap();
    assert_eq!(out.to_vec(), packet);
}

#[test]
fn message_that_does_not_fit_is_an_error() {
    let mut m = DnsMessage::deserialize(&query_packet(&[&["a"]])).unwrap();
    let long = "a".repeat(60);
    for _ in 0..10 {
        m.questions.push(Question {
            name: name(&[long.as_str()]),
            resource_type: ResourceType::A,
            resource_class: ResourceClass::IN,
        });
    }
    m.header.question_count = 11;
    assert_eq!(m.serialize_as_be().unwrap_err(), DnsError::MessageTooLong);
}

#[test]
fn local_answers_one_per_question() {
    let packet = query_packet(&[&["a", "com"], &["b", "org"], &["c", "net"]]);
    let mut m = DnsMessage::deserialize(&packet).unwrap();
    m.generate_answers();
    assert_eq!(m.answers.len(), 3);
    assert_eq!(m.header.answer_record_count, 3);
    for (q, a) in m.questions.iter().zip(m.answers.iter()) {
        assert_eq!(a.name.content, q.name.content);
        assert_eq!(a.ttl, 60);
        assert_eq!(a.length, 4);
        assert_eq!(a.data, vec![8, 8, 8, 8]);
    }
}

#[test]
fn message_flag_is_written_through() {
    let mut m = DnsMessage::deserialize(&query_packet(&[&["a"]])).unwrap();
    m.set_header_flag(DnsHeaderFlag::Qr(QueryResponseIndicator::Response()));
    assert_eq!(m.header.flags, 0x8100);
}
