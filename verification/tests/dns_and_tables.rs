use std::str::FromStr;
use sysdemo::capitals::Capitals;
use sysdemo::clock::{parse_set_time, OutputStandard, SetTimeError};
use sysdemo::dns::{a_query, resolve_response, DnsError};
use sysdemo::penguins::parse_table;
use trust_dns_client::op::{Message, MessageType};
use trust_dns_client::rr::rdata::{A, CNAME};
use trust_dns_client::rr::{Name, RData, Record};
use trust_dns_client::serialize::binary::{BinEncodable, BinEncoder};

fn encode(msg: &Message) -> Vec<u8> {
    let mut bytes = Vec::new();
    msg.emit(&mut BinEncoder::new(&mut bytes)).unwrap();
    bytes
}

#[test]
fn query_header_and_question() {
    let bytes = a_query("example.com", 0x1234).unwrap();
    assert_eq!(&bytes[0..2], &[0x12, 0x34]);
    assert_eq!(bytes[2] & 0x01, 0x01, "recursion desired");
    assert_eq!(bytes[2] & 0x80, 0, "a query, not a response");
    assert_eq!(&bytes[4..6], &[0, 1], "one question");
    let parsed = Message::from_vec(&bytes).unwrap();
    assert_eq!(parsed.id(), 0x1234);
    assert_eq!(parsed.queries()[0].name().to_ascii(), "example.com.");
    assert_eq!(u16::from(parsed.queries()[0].query_type()), 1);
}

#[test]
fn query_refuses_invalid_name() {
    let long_label = "a".repeat(64);
    assert_eq!(a_query(&long_label, 1).err(), Some(DnsError::InvalidName));
}

#[test]
fn response_gives_a_addresses_in_order() {
    let name = Name::from_str("example.com.").unwrap();
    let mut msg = Message::new();
    msg.set_id(9).set_message_type(MessageType::Response);
    msg.add_answer(Record::from_rdata(
        name.clone(),
        60,
        RData::CNAME(CNAME(Name::from_str("alias.example.com.").unwrap())),
    ));
    msg.add_answer(Record::from_rdata(name.clone(), 60, RData::A(A::new(93, 184, 216, 34))));
    msg.add_answer(Record::from_rdata(name, 60, RData::A(A::new(10, 0, 0, 1))));
    let mut bytes = encode(&msg);
    bytes.resize(512, 0);
    let addresses = resolve_response(&bytes).unwrap();
    assert_eq!(addresses, vec![[93, 184, 216, 34], [10, 0, 0, 1]]);
}

#[test]
fn response_without_answers_gives_no_address() {
    let mut msg = Message::new();
    msg.set_id(3).set_message_type(MessageType::Response);
    assert!(resolve_response(&encode(&msg)).unwrap().is_empty());
}

#[test]
fn garbage_response_is_refused() {
    assert_eq!(resolve_response(&[0xff, 0x01, 0x02]).err(), Some(DnsError::UnparsableResponse));
}

#[test]
fn set_time_reads_rfc2822_for_both_date_formats() {
    let text = "Tue, 1 Jul 2003 10:52:37 +0200";
    assert_eq!(parse_set_time(OutputStandard::Rfc2822, text), Ok((1_057_049_557, 0)));
    assert_eq!(parse_set_time(OutputStandard::Rfc3339, text), Ok((1_057_049_557, 0)));
    assert_eq!(
        parse_set_time(OutputStandard::Rfc3339, "2003-07-01T10:52:37+02:00"),
        Err(SetTimeError::Unparsable)
    );
    assert_eq!(parse_set_time(OutputStandard::Rfc2822, "soon"), Err(SetTimeError::Unparsable));
}

#[test]
fn set_time_refuses_timestamps() {
    assert_eq!(parse_set_time(OutputStandard::Timestamp, "1057049557"), Err(SetTimeError::Unsupported));
    let text = "Tue, 1 Jul 2003 10:52:37 +0200";
    assert_eq!(parse_set_time(OutputStandard::Timestamp, text), Err(SetTimeError::Unsupported));
}

#[test]
fn table_stops_at_first_incomplete_line() {
    let text = "name,length\nA,1\n\nB 2\nC,3\n";
    let (records, incomplete) = parse_table(text);
    assert_eq!(incomplete, Some(3));
    assert_eq!(records.len(), 1);
    assert_eq!(records[0].name, "A");
    let (records, incomplete) = parse_table("name,length\nA,1\nC,x\nD, 4");
    assert_eq!(incomplete, None);
    let got: Vec<(String, u32)> = records.into_iter().map(|r| (r.name, r.length_cm)).collect();
    assert_eq!(got, vec![("A".to_string(), 1), ("D".to_string(), 4)]);
}

#[test]
fn capitals_lookup_and_replace() {
    let mut capitals = Capitals::new();
    assert_eq!(capitals.insert("Cook Island", "Avarua"), None);
    assert_eq!(capitals.insert("Fiji", "Suve"), None);
    assert_eq!(capitals.insert("Tonga", "Nuku'alofa"), None);
    assert_eq!(capitals.get("Tonga").as_deref(), Some("Nuku'alofa"));
    assert_eq!(capitals.get("Niue"), None);
    assert_eq!(capitals.insert("Fiji", "Suva").as_deref(), Some("Suve"));
    assert_eq!(capitals.get("Fiji").as_deref(), Some("Suva"));
    assert_eq!(capitals.get("Cook Island").as_deref(), Some("Avarua"));
}
