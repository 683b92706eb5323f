//! Asking a DNS server for the IPv4 addresses of a name: the query message
//! and the A-record addresses of the answer.
use vstd::prelude::*;
use trust_dns_client::op::{Message, MessageType, OpCode, Query};
use trust_dns_client::rr::domain::Name;
use trust_dns_client::rr::record_data::RData;
use trust_dns_client::rr::record_type::RecordType;
use trust_dns_client::serialize::binary::{BinEncodable, BinEncoder};

verus! {

/// The record type number of an A (IPv4 address) record.
pub const RECORD_TYPE_A: u16 = 1;

/// The bytes of a recursive query, with id `id`, for the A records of
/// `name`; `None` where `name` is not a valid domain name or the message
/// cannot be encoded.
pub uninterp spec fn dns_a_query(name: Seq<char>, id: u16) -> Option<Seq<u8>>;

/// The answers of the DNS message in `response`, each as its record type
/// number and, where its data is an A record, the IPv4 address it holds;
/// `None` where `response` is not a DNS message.
pub uninterp spec fn dns_answers(response: Seq<u8>) -> Option<Seq<(u16, Option<[u8; 4]>)>>;

/// Builds with trust-dns a query message (`Name::from_ascii`, then
/// `Message` with id, message type `Query`, one A query, op code `Query`
/// and recursion desired) and encodes it with `BinEncodable::emit`. The
/// contract names the bytes without saying what they are.
#[verifier::external_body]
fn encode_a_query(name: &str, id: u16) -> (r: Option<Vec<u8>>)
    ensures
        match r {
            Some(b) => dns_a_query(name@, id) == Some(b@),
            None => dns_a_query(name@, id) is None,
        },
{
    let domain_name = Name::from_ascii(name).ok()?;
    let mut msg = Message::new();
    msg.set_id(id).set_message_type(MessageType::Query).add_query(
        Query::query(domain_name, RecordType::A),
    ).set_op_code(OpCode::Query).set_recursion_desired(true);
    let mut bytes: Vec<u8> = Vec::with_capacity(512);
    msg.emit(&mut BinEncoder::new(&mut bytes)).ok()?;
    Some(bytes)
}

/// One answer record, as far as this resolver reads it.
#[derive(Debug, Clone, Copy)]
pub struct DnsAnswer {
    pub record_type: u16,
    pub ipv4: Option<[u8; 4]>,
}

/// The view of an answer.
pub open spec fn answer_view(a: DnsAnswer) -> (u16, Option<[u8; 4]>) {
    (a.record_type, a.ipv4)
}

/// `Message::from_vec`, with each record of `Message::answers` read through
/// `Record::record_type` and `Record::data`. The contract names the answers
/// without saying what they are; it fails exactly where the name says
/// `response` is no message.
#[verifier::external_body]
fn decode_answers(response: &[u8]) -> (r: Option<Vec<DnsAnswer>>)
    ensures
        match r {
            Some(v) => dns_answers(response@) == Some(v@.map_values(|a: DnsAnswer| answer_view(a))),
            None => dns_answers(response@) is None,
        },
{
    let message = Message::from_vec(response).ok()?;
    let mut answers = Vec::new();
    for record in message.answers() {
        let ipv4 = match record.data() {
            Some(RData::A(a)) => Some(a.0.octets()),
            _ => None,
        };
        answers.push(DnsAnswer { record_type: u16::from(record.record_type()), ipv4 });
    }
    Some(answers)
}

/// Why a name cannot be resolved.
#[derive(Debug, Clone, Copy, PartialEq, Eq, Structural)]
pub enum DnsError {
    /// The name is not a valid domain name.
    InvalidName,
    /// The response is not a DNS message.
    UnparsableResponse,
    /// An A record holds no IPv4 address.
    InvalidAddress,
}

/// The query message for the A records of `name`, with id `id`.
pub fn a_query(name: &str, id: u16) -> (r: Result<Vec<u8>, DnsError>)
    ensures
        match r {
            Ok(b) => dns_a_query(name@, id) == Some(b@),
            Err(e) => e == DnsError::InvalidName && dns_a_query(name@, id) is None,
        },
{
    match encode_a_query(name, id) {
        Some(b) => Ok(b),
        None => Err(DnsError::InvalidName),
    }
}

/// Every A record among `answers` holds an IPv4 address.
pub open spec fn a_records_hold_addresses(answers: Seq<(u16, Option<[u8; 4]>)>) -> bool {
    forall|i: int|
        0 <= i < answers.len() && #[trigger] answers[i].0 == RECORD_TYPE_A ==> answers[i].1 is Some
}

/// The addresses of the A records among `answers`, in order.
pub open spec fn a_addresses(answers: Seq<(u16, Option<[u8; 4]>)>) -> Seq<[u8; 4]>
    decreases answers.len(),
{
    if answers.len() == 0 {
        seq![]
    } else {
        let prev = a_addresses(answers.drop_last());
        let last = answers.last();
        if last.0 == RECORD_TYPE_A {
            prev.push(last.1.unwrap())
        } else {
            prev
        }
    }
}

/// The answer is an A record.
pub open spec fn is_a_answer(a: (u16, Option<[u8; 4]>)) -> bool {
    a.0 == RECORD_TYPE_A
}

/// The address an answer holds (meaningful for A records with an address).
pub open spec fn answer_address(a: (u16, Option<[u8; 4]>)) -> [u8; 4] {
    a.1.unwrap()
}

/// One more answer adds its address when it is an A record, and nothing
/// otherwise.
pub proof fn lemma_a_addresses_push(s: Seq<(u16, Option<[u8; 4]>)>, a: (u16, Option<[u8; 4]>))
    ensures
        a.0 == RECORD_TYPE_A ==> a_addresses(s.push(a)) == a_addresses(s).push(a.1.unwrap()),
        a.0 != RECORD_TYPE_A ==> a_addresses(s.push(a)) == a_addresses(s),
{
    assert(s.push(a).drop_last() =~= s);
}

/// The addresses are those of the A records, one for each and in their
/// order: the A records kept by a filter, each taken to its address. So
/// there are as many addresses as A records, and the `k`-th address is the
/// data of the `k`-th A record.
pub proof fn lemma_a_addresses_are_filtered(s: Seq<(u16, Option<[u8; 4]>)>)
    ensures
        a_addresses(s) == s.filter(|a: (u16, Option<[u8; 4]>)| is_a_answer(a)).map_values(
            |a: (u16, Option<[u8; 4]>)| answer_address(a),
        ),
        a_addresses(s).len() == s.filter(|a: (u16, Option<[u8; 4]>)| is_a_answer(a)).len(),
    decreases s.len(),
{
    reveal_with_fuel(Seq::filter, 1);
    if s.len() > 0 {
        lemma_a_addresses_are_filtered(s.drop_last());
        let f = s.filter(|a: (u16, Option<[u8; 4]>)| is_a_answer(a));
        let fp = s.drop_last().filter(|a: (u16, Option<[u8; 4]>)| is_a_answer(a));
        if is_a_answer(s.last()) {
            assert(f == fp.push(s.last()));
            assert(f.map_values(|a: (u16, Option<[u8; 4]>)| answer_address(a)) =~= fp.map_values(
                |a: (u16, Option<[u8; 4]>)| answer_address(a),
            ).push(answer_address(s.last())));
        } else {
            assert(f == fp);
        }
    }
}

/// The addresses of the A records among `answers`, in order.
pub fn a_record_addresses(answers: &Vec<DnsAnswer>) -> (r: Vec<[u8; 4]>)
    requires
        a_records_hold_addresses(answers@.map_values(|a: DnsAnswer| answer_view(a))),
    ensures
        r@ == a_addresses(answers@.map_values(|a: DnsAnswer| answer_view(a))),
        r@ == answers@.map_values(|a: DnsAnswer| answer_view(a)).filter(
            |a: (u16, Option<[u8; 4]>)| is_a_answer(a),
        ).map_values(|a: (u16, Option<[u8; 4]>)| answer_address(a)),
{
    let ghost all = answers@.map_values(|a: DnsAnswer| answer_view(a));
    let mut r: Vec<[u8; 4]> = Vec::new();
    for i in 0..answers.len()
        invariant
            all == answers@.map_values(|a: DnsAnswer| answer_view(a)),
            a_records_hold_addresses(all),
            r@ == a_addresses(all.take(i as int)),
    {
        assert(all.take(i + 1).drop_last() =~= all.take(i as int));
        assert(all.take(i + 1).last() == all[i as int]);
        let answer = answers[i];
        if answer.record_type == RECORD_TYPE_A {
            assert(all[i as int].0 == RECORD_TYPE_A);
            match answer.ipv4 {
                Some(ip) => r.push(ip),
                None => {
                    assert(false);
                },
            }
        }
    }
    assert(all.take(answers.len() as int) =~= all);
    proof {
        lemma_a_addresses_are_filtered(all);
    }
    r
}

/// Whether every A record among `answers` holds an IPv4 address.
fn addresses_present(answers: &Vec<DnsAnswer>) -> (b: bool)
    ensures
        b == a_records_hold_addresses(answers@.map_values(|a: DnsAnswer| answer_view(a))),
{
    let ghost all = answers@.map_values(|a: DnsAnswer| answer_view(a));
    for i in 0..answers.len()
        invariant
            all == answers@.map_values(|a: DnsAnswer| answer_view(a)),
            forall|j: int| 0 <= j < i && #[trigger] all[j].0 == RECORD_TYPE_A ==> all[j].1 is Some,
    {
        if answers[i].record_type == RECORD_TYPE_A && answers[i].ipv4.is_none() {
            assert(all[i as int].0 == RECORD_TYPE_A);
            return false;
        }
    }
    true
}

/// The IPv4 addresses that the DNS response `response` gives in its A
/// records, in order: `UnparsableResponse` where it is no DNS message, and
/// `InvalidAddress` where an A record holds no address.
pub fn resolve_response(response: &[u8]) -> (r: Result<Vec<[u8; 4]>, DnsError>)
    ensures
        match dns_answers(response@) {
            None => r == Err::<Vec<[u8; 4]>, DnsError>(DnsError::UnparsableResponse),
            Some(answers) => if a_records_hold_addresses(answers) {
                r matches Ok(v) && v@ == a_addresses(answers) && v@ == answers.filter(
                    |a: (u16, Option<[u8; 4]>)| is_a_answer(a),
                ).map_values(|a: (u16, Option<[u8; 4]>)| answer_address(a))
            } else {
                r == Err::<Vec<[u8; 4]>, DnsError>(DnsError::InvalidAddress)
            },
        },
{
    match decode_answers(response) {
        None => Err(DnsError::UnparsableResponse),
        Some(answers) => {
            if addresses_present(&answers) {
                Ok(a_record_addresses(&answers))
            } else {
                Err(DnsError::InvalidAddress)
            }
        },
    }
}

} // verus!
