use dnsnet_core::dnsmsg::blocked_reply;
use dnsnet_core::dnsmsg::NEGATIVE_CACHE_TTL_SECONDS;
use dnsnet_core::dnsmsg::dns_query_name;
use simple_dns::rdata::RData;
use simple_dns::Name;
use simple_dns::Packet;
use simple_dns::PacketFlag;
use simple_dns::Question;
use simple_dns::CLASS;
use simple_dns::QCLASS;
use simple_dns::QTYPE;
use simple_dns::RCODE;
use simple_dns::TYPE;

fn query_bytes(name: &str, id: u16) -> Vec<u8> {
    let mut packet = Packet::new_query(id);
    packet.questions.push(Question::new(
        Name::new_unchecked(name),
        QTYPE::TYPE(TYPE::A),
        QCLASS::CLASS(CLASS::IN),
        false,
    ));
    packet.build_bytes_vec().expect("query encodes")
}

#[test]
fn extracts_first_question_name() {
    let wire = query_bytes("ads.example.com", 1);
    assert_eq!(dns_query_name(&wire), Some(String::from("ads.example.com")));
}

#[test]
fn lowercases_question_name() {
    let wire = query_bytes("ADS.Example.COM", 2);
    assert_eq!(dns_query_name(&wire), Some(String::from("ads.example.com")));
}

#[test]
fn rejects_zero_questions() {
    let packet = Packet::new_query(3);
    let wire = packet.build_bytes_vec().expect("encodes");
    assert_eq!(dns_query_name(&wire), None);
}

#[test]
fn rejects_garbage() {
    assert_eq!(dns_query_name(&vec![]), None);
    assert_eq!(dns_query_name(&vec![0u8; 11]), None);
    assert_eq!(dns_query_name(&vec![0xFFu8; 64]), None);
}

#[test]
fn blocked_reply_is_a_negative_response() {
    let wire = query_bytes("ads.example.com", 0x4242);
    let reply = blocked_reply(&wire).expect("reply built");
    let parsed = Packet::parse(&reply).expect("reference decoder accepts the reply");
    assert_eq!(parsed.id(), 0x4242);
    assert!(parsed.has_flags(PacketFlag::RESPONSE));
    assert_eq!(parsed.rcode(), RCODE::NoError);
    assert_eq!(parsed.questions.len(), 1);
    assert_eq!(
        parsed.questions[0].qname.to_string().to_lowercase(),
        "ads.example.com"
    );
    assert_eq!(parsed.additional_records.len(), 1);
    let record = &parsed.additional_records[0];
    assert_eq!(record.ttl, NEGATIVE_CACHE_TTL_SECONDS);
    assert!(record.name.to_string().contains("dnsnet.dnsnet.invalid"));
    match &record.rdata {
        RData::SOA(soa) => {
            assert_eq!(soa.minimum, 5);
            assert_eq!(soa.serial, 0);
        }
        _ => panic!("expected a SOA record"),
    }
}

#[test]
fn blocked_reply_rejects_garbage() {
    assert!(blocked_reply(&vec![]).is_none());
    assert!(blocked_reply(&vec![0u8; 12]).is_none());
}
