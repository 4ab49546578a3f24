use ipset_dns::config::{Arguments, Config, IntoConfig, IpsetConfig, PatternMap};
use ipset_dns::dns::{AnswerRecord, RecordData, HFIXEDSZ};
use ipset_dns::errors::{Error, ErrorKind};
use ipset_dns::ipset::{add_to_ipset, IpAddress};
use ipset_dns::pipeline::{publish_requests, step, Action, Event, SetUpdateRequest, State};

fn set<'a>(name: &'a str, patterns: &[&'a str]) -> (&'a str, Vec<&'a str>) {
    (name, patterns.to_vec())
}

fn map(sets: Vec<(&str, Vec<&str>)>) -> PatternMap {
    let mut map = PatternMap::new();
    for (name, patterns) in sets {
        map.insert(name.to_string(), patterns.iter().map(|pattern| pattern.to_string()).collect());
    }
    map
}

fn config(ipv4: Vec<(&str, Vec<&str>)>, ipv6: Vec<(&str, Vec<&str>)>) -> Config {
    let ipset = IpsetConfig { ipv4: map(ipv4), ipv6: map(ipv6) };
    Arguments { daemon: false, reuse: false, port: None, dns: None, ipset }.into_config().unwrap()
}

fn labels(name: &str) -> Vec<u8> {
    let mut bytes = Vec::new();
    for label in name.split('.') {
        bytes.push(label.len() as u8);
        bytes.extend_from_slice(label.as_bytes());
    }
    bytes.push(0);
    bytes
}

/// A reply to a question for `name` with the given answers, each a record
/// type and its data, all owned by `name`.
fn reply(name: &str, qtype: u16, answers: &[(u16, Vec<u8>)]) -> Vec<u8> {
    let mut bytes = vec![0x12, 0x34, 0x81, 0x80, 0, 1, 0, answers.len() as u8, 0, 0, 0, 0];
    bytes.extend_from_slice(&labels(name));
    bytes.extend_from_slice(&qtype.to_be_bytes());
    bytes.extend_from_slice(&[0, 1]);
    for (kind, data) in answers {
        bytes.extend_from_slice(&[0xc0, 0x0c]);
        bytes.extend_from_slice(&kind.to_be_bytes());
        bytes.extend_from_slice(&[0, 1, 0, 0, 0, 60]);
        bytes.extend_from_slice(&(data.len() as u16).to_be_bytes());
        bytes.extend_from_slice(data);
    }
    bytes
}

fn query(name: &str) -> Vec<u8> {
    let mut bytes = vec![0x12, 0x34, 0x01, 0x00, 0, 1, 0, 0, 0, 0, 0, 0];
    bytes.extend_from_slice(&labels(name));
    bytes.extend_from_slice(&[0, 1, 0, 1]);
    bytes
}

fn update(target_set: &str, address: IpAddress) -> SetUpdateRequest {
    SetUpdateRequest { target_set: target_set.to_string(), address }
}

fn abort_text(action: &Action) -> String {
    match action {
        Action::Abort(error) => match error.kind() {
            ErrorKind::Msg(text) => text.clone(),
            other => panic!("not a message: {:?}", other),
        },
        other => panic!("not an abort: {:?}", other),
    }
}

#[test]
fn one_answer_is_published_once_and_the_reply_is_relayed() {
    let config = config(vec![set("media", &["g:*.example.com"])], vec![]);
    let bytes = reply("cdn.example.com", 1, &[(1, vec![93, 184, 216, 34])]);

    let (state, action) = step(&config, State::AwaitUpstreamReply, Event::Datagram(bytes.clone()));
    match action {
        Action::PublishAddresses(requests) => {
            assert_eq!(requests, vec![update("media", IpAddress::V4([93, 184, 216, 34]))]);
        }
        other => panic!("unexpected action: {:?}", other),
    }
    match &state {
        State::PublishAddresses { reply } => assert_eq!(reply, &bytes),
        other => panic!("unexpected state: {:?}", other),
    }

    let (state, action) = step(&config, state, Event::Published);
    assert!(matches!(state, State::AwaitQuery));
    match action {
        Action::ReplyToClient(relayed) => assert_eq!(relayed, bytes),
        other => panic!("unexpected action: {:?}", other),
    }
}

#[test]
fn query_is_forwarded_unchanged() {
    let config = config(vec![], vec![]);
    let bytes = query("cdn.example.com");
    let (state, action) = step(&config, State::AwaitQuery, Event::Datagram(bytes.clone()));
    assert!(matches!(state, State::AwaitUpstreamReply));
    match action {
        Action::ForwardUpstream(forwarded) => assert_eq!(forwarded, bytes),
        other => panic!("unexpected action: {:?}", other),
    }
}

#[test]
fn query_need_not_be_a_dns_message() {
    let config = config(vec![], vec![]);
    let bytes = vec![0xff; 12];
    let (state, action) = step(&config, State::AwaitQuery, Event::Datagram(bytes.clone()));
    assert!(matches!(state, State::AwaitUpstreamReply));
    assert!(matches!(action, Action::ForwardUpstream(forwarded) if forwarded == bytes));
}

#[test]
fn short_query_ends_the_cycle() {
    let config = config(vec![], vec![]);
    assert_eq!(HFIXEDSZ, 12);
    for len in 0..HFIXEDSZ {
        let (state, action) = step(&config, State::AwaitQuery, Event::Datagram(vec![0; len]));
        assert!(matches!(state, State::AwaitQuery));
        assert_eq!(abort_text(&action), "Did not receive full DNS header from client.");
    }
}

#[test]
fn short_reply_is_never_published() {
    let config = config(vec![set("all", &["r:."])], vec![set("all", &["r:."])]);
    let whole = reply("cdn.example.com", 1, &[(1, vec![93, 184, 216, 34])]);
    for len in 0..HFIXEDSZ {
        let cut = whole[..len].to_vec();
        let (state, action) = step(&config, State::AwaitUpstreamReply, Event::Datagram(cut));
        assert!(matches!(state, State::AwaitQuery));
        assert_eq!(abort_text(&action), "Did not receive full DNS header from upstream.");
    }
}

#[test]
fn reply_that_is_no_dns_message_ends_the_cycle() {
    let config = config(vec![set("all", &["r:."])], vec![]);
    let whole = reply("cdn.example.com", 1, &[(1, vec![93, 184, 216, 34])]);
    let cut = whole[..whole.len() - 2].to_vec();
    let (state, action) = step(&config, State::AwaitUpstreamReply, Event::Datagram(cut));
    assert!(matches!(state, State::AwaitQuery));
    match action {
        Action::Abort(error) => assert!(matches!(error.kind(), ErrorKind::DnsPacket(_))),
        other => panic!("unexpected action: {:?}", other),
    }
}

#[test]
fn failure_ends_the_cycle_with_its_error() {
    let config = config(vec![], vec![]);
    let states = vec![
        State::AwaitQuery,
        State::AwaitUpstreamReply,
        State::PublishAddresses { reply: vec![1, 2, 3] },
    ];
    for state in states {
        let failure = Error::from(std::io::Error::new(std::io::ErrorKind::Other, "no socket"));
        let (state, action) = step(&config, state, Event::Failed(failure));
        assert!(matches!(state, State::AwaitQuery));
        match action {
            Action::Abort(error) => {
                assert!(matches!(error.kind(), ErrorKind::Io(_)));
                assert_eq!(error.message(), "IO error: no socket");
            }
            other => panic!("unexpected action: {:?}", other),
        }
    }
}

#[test]
fn unexpected_event_ends_the_cycle() {
    let config = config(vec![], vec![]);
    let text = "Unexpected event for this stage of the cycle.";
    let (state, action) = step(&config, State::AwaitQuery, Event::Published);
    assert!(matches!(state, State::AwaitQuery));
    assert_eq!(abort_text(&action), text);
    let (state, action) = step(&config, State::AwaitUpstreamReply, Event::Published);
    assert!(matches!(state, State::AwaitQuery));
    assert_eq!(abort_text(&action), text);
    let waiting = State::PublishAddresses { reply: vec![0; 12] };
    let (state, action) = step(&config, waiting, Event::Datagram(vec![0; 12]));
    assert!(matches!(state, State::AwaitQuery));
    assert_eq!(abort_text(&action), text);
}

#[test]
fn overlapping_rules_publish_to_both_sets_once() {
    let config = config(
        vec![
            set("media", &["g:*.example.com", "cdn.example.com"]),
            set("video", &["r:^cdn\\.", "g:cdn.*"]),
        ],
        vec![],
    );
    let bytes = reply("cdn.example.com", 1, &[(1, vec![10, 1, 2, 3])]);
    let (_, action) = step(&config, State::AwaitUpstreamReply, Event::Datagram(bytes));
    match action {
        Action::PublishAddresses(requests) => assert_eq!(
            requests,
            vec![
                update("media", IpAddress::V4([10, 1, 2, 3])),
                update("video", IpAddress::V4([10, 1, 2, 3])),
            ]
        ),
        other => panic!("unexpected action: {:?}", other),
    }
}

#[test]
fn each_family_has_its_own_rules() {
    let config = config(
        vec![set("four", &["g:*.example.com"])],
        vec![set("six", &["g:*.example.com"])],
    );
    let v6 = vec![0x20, 0x01, 0x0d, 0xb8, 0, 0, 0, 0, 0, 0, 0, 0, 0, 0, 0, 0x42];
    let bytes = reply(
        "cdn.example.com",
        255,
        &[(1, vec![10, 0, 0, 1]), (28, v6.clone()), (1, vec![10, 0, 0, 2])],
    );
    let mut octets = [0u8; 16];
    octets.copy_from_slice(&v6);
    let (_, action) = step(&config, State::AwaitUpstreamReply, Event::Datagram(bytes));
    match action {
        Action::PublishAddresses(requests) => assert_eq!(
            requests,
            vec![
                update("four", IpAddress::V4([10, 0, 0, 1])),
                update("six", IpAddress::V6(octets)),
                update("four", IpAddress::V4([10, 0, 0, 2])),
            ]
        ),
        other => panic!("unexpected action: {:?}", other),
    }
}

#[test]
fn records_without_an_address_are_ignored() {
    let config = config(vec![set("all", &["r:."])], vec![set("all", &["r:."])]);
    // a CNAME and a TXT record
    let bytes = reply(
        "www.example.com",
        255,
        &[(5, labels("cdn.example.net")), (16, vec![2, b'h', b'i'])],
    );
    let (state, action) = step(&config, State::AwaitUpstreamReply, Event::Datagram(bytes.clone()));
    assert!(matches!(action, Action::PublishAddresses(requests) if requests.is_empty()));
    let (_, action) = step(&config, state, Event::Published);
    assert!(matches!(action, Action::ReplyToClient(relayed) if relayed == bytes));
}

#[test]
fn unmatched_name_publishes_nothing_and_is_still_relayed() {
    let config = config(vec![set("media", &["g:*.example.com"])], vec![]);
    let bytes = reply("example.org", 1, &[(1, vec![192, 0, 2, 1])]);
    let (state, action) = step(&config, State::AwaitUpstreamReply, Event::Datagram(bytes.clone()));
    assert!(matches!(action, Action::PublishAddresses(requests) if requests.is_empty()));
    let (state, action) = step(&config, state, Event::Published);
    assert!(matches!(state, State::AwaitQuery));
    assert!(matches!(action, Action::ReplyToClient(relayed) if relayed == bytes));
}

#[test]
fn reply_without_answers_publishes_nothing() {
    let config = config(vec![set("all", &["r:."])], vec![]);
    let bytes = reply("example.org", 1, &[]);
    let (_, action) = step(&config, State::AwaitUpstreamReply, Event::Datagram(bytes));
    assert!(matches!(action, Action::PublishAddresses(requests) if requests.is_empty()));
}

#[test]
fn answers_are_taken_as_given() {
    let config = config(
        vec![set("media", &["cdn.example.com"]), set("rest", &["g:*"])],
        vec![set("media", &["cdn.example.com"])],
    );
    let answers = vec![
        AnswerRecord { name: "cdn.example.com".to_string(), data: RecordData::A([1, 1, 1, 1]) },
        AnswerRecord { name: "cdn.example.com".to_string(), data: RecordData::Other },
        AnswerRecord { name: "other.example.com".to_string(), data: RecordData::Aaaa([7; 16]) },
        AnswerRecord { name: "cdn.example.com".to_string(), data: RecordData::Aaaa([9; 16]) },
        AnswerRecord { name: "other.example.com".to_string(), data: RecordData::A([2, 2, 2, 2]) },
    ];
    assert_eq!(
        publish_requests(&config, &answers),
        vec![
            update("media", IpAddress::V4([1, 1, 1, 1])),
            update("rest", IpAddress::V4([1, 1, 1, 1])),
            update("media", IpAddress::V6([9; 16])),
            update("rest", IpAddress::V4([2, 2, 2, 2])),
        ]
    );
    assert!(publish_requests(&config, &[]).is_empty());
}

#[test]
fn every_request_can_be_encoded() {
    let name = "n".repeat(31);
    let config = config(vec![set(&name, &["g:*"]), set("", &["g:*"])], vec![]);
    let bytes = reply("cdn.example.com", 1, &[(1, vec![93, 184, 216, 34])]);
    let (_, action) = step(&config, State::AwaitUpstreamReply, Event::Datagram(bytes));
    match action {
        Action::PublishAddresses(requests) => {
            assert_eq!(requests.len(), 2);
            for request in requests {
                let message = add_to_ipset(request.address, &request.target_set).unwrap();
                assert_eq!(&message[message.len() - 4..], &[93, 184, 216, 34]);
            }
        }
        other => panic!("unexpected action: {:?}", other),
    }
}

#[test]
fn owner_name_is_read_with_its_own_labels() {
    // the answer is owned by another name than the question asks for
    let config = config(vec![set("media", &["cdn.example.net"])], vec![]);
    let mut bytes = vec![0x12, 0x34, 0x81, 0x80, 0, 1, 0, 1, 0, 0, 0, 0];
    bytes.extend_from_slice(&labels("www.example.com"));
    bytes.extend_from_slice(&[0, 1, 0, 1]);
    bytes.extend_from_slice(&labels("cdn.example.net"));
    bytes.extend_from_slice(&[0, 1, 0, 1, 0, 0, 0, 60, 0, 4, 198, 51, 100, 9]);
    let (_, action) = step(&config, State::AwaitUpstreamReply, Event::Datagram(bytes));
    match action {
        Action::PublishAddresses(requests) => {
            assert_eq!(requests, vec![update("media", IpAddress::V4([198, 51, 100, 9]))])
        }
        other => panic!("unexpected action: {:?}", other),
    }
}
