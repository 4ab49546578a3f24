//! The forwarding pipeline: what to do with a query and with its reply.
//!
//! One cycle serves one query. The query is forwarded to the upstream
//! resolver as it came. The reply is read, every address in its answers is
//! looked up in the routing table, and for each target set found one set
//! update is asked for. Then the reply goes back to the client as it came.
//!
//! The sockets belong to the caller. [`step`] decides: it takes the stage
//! that the cycle is in and what has just happened, and says what to do
//! next and which stage follows.

use crate::config::{valid_setnames, Config};
use crate::dns::{parse_answers, parsed_answers, AnswerRecord, AnswerView, RecordData, HFIXEDSZ};
use crate::errors::{new_error, Error, ErrorKind};
use crate::ipset::{valid_setname, IpAddress};
use crate::routing::{
    lemma_matching_names, lemma_overlapping_rules, matching_names, names_of, RuleView,
};
use vstd::prelude::*;
use vstd::string::StringExecFns;

verus! {

/// One set update to ask the kernel for.
#[derive(Clone, Debug, PartialEq, Eq)]
pub struct SetUpdateRequest {
    pub target_set: String,
    pub address: IpAddress,
}

/// [`SetUpdateRequest`] as the contracts see it.
pub struct UpdateView {
    pub target_set: Seq<char>,
    pub address: IpAddress,
}

impl DeepView for SetUpdateRequest {
    type V = UpdateView;

    open spec fn deep_view(&self) -> UpdateView {
        UpdateView { target_set: self.target_set@, address: self.address }
    }
}

/// One update of `address` for each of `names`, in their order.
pub open spec fn updates_to(names: Seq<Seq<char>>, address: IpAddress) -> Seq<UpdateView> {
    Seq::new(names.len(), |i: int| UpdateView { target_set: names[i], address })
}

/// The updates that one answer asks for: an address is looked up under the
/// answer's owner name in the rules of its family; a record without an
/// address asks for nothing.
pub open spec fn updates_of_answer(
    rules_v4: Seq<RuleView>,
    rules_v6: Seq<RuleView>,
    answer: AnswerView,
) -> Seq<UpdateView> {
    match answer.data {
        RecordData::A(octets) => updates_to(
            matching_names(rules_v4, answer.name),
            IpAddress::V4(octets),
        ),
        RecordData::Aaaa(octets) => updates_to(
            matching_names(rules_v6, answer.name),
            IpAddress::V6(octets),
        ),
        RecordData::Other => Seq::empty(),
    }
}

/// The updates that the answers ask for, answer after answer.
pub open spec fn updates_of(
    rules_v4: Seq<RuleView>,
    rules_v6: Seq<RuleView>,
    answers: Seq<AnswerView>,
) -> Seq<UpdateView>
    decreases answers.len(),
{
    if answers.len() == 0 {
        Seq::empty()
    } else {
        updates_of(rules_v4, rules_v6, answers.drop_last()) + updates_of_answer(
            rules_v4,
            rules_v6,
            answers.last(),
        )
    }
}

/// Whether every update names a set whose name the kernel can take.
pub open spec fn valid_targets(updates: Seq<UpdateView>) -> bool {
    forall|i: int| 0 <= i < updates.len() ==> valid_setname(#[trigger] updates[i].target_set)
}

/// An address whose owner name two rules of different sets both match is
/// published to both sets, and to no set twice.
pub proof fn lemma_overlapping_rules_publish(
    rules: Seq<RuleView>,
    i: int,
    j: int,
    name: Seq<char>,
    address: IpAddress,
)
    requires
        0 <= i < rules.len(),
        0 <= j < rules.len(),
        rules[i].setname != rules[j].setname,
        rules[i].pattern.matches(name),
        rules[j].pattern.matches(name),
    ensures
        updates_to(matching_names(rules, name), address).contains(
            UpdateView { target_set: rules[i].setname, address },
        ),
        updates_to(matching_names(rules, name), address).contains(
            UpdateView { target_set: rules[j].setname, address },
        ),
        updates_to(matching_names(rules, name), address).no_duplicates(),
{
    let names = matching_names(rules, name);
    let updates = updates_to(names, address);
    lemma_overlapping_rules(rules, i, j, name);
    let at_i = choose|k: int| 0 <= k < names.len() && names[k] == rules[i].setname;
    let at_j = choose|k: int| 0 <= k < names.len() && names[k] == rules[j].setname;
    assert(updates[at_i] == UpdateView { target_set: rules[i].setname, address });
    assert(updates[at_j] == UpdateView { target_set: rules[j].setname, address });
    assert forall|a: int, b: int| 0 <= a < updates.len() && 0 <= b < updates.len() && a != b
        implies updates[a] != updates[b] by {
        assert(names[a] != names[b]);
    }
}

/// An answer whose owner name no rule of its family matches, and an answer
/// without an address, ask for no update.
pub proof fn lemma_no_match_publishes_nothing(
    rules_v4: Seq<RuleView>,
    rules_v6: Seq<RuleView>,
    answer: AnswerView,
)
    requires
        answer.data is A ==> matching_names(rules_v4, answer.name).len() == 0,
        answer.data is Aaaa ==> matching_names(rules_v6, answer.name).len() == 0,
    ensures
        updates_of_answer(rules_v4, rules_v6, answer) == Seq::<UpdateView>::empty(),
{
}

/// Appends one update of `address` for each of `names`.
fn push_updates(requests: &mut Vec<SetUpdateRequest>, names: &Vec<&str>, address: IpAddress)
    ensures
        final(requests).deep_view() == old(requests).deep_view() + updates_to(
            names_of(names@),
            address,
        ),
{
    let ghost wanted = updates_to(names_of(names@), address);
    let mut i: usize = 0;
    while i < names.len()
        invariant
            i <= names@.len(),
            wanted == updates_to(names_of(names@), address),
            requests.deep_view() == old(requests).deep_view() + wanted.take(i as int),
        decreases names@.len() - i,
    {
        let ghost before = requests.deep_view();
        requests.push(SetUpdateRequest { target_set: String::from_str(names[i]), address });
        assert(requests.deep_view() == before.push(wanted[i as int]));
        i += 1;
    }
}

/// The set updates that the answers of a reply ask for.
///
/// Every address record contributes one request for each target set that
/// its owner name belongs to, and every request names a set that the kernel
/// can take. Records without an address contribute nothing.
pub fn publish_requests(config: &Config, answers: &[AnswerRecord]) -> (requests: Vec<
    SetUpdateRequest,
>)
    ensures
        requests.deep_view() == updates_of(
            config.routes.rules_v4(),
            config.routes.rules_v6(),
            answers.deep_view(),
        ),
        valid_targets(requests.deep_view()),
{
    let ghost v4 = config.routes.rules_v4();
    let ghost v6 = config.routes.rules_v6();
    let ghost all = answers.deep_view();
    proof {
        use_type_invariant(&config.routes);
    }
    let mut requests: Vec<SetUpdateRequest> = Vec::new();
    let mut i: usize = 0;
    while i < answers.len()
        invariant
            i <= answers@.len(),
            v4 == config.routes.rules_v4(),
            v6 == config.routes.rules_v6(),
            all == answers.deep_view(),
            valid_setnames(v4),
            valid_setnames(v6),
            requests.deep_view() == updates_of(v4, v6, all.take(i as int)),
            valid_targets(requests.deep_view()),
        decreases answers@.len() - i,
    {
        let answer = &answers[i];
        let ghost before = requests.deep_view();
        assert(all.take(i + 1).drop_last() == all.take(i as int));
        match answer.data {
            RecordData::A(octets) => {
                let setnames = config.routes.find_setnames_ipv4(answer.name.as_str());
                proof {
                    lemma_matching_names(v4, answer.name@);
                }
                push_updates(&mut requests, &setnames, IpAddress::V4(octets));
            },
            RecordData::Aaaa(octets) => {
                let setnames = config.routes.find_setnames_ipv6(answer.name.as_str());
                proof {
                    lemma_matching_names(v6, answer.name@);
                }
                push_updates(&mut requests, &setnames, IpAddress::V6(octets));
            },
            RecordData::Other => {},
        }
        proof {
            let added = updates_of_answer(v4, v6, answer.deep_view());
            assert forall|k: int| 0 <= k < requests.deep_view().len() implies valid_setname(
                #[trigger] requests.deep_view()[k].target_set,
            ) by {
                if k >= before.len() {
                    let name = added[k - before.len()].target_set;
                    match answer.data {
                        RecordData::A(_) => {
                            let names = matching_names(v4, answer.name@);
                            assert(names.contains(name));
                        },
                        RecordData::Aaaa(_) => {
                            let names = matching_names(v6, answer.name@);
                            assert(names.contains(name));
                        },
                        RecordData::Other => {},
                    }
                }
            }
        }
        i += 1;
    }
    assert(all.take(i as int) == all);
    requests
}

/// Where a cycle stands while the caller waits for something to happen.
#[derive(Debug)]
pub enum State {
    /// Waiting for a query on the listen socket.
    AwaitQuery,
    /// The query went to the upstream resolver; waiting for its reply.
    AwaitUpstreamReply,
    /// The set updates of `reply` are being published; the reply is kept
    /// for the client.
    PublishAddresses { reply: Vec<u8> },
}

/// What has just happened.
#[derive(Debug)]
pub enum Event {
    /// A datagram came in: the query, or the upstream resolver's reply.
    Datagram(Vec<u8>),
    /// The set updates that were asked for have all been handed to the
    /// kernel.
    Published,
    /// What was asked for could not be done.
    Failed(Error),
}

/// What the caller is to do next.
#[derive(Debug)]
pub enum Action {
    /// Send these bytes to the upstream resolver from a fresh socket and
    /// wait for its reply.
    ForwardUpstream(Vec<u8>),
    /// Publish these set updates, in this order.
    PublishAddresses(Vec<SetUpdateRequest>),
    /// Send these bytes to the client that asked; the cycle is over.
    ReplyToClient(Vec<u8>),
    /// Give the cycle up for this reason and wait for the next query.
    Abort(Error),
}

/// The reason for giving up on a query that is shorter than a DNS header.
pub open spec fn short_query_text() -> Seq<char> {
    "Did not receive full DNS header from client."@
}

/// The reason for giving up on a reply that is shorter than a DNS header.
pub open spec fn short_reply_text() -> Seq<char> {
    "Did not receive full DNS header from upstream."@
}

/// The reason for giving up on an event that the stage does not wait for.
pub open spec fn unexpected_event_text() -> Seq<char> {
    "Unexpected event for this stage of the cycle."@
}

/// Whether `action` gives the cycle up with a message of the given text.
pub open spec fn aborts_with(action: Action, text: Seq<char>) -> bool {
    action matches Action::Abort(error) && (error@ matches ErrorKind::Msg(message) && message@
        == text)
}

/// Whether `next` and `action` are what follows from `state` and `event`
/// under the given rules.
///
/// A failure ends the cycle with its error, wherever it happens. A query is
/// forwarded unchanged. A reply is parsed, its set updates are asked for,
/// and it is kept; once they are published it goes to the client unchanged.
/// A query or a reply that is shorter than a DNS header ends the cycle
/// before anything else is done with it, and so does a reply that is no DNS
/// message.
pub open spec fn follows(
    rules_v4: Seq<RuleView>,
    rules_v6: Seq<RuleView>,
    state: State,
    event: Event,
    next: State,
    action: Action,
) -> bool {
    match (state, event) {
        (_, Event::Failed(failure)) => next is AwaitQuery && (action matches Action::Abort(error)
            && error@ == failure@),
        (State::AwaitQuery, Event::Datagram(query)) => if query@.len() < HFIXEDSZ {
            next is AwaitQuery && aborts_with(action, short_query_text())
        } else {
            next is AwaitUpstreamReply && (action matches Action::ForwardUpstream(bytes) && bytes@
                == query@)
        },
        (State::AwaitUpstreamReply, Event::Datagram(reply)) => if reply@.len() < HFIXEDSZ {
            next is AwaitQuery && aborts_with(action, short_reply_text())
        } else {
            match parsed_answers(reply@) {
                None => next is AwaitQuery && (action matches Action::Abort(error)
                    && error@ is DnsPacket),
                Some(answers) => (next matches State::PublishAddresses { reply: kept } && kept@
                    == reply@) && (action matches Action::PublishAddresses(requests)
                    && requests.deep_view() == updates_of(rules_v4, rules_v6, answers)
                    && valid_targets(requests.deep_view())),
            }
        },
        (State::PublishAddresses { reply }, Event::Published) => next is AwaitQuery && (
        action matches Action::ReplyToClient(bytes) && bytes@ == reply@),
        _ => next is AwaitQuery && aborts_with(action, unexpected_event_text()),
    }
}

/// A reply that is shorter than a DNS header ends the cycle, whatever its
/// bytes and whatever the rules: nothing is published and nothing is sent to
/// the client.
pub proof fn lemma_short_reply_publishes_nothing(
    rules_v4: Seq<RuleView>,
    rules_v6: Seq<RuleView>,
    reply: Vec<u8>,
    next: State,
    action: Action,
)
    requires
        reply@.len() < HFIXEDSZ,
        follows(
            rules_v4,
            rules_v6,
            State::AwaitUpstreamReply,
            Event::Datagram(reply),
            next,
            action,
        ),
    ensures
        next is AwaitQuery,
        aborts_with(action, short_reply_text()),
        !(action is PublishAddresses),
        !(action is ReplyToClient),
{
}

/// Once the set updates are published, the reply goes to the client byte
/// for byte as the upstream resolver sent it.
pub proof fn lemma_reply_is_relayed_unchanged(
    rules_v4: Seq<RuleView>,
    rules_v6: Seq<RuleView>,
    reply: Vec<u8>,
    waiting: State,
    asked: Action,
    next: State,
    action: Action,
)
    requires
        follows(
            rules_v4,
            rules_v6,
            State::AwaitUpstreamReply,
            Event::Datagram(reply),
            waiting,
            asked,
        ),
        asked is PublishAddresses,
        follows(rules_v4, rules_v6, waiting, Event::Published, next, action),
    ensures
        next is AwaitQuery,
        action matches Action::ReplyToClient(bytes) && bytes@ == reply@,
{
}

fn abort(text: &str) -> (next: (State, Action))
    ensures
        next.0 is AwaitQuery,
        aborts_with(next.1, text@),
{
    (State::AwaitQuery, Action::Abort(new_error(ErrorKind::Msg(String::from_str(text)))))
}

/// Decides what follows from `state` and `event`.
pub fn step(config: &Config, state: State, event: Event) -> (next: (State, Action))
    ensures
        follows(
            config.routes.rules_v4(),
            config.routes.rules_v6(),
            state,
            event,
            next.0,
            next.1,
        ),
{
    match (state, event) {
        (_, Event::Failed(failure)) => (State::AwaitQuery, Action::Abort(failure)),
        (State::AwaitQuery, Event::Datagram(query)) => {
            if query.len() < HFIXEDSZ {
                abort("Did not receive full DNS header from client.")
            } else {
                (State::AwaitUpstreamReply, Action::ForwardUpstream(query))
            }
        },
        (State::AwaitUpstreamReply, Event::Datagram(reply)) => {
            if reply.len() < HFIXEDSZ {
                abort("Did not receive full DNS header from upstream.")
            } else {
                match parse_answers(reply.as_slice()) {
                    Err(error) => (
                        State::AwaitQuery,
                        Action::Abort(new_error(ErrorKind::DnsPacket(error))),
                    ),
                    Ok(answers) => {
                        let requests = publish_requests(config, answers.as_slice());
                        (State::PublishAddresses { reply }, Action::PublishAddresses(requests))
                    },
                }
            }
        },
        (State::PublishAddresses { reply }, Event::Published) => (
            State::AwaitQuery,
            Action::ReplyToClient(reply),
        ),
        _ => abort("Unexpected event for this stage of the cycle."),
    }
}

} // verus!
