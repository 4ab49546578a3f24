//! The answers of a DNS reply.
//!
//! Reading the wire format is the work of the `dns_parser` crate. This
//! library takes from it, for each record of the answer section, the owner
//! name and, where the record carries an address, the address.

use dns_parser::Error as DnsPacketError;
use vstd::prelude::*;

verus! {

/// Bytes of fixed data at the start of every DNS message.
pub const HFIXEDSZ: usize = 12;

/// What an answer record carries, as far as this library cares.
#[derive(Clone, Copy, Debug, PartialEq, Eq)]
pub enum RecordData {
    /// An IPv4 address, from an "A" record.
    A([u8; 4]),
    /// An IPv6 address, from an "AAAA" record.
    Aaaa([u8; 16]),
    /// Anything else.
    Other,
}

/// One record of the answer section.
#[derive(Clone, Debug, PartialEq, Eq)]
pub struct AnswerRecord {
    /// The owner name in presentation form: labels joined by dots, without
    /// a trailing dot.
    pub name: String,
    pub data: RecordData,
}

/// [`AnswerRecord`] as the contracts see it.
pub struct AnswerView {
    pub name: Seq<char>,
    pub data: RecordData,
}

impl DeepView for AnswerRecord {
    type V = AnswerView;

    open spec fn deep_view(&self) -> AnswerView {
        AnswerView { name: self.name@, data: self.data }
    }
}

/// The answer section that `dns_parser::Packet::parse` reads out of `packet`,
/// or `None` where it refuses the packet.
pub uninterp spec fn parsed_answers(packet: Seq<u8>) -> Option<Seq<AnswerView>>;

/// `dns_parser::Packet::parse`, reduced to the answer section. Whether the
/// packet is accepted, and what its answers are, depends on the bytes alone.
/// Each answer is handed out with its name as `Display` prints it and, for
/// the record types "A" and "AAAA", with the octets of its address.
#[verifier::external_body]
pub(crate) fn parse_answers(packet: &[u8]) -> (parsed: Result<Vec<AnswerRecord>, DnsPacketError>)
    ensures
        match parsed {
            Ok(answers) => parsed_answers(packet@) == Some(answers.deep_view()),
            Err(_) => parsed_answers(packet@) is None,
        },
{
    let packet = dns_parser::Packet::parse(packet)?;
    Ok(packet.answers.iter().map(|answer| AnswerRecord {
        name: answer.name.to_string(),
        data: match answer.data {
            dns_parser::RData::A(record) => RecordData::A(record.0.octets()),
            dns_parser::RData::AAAA(record) => RecordData::Aaaa(record.0.octets()),
            _ => RecordData::Other,
        },
    }).collect())
}

} // verus!
