//! The error type shared by configuration, reply handling and set updates.

use dns_parser::Error as DnsPacketError;
use glob::PatternError as GlobPatternError;
use regex::Error as RegexError;
use std::io::Error as IoError;
use toml::de::Error as TomlError;
use vstd::prelude::*;
use vstd::string::StringExecFns;

verus! {

/// `std::io::Error`, carried through as an opaque value.
#[verifier::external_type_specification]
#[verifier::external_body]
pub struct ExIoError(IoError);

/// `dns_parser::Error`, carried through as an opaque value.
#[verifier::external_type_specification]
#[verifier::external_body]
pub struct ExDnsPacketError(DnsPacketError);

/// `toml::de::Error`, carried through as an opaque value.
#[verifier::external_type_specification]
#[verifier::external_body]
pub struct ExTomlError(TomlError);

/// `glob::PatternError`, carried through as an opaque value.
#[verifier::external_type_specification]
#[verifier::external_body]
pub struct ExGlobPatternError(GlobPatternError);

/// `regex::Error`, carried through as an opaque value.
#[verifier::external_type_specification]
#[verifier::external_body]
pub struct ExRegexError(RegexError);

/// What went wrong.
#[derive(Debug)]
pub enum ErrorKind {
    /// A socket or file operation failed.
    Io(IoError),
    /// A reply could not be read as a DNS message.
    DnsPacket(DnsPacketError),
    /// The configuration file is not valid TOML of the expected shape.
    Toml(TomlError),
    /// A `g:` pattern is not a valid glob.
    GlobPattern(GlobPatternError),
    /// An `r:` pattern is not a valid regular expression.
    Regex(RegexError),
    /// Any other failure, described in words.
    Msg(String),
}

/// An error of this library: a boxed [`ErrorKind`].
#[derive(Debug)]
pub struct Error(Box<ErrorKind>);

impl View for Error {
    type V = ErrorKind;

    closed spec fn view(&self) -> ErrorKind {
        *self.0
    }
}

impl Error {
    /// An error of the given kind.
    pub fn new(kind: ErrorKind) -> (error: Self)
        ensures
            error@ == kind,
    {
        Error(Box::new(kind))
    }

    /// The kind of the error.
    pub fn kind(&self) -> (kind: &ErrorKind)
        ensures
            *kind == self@,
    {
        &self.0
    }
}

/// What the text of an error of this kind begins with; the error's own
/// words follow.
pub open spec fn message_prefix(kind: ErrorKind) -> Seq<char> {
    match kind {
        ErrorKind::Io(_) => "IO error: "@,
        ErrorKind::DnsPacket(_) => "DNS-Paket error: "@,
        ErrorKind::Toml(_) => "TOML error: "@,
        ErrorKind::GlobPattern(_) => "Glob-Pattern error: "@,
        ErrorKind::Regex(_) => "Regex error: "@,
        ErrorKind::Msg(_) => Seq::empty(),
    }
}

/// Whether `words` is what the `Display` of `err` prints.
pub open spec fn says<T: core::fmt::Display>(err: T, words: Seq<char>) -> bool {
    exists|printed: String|
        #[trigger] vstd::string::to_string_from_display_ensures::<T>(&err, printed) && printed@
            == words
}

/// Whether `text` is the error of this kind in words: the prefix of the
/// kind, then what the error itself prints. A message stands for itself.
pub open spec fn is_message_of(kind: ErrorKind, text: Seq<char>) -> bool {
    &&& message_prefix(kind).is_prefix_of(text)
    &&& match kind {
        ErrorKind::Io(err) => says(err, text.skip(message_prefix(kind).len() as int)),
        ErrorKind::DnsPacket(err) => says(err, text.skip(message_prefix(kind).len() as int)),
        ErrorKind::Toml(err) => says(err, text.skip(message_prefix(kind).len() as int)),
        ErrorKind::GlobPattern(err) => says(err, text.skip(message_prefix(kind).len() as int)),
        ErrorKind::Regex(err) => says(err, text.skip(message_prefix(kind).len() as int)),
        ErrorKind::Msg(msg) => text == msg@,
    }
}

fn prefixed<T: core::fmt::Display>(prefix: &str, err: &T) -> (text: String)
    ensures
        prefix@.is_prefix_of(text@),
        says(*err, text@.skip(prefix@.len() as int)),
{
    let words = err.to_string();
    let text = String::from_str(prefix).concat(words.as_str());
    assert(text@.skip(prefix@.len() as int) == words@);
    text
}

impl Error {
    /// The error in words.
    pub fn message(&self) -> (text: String)
        ensures
            is_message_of(self@, text@),
    {
        match &*self.0 {
            ErrorKind::Io(err) => prefixed("IO error: ", err),
            ErrorKind::DnsPacket(err) => prefixed("DNS-Paket error: ", err),
            ErrorKind::Toml(err) => prefixed("TOML error: ", err),
            ErrorKind::GlobPattern(err) => prefixed("Glob-Pattern error: ", err),
            ErrorKind::Regex(err) => prefixed("Regex error: ", err),
            ErrorKind::Msg(msg) => msg.clone(),
        }
    }
}

pub(crate) fn new_error(kind: ErrorKind) -> (error: Error)
    ensures
        error@ == kind,
{
    Error::new(kind)
}

impl From<ErrorKind> for Error {
    fn from(kind: ErrorKind) -> (error: Self)
        ensures
            error@ == kind,
    {
        Error::new(kind)
    }
}

impl vstd::std_specs::convert::FromSpecImpl<ErrorKind> for Error {
    open spec fn obeys_from_spec() -> bool {
        true
    }

    closed spec fn from_spec(kind: ErrorKind) -> Self {
        Error(Box::new(kind))
    }
}

impl From<IoError> for Error {
    fn from(value: IoError) -> (error: Self)
        ensures
            error@ == ErrorKind::Io(value),
    {
        Error::new(ErrorKind::Io(value))
    }
}

impl vstd::std_specs::convert::FromSpecImpl<IoError> for Error {
    open spec fn obeys_from_spec() -> bool {
        true
    }

    closed spec fn from_spec(value: IoError) -> Self {
        Error(Box::new(ErrorKind::Io(value)))
    }
}

impl From<String> for Error {
    fn from(value: String) -> (error: Self)
        ensures
            error@ == ErrorKind::Msg(value),
    {
        Error::new(ErrorKind::Msg(value))
    }
}

impl vstd::std_specs::convert::FromSpecImpl<String> for Error {
    open spec fn obeys_from_spec() -> bool {
        true
    }

    closed spec fn from_spec(value: String) -> Self {
        Error(Box::new(ErrorKind::Msg(value)))
    }
}

impl From<DnsPacketError> for Error {
    fn from(value: DnsPacketError) -> (error: Self)
        ensures
            error@ == ErrorKind::DnsPacket(value),
    {
        Error::new(ErrorKind::DnsPacket(value))
    }
}

impl vstd::std_specs::convert::FromSpecImpl<DnsPacketError> for Error {
    open spec fn obeys_from_spec() -> bool {
        true
    }

    closed spec fn from_spec(value: DnsPacketError) -> Self {
        Error(Box::new(ErrorKind::DnsPacket(value)))
    }
}

impl From<TomlError> for Error {
    fn from(value: TomlError) -> (error: Self)
        ensures
            error@ == ErrorKind::Toml(value),
    {
        Error::new(ErrorKind::Toml(value))
    }
}

impl vstd::std_specs::convert::FromSpecImpl<TomlError> for Error {
    open spec fn obeys_from_spec() -> bool {
        true
    }

    closed spec fn from_spec(value: TomlError) -> Self {
        Error(Box::new(ErrorKind::Toml(value)))
    }
}

impl From<GlobPatternError> for Error {
    fn from(value: GlobPatternError) -> (error: Self)
        ensures
            error@ == ErrorKind::GlobPattern(value),
    {
        Error::new(ErrorKind::GlobPattern(value))
    }
}

impl vstd::std_specs::convert::FromSpecImpl<GlobPatternError> for Error {
    open spec fn obeys_from_spec() -> bool {
        true
    }

    closed spec fn from_spec(value: GlobPatternError) -> Self {
        Error(Box::new(ErrorKind::GlobPattern(value)))
    }
}

impl From<RegexError> for Error {
    fn from(value: RegexError) -> (error: Self)
        ensures
            error@ == ErrorKind::Regex(value),
    {
        Error::new(ErrorKind::Regex(value))
    }
}

impl vstd::std_specs::convert::FromSpecImpl<RegexError> for Error {
    open spec fn obeys_from_spec() -> bool {
        true
    }

    closed spec fn from_spec(value: RegexError) -> Self {
        Error(Box::new(ErrorKind::Regex(value)))
    }
}

impl<'a> From<&'a str> for Error {
    fn from(msg: &'a str) -> (error: Self)
        ensures
            error@ matches ErrorKind::Msg(text) && text@ == msg@,
    {
        Error::new(ErrorKind::Msg(msg.to_owned()))
    }
}

/// A specification cannot build the `String` that the message is kept in, so
/// what `from` returns for a string slice is stated on `from` itself.
impl<'a> vstd::std_specs::convert::FromSpecImpl<&'a str> for Error {
    open spec fn obeys_from_spec() -> bool {
        false
    }

    closed spec fn from_spec(msg: &'a str) -> Self {
        arbitrary()
    }
}

impl Into<ErrorKind> for Error {
    fn into(self) -> ErrorKind {
        *self.0
    }
}

impl vstd::std_specs::convert::IntoSpecImpl<ErrorKind> for Error {
    open spec fn obeys_into_spec() -> bool {
        true
    }

    open spec fn into_spec(self) -> ErrorKind {
        self@
    }
}

} // verus!
