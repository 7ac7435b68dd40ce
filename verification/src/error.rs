//! The failures a Telnet session can end in.

use crate::codec::{Item, ItemView};
use std::string::FromUtf8Error;
use vstd::prelude::*;

verus! {

/// `std::io::Error`, carried through without looking inside.
#[verifier::external_type_specification]
#[verifier::external_body]
pub struct ExIoError(std::io::Error);

/// `std::string::FromUtf8Error`, carried through without looking inside.
#[verifier::external_type_specification]
#[verifier::external_body]
pub struct ExFromUtf8Error(FromUtf8Error);

/// The bounded operations of a session, each with a deadline of its own.
#[derive(Debug, Clone, Copy, PartialEq, Eq)]
pub enum Phase {
    Connect,
    Login,
    WriteCommand,
    Read,
}

#[derive(Debug)]
pub enum TelnetError {
    /// A bounded operation exceeded its deadline; holds the name of the phase.
    Timeout(String),
    /// The transport failed.
    IOError(std::io::Error),
    /// A line was text in none of the accepted encodings; holds the UTF-8
    /// failure.
    ParseError(FromUtf8Error),
    /// The byte after the escape byte is no known command; holds that byte.
    UnknownIAC(u8),
    /// The peer asked for the user name again after the password was sent.
    AuthenticationFailed,
    /// The stream ended before the operation was complete.
    NoMoreData,
    /// An item arrived where only a line or a negotiation was valid.
    UnexpectedItem(Item),
}

/// The bytes that a failed conversion to text was given, as
/// `FromUtf8Error::as_bytes` returns them.
pub uninterp spec fn rejected_bytes(e: FromUtf8Error) -> Seq<u8>;

/// A failure as contracts see it: texts and items by their views, a parse
/// failure by the bytes that were no text, and a failure of the transport
/// by its kind alone.
pub enum ErrorView {
    Timeout(Seq<char>),
    IOError,
    ParseError(Seq<u8>),
    UnknownIAC(u8),
    AuthenticationFailed,
    NoMoreData,
    UnexpectedItem(ItemView),
}

impl View for TelnetError {
    type V = ErrorView;

    open spec fn view(&self) -> ErrorView {
        match *self {
            TelnetError::Timeout(name) => ErrorView::Timeout(name@),
            TelnetError::IOError(_) => ErrorView::IOError,
            TelnetError::ParseError(e) => ErrorView::ParseError(rejected_bytes(e)),
            TelnetError::UnknownIAC(cmd) => ErrorView::UnknownIAC(cmd),
            TelnetError::AuthenticationFailed => ErrorView::AuthenticationFailed,
            TelnetError::NoMoreData => ErrorView::NoMoreData,
            TelnetError::UnexpectedItem(item) => ErrorView::UnexpectedItem(item@),
        }
    }
}

/// The name under which a timeout reports its phase.
pub open spec fn phase_name(phase: Phase) -> Seq<char> {
    match phase {
        Phase::Connect => "connect"@,
        Phase::Login => "login"@,
        Phase::WriteCommand => "write"@,
        Phase::Read => "read"@,
    }
}

impl TelnetError {
    /// The timeout failure of `phase`.
    pub fn timeout(phase: Phase) -> (e: TelnetError)
        ensures
            e@ == ErrorView::Timeout(phase_name(phase)),
    {
        let name = match phase {
            Phase::Connect => "connect",
            Phase::Login => "login",
            Phase::WriteCommand => "write",
            Phase::Read => "read",
        };
        TelnetError::Timeout(name.to_owned())
    }
}

} // verus!
