//! From the bytes of a line to text: UTF-8 first, then the two legacy
//! encodings of simplified Chinese.

use crate::error::{rejected_bytes, ErrorView, TelnetError};
use encoding::all::{GB18030, GBK};
use encoding::{DecoderTrap, Encoding};
use std::string::FromUtf8Error;
use vstd::prelude::*;
use vstd::slice::slice_to_vec;
use vstd::utf8::{decode_utf8, valid_utf8};

verus! {

/// The text that the GBK decoder of the `encoding` crate reads in `bytes`
/// when it stops at the first fault; `None` where it finds one.
pub uninterp spec fn gbk_text(bytes: Seq<u8>) -> Option<Seq<char>>;

/// The text that the GB18030 decoder of the `encoding` crate reads in
/// `bytes` when it stops at the first fault; `None` where it finds one.
pub uninterp spec fn gb18030_text(bytes: Seq<u8>) -> Option<Seq<char>>;

/// A text that may be missing, by its view.
pub open spec fn text_view(text: Option<String>) -> Option<Seq<char>> {
    match text {
        Some(t) => Some(t@),
        None => None,
    }
}

/// `String::from_utf8`: the bytes as text where they are valid UTF-8, and
/// a failure that holds the bytes where they are not.
#[verifier::external_body]
fn string_from_utf8(bytes: Vec<u8>) -> (r: Result<String, FromUtf8Error>)
    ensures
        r is Ok <==> valid_utf8(bytes@),
        r matches Ok(text) ==> text@ == decode_utf8(bytes@),
        r matches Err(e) ==> rejected_bytes(e) == bytes@,
{
    String::from_utf8(bytes)
}

/// `Encoding::decode` of `encoding::all::GBK` with `DecoderTrap::Strict`.
/// Claimed of it: what it returns depends on the bytes alone.
#[verifier::external_body]
fn gbk_decode(line: &[u8]) -> (text: Option<String>)
    ensures
        text_view(text) == gbk_text(line@),
{
    GBK.decode(line, DecoderTrap::Strict).ok()
}

/// `Encoding::decode` of `encoding::all::GB18030` with
/// `DecoderTrap::Strict`. Claimed of it: what it returns depends on the
/// bytes alone.
#[verifier::external_body]
fn gb18030_decode(line: &[u8]) -> (text: Option<String>)
    ensures
        text_view(text) == gb18030_text(line@),
{
    GB18030.decode(line, DecoderTrap::Strict).ok()
}

/// The text of a line: read as UTF-8 where the bytes are valid UTF-8, else
/// as GBK, else as GB18030; `None` where all three reject the bytes.
pub open spec fn decoded_text(bytes: Seq<u8>) -> Option<Seq<char>> {
    if valid_utf8(bytes) {
        Some(decode_utf8(bytes))
    } else if gbk_text(bytes) is Some {
        gbk_text(bytes)
    } else {
        gb18030_text(bytes)
    }
}

/// What is made of the two legacy readings of a line that is no UTF-8: the
/// GBK text where there is one, else the GB18030 text, else the parse
/// failure that holds `err`.
pub fn fallback_text(gbk: Option<String>, gb18030: Option<String>, err: FromUtf8Error) -> (r:
    Result<String, TelnetError>)
    ensures
        gbk is Some ==> r == Ok::<String, TelnetError>(gbk->0),
        gbk is None && gb18030 is Some ==> r == Ok::<String, TelnetError>(gb18030->0),
        gbk is None && gb18030 is None ==> r == Err::<String, TelnetError>(
            TelnetError::ParseError(err),
        ),
{
    match gbk {
        Some(text) => Ok(text),
        None => match gb18030 {
            Some(text) => Ok(text),
            None => Err(TelnetError::ParseError(err)),
        },
    }
}

/// Reads a line as text. Where no encoding fits, the failure is that of
/// the UTF-8 reading and holds the bytes of the line.
pub fn decode(line: &[u8]) -> (r: Result<String, TelnetError>)
    ensures
        match r {
            Ok(text) => decoded_text(line@) == Some(text@),
            Err(e) => decoded_text(line@) is None && e@ == ErrorView::ParseError(line@),
        },
{
    match string_from_utf8(slice_to_vec(line)) {
        Ok(text) => Ok(text),
        Err(err) => fallback_text(gbk_decode(line), gb18030_decode(line), err),
    }
}

} // verus!
