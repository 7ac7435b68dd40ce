//! The bytes a session puts on the wire, and the byte tests it makes on
//! what comes back.

use crate::codec::{Item, ItemView, DONT, IAC, LF, SB, SE, WILL, WONT};
use vstd::prelude::*;
use vstd::slice::slice_to_vec;
use vstd::string::StringSliceAdditionalSpecFns;

verus! {

/// Negotiate About Window Size: the one option the session accepts.
pub const NAWS: u8 = 31;

/// The width of the window the session announces, in columns.
pub const WINDOW_COLUMNS: u16 = 252;

/// The height of the window the session announces, in rows.
pub const WINDOW_ROWS: u16 = 27;

/// A 16-bit number as two bytes, the high one first.
pub open spec fn be16(v: u16) -> Seq<u8> {
    seq![(v / 256) as u8, (v % 256) as u8]
}

/// The answer to a request for the window size: the session will send it,
/// and a subnegotiation block with the width and the height.
pub open spec fn window_size_reply() -> Seq<u8> {
    seq![IAC, WILL, NAWS, IAC, SB, NAWS] + be16(WINDOW_COLUMNS) + be16(WINDOW_ROWS) + seq![
        IAC,
        SE,
    ]
}

/// The answer the session owes to an item: to DO and DONT the window size
/// where that is the option and a refusal (WONT) of any other; to WILL and
/// WONT a DONT. Other items are owed none.
pub open spec fn negotiation_reply(item: ItemView) -> Option<Seq<u8>> {
    match item {
        ItemView::Do(opt) | ItemView::Dont(opt) => Some(
            if opt == NAWS {
                window_size_reply()
            } else {
                seq![IAC, WONT, opt]
            },
        ),
        ItemView::Will(opt) | ItemView::Wont(opt) => Some(seq![IAC, DONT, opt]),
        _ => None,
    }
}

/// A reply that may be missing, by its view.
pub open spec fn reply_view(reply: Option<Vec<u8>>) -> Option<Seq<u8>> {
    match reply {
        Some(bytes) => Some(bytes@),
        None => None,
    }
}

/// The answer the session owes to `item`.
pub fn reply_to(item: &Item) -> (reply: Option<Vec<u8>>)
    ensures
        reply_view(reply) == negotiation_reply(item@),
{
    match item {
        Item::Do(opt) | Item::Dont(opt) => {
            if *opt == NAWS {
                let reply = vec![0xff, 0xfb, 0x1f, 0xff, 0xfa, 0x1f, 0x00, 0xfc, 0x00, 0x1b, 0xff, 0xf0];
                assert(reply@ =~= window_size_reply());
                Some(reply)
            } else {
                let reply = vec![0xff, 0xfc, *opt];
                assert(reply@ =~= seq![IAC, WONT, *opt]);
                Some(reply)
            }
        },
        Item::Will(opt) | Item::Wont(opt) => {
            let reply = vec![0xff, 0xfe, *opt];
            assert(reply@ =~= seq![IAC, DONT, *opt]);
            Some(reply)
        },
        _ => None,
    }
}

/// Whether the last bytes of `line` are the bytes of `suffix`.
pub fn ends_with(line: &[u8], suffix: &[u8]) -> (r: bool)
    ensures
        r == suffix@.is_suffix_of(line@),
{
    if suffix.len() > line.len() {
        return false;
    }
    let start = line.len() - suffix.len();
    let ghost tail = line@.subrange(start as int, line@.len() as int);
    let mut i: usize = 0;
    while i < suffix.len()
        invariant
            start + suffix.len() == line.len(),
            tail == line@.subrange(start as int, line@.len() as int),
            0 <= i <= suffix.len(),
            forall|k: int| 0 <= k < i ==> suffix@[k] == tail[k],
        decreases suffix.len() - i,
    {
        if line[start + i] != suffix[i] {
            assert(tail[i as int] != suffix@[i as int]);
            return false;
        }
        i += 1;
    }
    assert(suffix@ =~= tail);
    true
}

/// Whether `line` ends with a line feed.
pub open spec fn ends_with_lf(line: Seq<u8>) -> bool {
    line.len() > 0 && line.last() == LF
}

/// `bytes` with a line feed behind them, where they do not end with one.
pub open spec fn with_newline(bytes: Seq<u8>) -> Seq<u8> {
    if ends_with_lf(bytes) {
        bytes
    } else {
        bytes.push(LF)
    }
}

/// Whether `line` ends with a line feed.
pub fn ends_with_newline(line: &[u8]) -> (r: bool)
    ensures
        r == ends_with_lf(line@),
{
    line.len() > 0 && line[line.len() - 1] == LF
}

/// The bytes of `s` as they are sent: with a line feed at the end, added
/// where `s` has none.
pub fn format_enter_str(s: &str) -> (bytes: Vec<u8>)
    ensures
        bytes@ == with_newline(s.spec_bytes()),
{
    let mut bytes = slice_to_vec(s.as_bytes());
    if !ends_with_newline(bytes.as_slice()) {
        bytes.push(LF);
    }
    bytes
}

/// How many line feeds `bytes` holds.
pub open spec fn line_feeds(bytes: Seq<u8>) -> nat
    decreases bytes.len(),
{
    if bytes.len() == 0 {
        0
    } else {
        line_feeds(bytes.drop_last()) + if bytes.last() == LF {
            1nat
        } else {
            0nat
        }
    }
}

/// How many lines `bytes` span: one for each line feed, and one more for
/// what stands behind the last of them.
pub open spec fn line_count(bytes: Seq<u8>) -> nat {
    line_feeds(bytes) + if bytes.len() > 0 && bytes.last() != LF {
        1nat
    } else {
        0nat
    }
}

/// The number of lines that `bytes` span.
pub fn count_lines(bytes: &[u8]) -> (n: usize)
    ensures
        n == line_count(bytes@),
{
    let mut n: usize = 0;
    let mut i: usize = 0;
    while i < bytes.len()
        invariant
            0 <= i <= bytes.len(),
            n == line_feeds(bytes@.take(i as int)),
            n <= i,
            i > 0 && bytes@[i - 1] != LF ==> n < i,
        decreases bytes.len() - i,
    {
        assert(bytes@.take(i + 1).drop_last() =~= bytes@.take(i as int));
        if bytes[i] == LF {
            n += 1;
        }
        i += 1;
    }
    assert(bytes@.take(i as int) =~= bytes@);
    if bytes.len() > 0 && bytes[bytes.len() - 1] != LF {
        n += 1;
    }
    n
}

/// What is sent always ends with a line feed, and so spans at least one
/// line: as many as it holds line feeds.
pub proof fn lemma_sent_lines(bytes: Seq<u8>)
    ensures
        ends_with_lf(with_newline(bytes)),
        line_count(with_newline(bytes)) == line_feeds(with_newline(bytes)),
        line_count(with_newline(bytes)) >= 1,
{
    let sent = with_newline(bytes);
    assert(sent.len() > 0 && sent.last() == LF);
}

} // verus!
