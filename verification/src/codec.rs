//! The incremental decoder: from the bytes a Telnet peer sends to lines of
//! text and negotiation commands.

use crate::buffer::{advance, chunk, contents, get_u8, is_empty};
use crate::error::{ErrorView, TelnetError};
use crate::framing::lemma_lines_are_well_formed;
use bytes::BytesMut;
use vstd::prelude::*;
use vstd::slice::slice_to_vec;

verus! {

/// Interpret As Command: the byte that starts every command sequence.
pub const IAC: u8 = 255;

/// The command that ends a subnegotiation block.
pub const SE: u8 = 240;

/// The command that starts a subnegotiation block.
pub const SB: u8 = 250;

pub const WILL: u8 = 251;

pub const WONT: u8 = 252;

pub const DO: u8 = 253;

pub const DONT: u8 = 254;

/// The line feed, which ends a line.
pub const LF: u8 = 10;

/// What the decoder hands out.
#[derive(Debug, PartialEq, Eq)]
pub enum Item {
    /// Text up to and including a line feed, or up to the end of the bytes
    /// at hand.
    Line(Vec<u8>),
    /// End of a subnegotiation block, with the byte that follows the command.
    SE(u8),
    /// Start of a subnegotiation block, with the option it is about.
    SB(u8),
    Will(u8),
    Wont(u8),
    Do(u8),
    Dont(u8),
    /// A command sequence has begun and its last bytes are not here yet.
    NeedMore,
}

/// An item as contracts see it.
pub enum ItemView {
    Line(Seq<u8>),
    SE(u8),
    SB(u8),
    Will(u8),
    Wont(u8),
    Do(u8),
    Dont(u8),
    NeedMore,
}

impl View for Item {
    type V = ItemView;

    open spec fn view(&self) -> ItemView {
        match *self {
            Item::Line(bytes) => ItemView::Line(bytes@),
            Item::SE(opt) => ItemView::SE(opt),
            Item::SB(opt) => ItemView::SB(opt),
            Item::Will(opt) => ItemView::Will(opt),
            Item::Wont(opt) => ItemView::Wont(opt),
            Item::Do(opt) => ItemView::Do(opt),
            Item::Dont(opt) => ItemView::Dont(opt),
            Item::NeedMore => ItemView::NeedMore,
        }
    }
}

/// Whether `byte` is a command that is consumed together with its option:
/// WILL, WONT, DO or DONT.
pub open spec fn three_byte_command(byte: u8) -> bool {
    WILL <= byte <= DONT
}

/// Whether `byte` starts or ends a subnegotiation block.
pub open spec fn sub_command(byte: u8) -> bool {
    byte == SE || byte == SB
}

pub fn is_three_byte_iac(byte: u8) -> (r: bool)
    ensures
        r == three_byte_command(byte),
{
    251 <= byte && byte <= 254
}

pub fn is_sub(byte: u8) -> (r: bool)
    ensures
        r == sub_command(byte),
{
    byte == 240 || byte == 250
}

/// The result of reading one command sequence.
#[derive(Debug)]
pub enum ParseIacResult {
    /// The command byte is none that the decoder knows.
    Invalid(u8),
    NeedMore,
    Item(Item),
}

/// The result of reading one command sequence, as contracts see it.
pub enum IacView {
    Invalid(u8),
    NeedMore,
    Item(ItemView),
}

impl View for ParseIacResult {
    type V = IacView;

    open spec fn view(&self) -> IacView {
        match *self {
            ParseIacResult::Invalid(cmd) => IacView::Invalid(cmd),
            ParseIacResult::NeedMore => IacView::NeedMore,
            ParseIacResult::Item(item) => IacView::Item(item@),
        }
    }
}

/// The item that command `cmd` with the byte `opt` behind it stands for.
pub open spec fn command_item(cmd: u8, opt: u8) -> ItemView
    recommends
        three_byte_command(cmd) || sub_command(cmd),
{
    if cmd == SE {
        ItemView::SE(opt)
    } else if cmd == SB {
        ItemView::SB(opt)
    } else if cmd == WILL {
        ItemView::Will(opt)
    } else if cmd == WONT {
        ItemView::Wont(opt)
    } else if cmd == DO {
        ItemView::Do(opt)
    } else {
        ItemView::Dont(opt)
    }
}

/// How many bytes a command takes from the stream: the block marks leave
/// the byte behind them in place.
pub open spec fn command_len(cmd: u8) -> nat {
    if sub_command(cmd) {
        2
    } else {
        3
    }
}

/// What the command sequence at the head of `bytes` is, and how many bytes
/// it takes. A command is read only once the byte behind it is there.
pub open spec fn parse_iac(bytes: Seq<u8>) -> (IacView, nat) {
    if bytes.len() < 2 {
        (IacView::NeedMore, 0)
    } else if !three_byte_command(bytes[1]) && !sub_command(bytes[1]) {
        (IacView::Invalid(bytes[1]), 0)
    } else if bytes.len() < 3 {
        (IacView::NeedMore, 0)
    } else {
        (IacView::Item(command_item(bytes[1], bytes[2])), command_len(bytes[1]))
    }
}

/// Reads the command sequence at the head of `bytes`, which starts with the
/// escape byte, and says how many bytes it takes.
pub fn try_parse_iac(bytes: &[u8]) -> (r: (ParseIacResult, usize))
    requires
        bytes@.len() >= 2 ==> bytes@[0] == IAC,
    ensures
        (r.0@, r.1 as nat) == parse_iac(bytes@),
{
    if bytes.len() < 2 {
        return (ParseIacResult::NeedMore, 0);
    }
    if is_three_byte_iac(bytes[1]) && bytes.len() < 3 {
        return (ParseIacResult::NeedMore, 0);
    }
    if is_sub(bytes[1]) && bytes.len() < 3 {
        return (ParseIacResult::NeedMore, 0);
    }
    match bytes[1] {
        240 => (ParseIacResult::Item(Item::SE(bytes[2])), 2),
        250 => (ParseIacResult::Item(Item::SB(bytes[2])), 2),
        251 => (ParseIacResult::Item(Item::Will(bytes[2])), 3),
        252 => (ParseIacResult::Item(Item::Wont(bytes[2])), 3),
        253 => (ParseIacResult::Item(Item::Do(bytes[2])), 3),
        254 => (ParseIacResult::Item(Item::Dont(bytes[2])), 3),
        cmd => (ParseIacResult::Invalid(cmd), 0),
    }
}

/// The decoder's memory between two calls.
pub struct TelnetCodec {
    sb_flag: bool,
    current_line: Vec<u8>,
}

/// The decoder's memory, as contracts see it.
pub struct CodecState {
    /// The decoder is inside a subnegotiation block.
    pub sb_flag: bool,
    /// The bytes of the line that has begun and has not been handed out.
    pub current_line: Seq<u8>,
}

impl View for TelnetCodec {
    type V = CodecState;

    closed spec fn view(&self) -> CodecState {
        CodecState { sb_flag: self.sb_flag, current_line: self.current_line@ }
    }
}

/// Whether `bytes` can be the beginning of a line: no line feed or other
/// control byte is among them, and no escape byte.
pub open spec fn line_start(bytes: Seq<u8>) -> bool {
    forall|i: int| 0 <= i < bytes.len() ==> 32 <= #[trigger] bytes[i] && bytes[i] != IAC
}

/// Whether `bytes` can be a line as the decoder hands it out: at least one
/// byte, none of them the escape byte, and no line feed or other control
/// byte but a line feed at the very end.
pub open spec fn well_formed_line(bytes: Seq<u8>) -> bool {
    &&& bytes.len() > 0
    &&& line_start(bytes.drop_last())
    &&& (bytes.last() == LF || (32 <= bytes.last() && bytes.last() != IAC))
}

/// The memory of a decoder that has seen nothing yet.
pub open spec fn fresh() -> CodecState {
    CodecState { sb_flag: false, current_line: Seq::empty() }
}

/// One call of the decoder: what it returns, what it remembers, and the
/// bytes it leaves in the buffer.
pub struct Decoded {
    pub outcome: Result<Option<ItemView>, ErrorView>,
    pub state: CodecState,
    pub rest: Seq<u8>,
}

/// What one call of the decoder does with the bytes `buf` when it
/// remembers `st`.
pub open spec fn decode_spec(st: CodecState, buf: Seq<u8>) -> Decoded
    decreases buf.len(),
{
    if buf.len() == 0 {
        Decoded { outcome: Ok(None), state: st, rest: buf }
    } else if buf[0] == IAC {
        match parse_iac(buf) {
            (IacView::NeedMore, _) => Decoded {
                outcome: Ok(Some(ItemView::NeedMore)),
                state: st,
                rest: buf,
            },
            (IacView::Invalid(cmd), _) => Decoded {
                outcome: Err(ErrorView::UnknownIAC(cmd)),
                state: st,
                rest: buf,
            },
            (IacView::Item(item), used) => {
                if item is SB {
                    decode_spec(CodecState { sb_flag: true, ..st }, buf.skip(used as int))
                } else if item is SE {
                    decode_spec(CodecState { sb_flag: false, ..st }, buf.skip(used as int))
                } else {
                    Decoded { outcome: Ok(Some(item)), state: st, rest: buf.skip(used as int) }
                }
            },
        }
    } else if st.sb_flag {
        decode_spec(st, buf.skip(1))
    } else if buf[0] == LF {
        Decoded {
            outcome: Ok(Some(ItemView::Line(st.current_line.push(LF)))),
            state: CodecState { current_line: Seq::empty(), ..st },
            rest: buf.skip(1),
        }
    } else if buf[0] < 32 {
        decode_spec(st, buf.skip(1))
    } else if buf.len() == 1 {
        Decoded {
            outcome: Ok(Some(ItemView::Line(st.current_line.push(buf[0])))),
            state: CodecState { current_line: Seq::empty(), ..st },
            rest: buf.skip(1),
        }
    } else {
        decode_spec(CodecState { current_line: st.current_line.push(buf[0]), ..st }, buf.skip(1))
    }
}

/// A result of `decode`, items and failures by their views.
pub open spec fn outcome_view(r: Result<Option<Item>, TelnetError>) -> Result<
    Option<ItemView>,
    ErrorView,
> {
    match r {
        Ok(Some(item)) => Ok(Some(item@)),
        Ok(None) => Ok(None),
        Err(e) => Err(e@),
    }
}

impl TelnetCodec {
    /// A decoder that has seen nothing yet.
    pub fn new() -> (codec: TelnetCodec)
        ensures
            codec@ == fresh(),
    {
        TelnetCodec { sb_flag: false, current_line: Vec::with_capacity(1024) }
    }

    /// Takes the next item from the head of `src`.
    ///
    /// Commands and the bytes inside a subnegotiation block are consumed on
    /// the way. `Ok(None)` says that the buffer is used up and no item is
    /// complete; the line that has begun is kept for the next call.
    pub fn decode(&mut self, src: &mut BytesMut) -> (r: Result<Option<Item>, TelnetError>)
        ensures
            outcome_view(r) == decode_spec(old(self)@, contents(*old(src))).outcome,
            final(self)@ == decode_spec(old(self)@, contents(*old(src))).state,
            contents(*final(src)) == decode_spec(old(self)@, contents(*old(src))).rest,
            line_start(old(self)@.current_line) ==> line_start(final(self)@.current_line),
            line_start(old(self)@.current_line) ==> (r matches Ok(Some(Item::Line(line)))
                ==> well_formed_line(line@)),
    {
        let ghost goal = decode_spec(self@, contents(*src));
        proof {
            if line_start(self@.current_line) {
                lemma_lines_are_well_formed(self@, contents(*src));
            }
        }
        loop
            invariant
                goal == decode_spec(old(self)@, contents(*old(src))),
                line_start(old(self)@.current_line) ==> line_start(goal.state.current_line),
                line_start(old(self)@.current_line) ==> (goal.outcome matches Ok(
                    Some(ItemView::Line(line)),
                ) ==> well_formed_line(line)),
                decode_spec(self@, contents(*src)) == goal,
            decreases contents(*src).len(),
        {
            if is_empty(src) {
                return Ok(None);
            }
            if chunk(src)[0] == IAC {
                let (res, consume) = try_parse_iac(chunk(src));
                advance(src, consume);
                match res {
                    ParseIacResult::Invalid(cmd) => {
                        return Err(TelnetError::UnknownIAC(cmd));
                    },
                    ParseIacResult::NeedMore => {
                        return Ok(Some(Item::NeedMore));
                    },
                    ParseIacResult::Item(item) => {
                        if matches!(item, Item::SB(_)) {
                            self.sb_flag = true;
                            continue ;
                        } else if matches!(item, Item::SE(_)) {
                            self.sb_flag = false;
                            continue ;
                        }
                        return Ok(Some(item));
                    },
                }
            } else if self.sb_flag {
                advance(src, 1);
                continue ;
            } else {
                let byte = get_u8(src);
                if byte == LF {
                    self.current_line.push(byte);
                    let line = slice_to_vec(self.current_line.as_slice());
                    self.current_line.clear();
                    return Ok(Some(Item::Line(line)));
                } else if byte < 32 {
                } else {
                    self.current_line.push(byte);
                    if is_empty(src) {
                        let line = slice_to_vec(self.current_line.as_slice());
                        self.current_line.clear();
                        return Ok(Some(Item::Line(line)));
                    }
                }
            }
        }
    }
}

impl Default for TelnetCodec {
    fn default() -> (codec: TelnetCodec)
        ensures
            codec@ == fresh(),
    {
        TelnetCodec::new()
    }
}

} // verus!
