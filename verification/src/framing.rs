//! What the decoder guarantees over whole buffers: how far a call reads,
//! that a call cut short can be taken up again, and how plain text falls
//! into lines.

use crate::codec::{
    decode_spec, fresh, line_start, parse_iac, well_formed_line, CodecState, Decoded, IacView,
    ItemView, IAC, LF,
};
use vstd::prelude::*;

verus! {

/// Whether a call handed out a line or a negotiation command.
pub open spec fn yields_item(d: Decoded) -> bool {
    d.outcome matches Ok(Some(item)) && item !is NeedMore
}

/// Whether a call ended for want of bytes: the buffer was used up, or a
/// command sequence at its end is not complete.
pub open spec fn wants_more(d: Decoded) -> bool {
    (d.outcome matches Ok(None)) || (d.outcome matches Ok(Some(ItemView::NeedMore)))
}

/// Whether a call ended at a command sequence that it could not read: one
/// that is not complete, or one with an unknown command.
pub open spec fn stops_at_command(d: Decoded) -> bool {
    d.outcome is Err || (d.outcome matches Ok(Some(ItemView::NeedMore)))
}

/// A call leaves a tail of the buffer behind, and one that hands out a line
/// or a negotiation command has consumed at least one byte. A call that
/// ends at a command sequence it could not read leaves that sequence at
/// the head of the buffer.
pub proof fn lemma_decode_progress(st: CodecState, buf: Seq<u8>)
    ensures
        decode_spec(st, buf).rest.len() <= buf.len(),
        decode_spec(st, buf).rest == buf.skip(buf.len() - decode_spec(st, buf).rest.len()),
        yields_item(decode_spec(st, buf)) ==> decode_spec(st, buf).rest.len() < buf.len(),
        stops_at_command(decode_spec(st, buf)) ==> decode_spec(st, buf).rest.len() > 0
            && decode_spec(st, buf).rest[0] == IAC,
    decreases buf.len(),
{
    let d = decode_spec(st, buf);
    if buf.len() == 0 {
        assert(buf.skip(0) =~= buf);
    } else if buf[0] == IAC {
        match parse_iac(buf) {
            (IacView::Item(item), used) => {
                let tail = buf.skip(used as int);
                if item is SB {
                    let st2 = CodecState { sb_flag: true, ..st };
                    lemma_decode_progress(st2, tail);
                    lemma_skip_skip(buf, used as int, tail.len() - decode_spec(st2, tail).rest.len());
                } else if item is SE {
                    let st2 = CodecState { sb_flag: false, ..st };
                    lemma_decode_progress(st2, tail);
                    lemma_skip_skip(buf, used as int, tail.len() - decode_spec(st2, tail).rest.len());
                } else {
                }
            },
            _ => {
                assert(buf.skip(0) =~= buf);
            },
        }
    } else if st.sb_flag || (buf[0] != LF && buf[0] < 32) {
        let tail = buf.skip(1);
        lemma_decode_progress(st, tail);
        lemma_skip_skip(buf, 1, tail.len() - decode_spec(st, tail).rest.len());
    } else if buf[0] == LF || buf.len() == 1 {
    } else {
        let st2 = CodecState { current_line: st.current_line.push(buf[0]), ..st };
        let tail = buf.skip(1);
        lemma_decode_progress(st2, tail);
        lemma_skip_skip(buf, 1, tail.len() - decode_spec(st2, tail).rest.len());
    }
}

proof fn lemma_skip_skip(s: Seq<u8>, a: int, b: int)
    requires
        0 <= a,
        0 <= b,
        a + b <= s.len(),
    ensures
        s.skip(a).skip(b) == s.skip(a + b),
{
    assert(s.skip(a).skip(b) =~= s.skip(a + b));
}

/// A call that ended for want of bytes can be taken up again: decoding what
/// it left, with more bytes behind it, gives what one call on all the bytes
/// would have given.
pub proof fn lemma_decode_resumes(st: CodecState, buf: Seq<u8>, more: Seq<u8>)
    requires
        wants_more(decode_spec(st, buf)),
    ensures
        decode_spec(st, buf + more) == decode_spec(
            decode_spec(st, buf).state,
            decode_spec(st, buf).rest + more,
        ),
    decreases buf.len(),
{
    let all = buf + more;
    if buf.len() == 0 {
        assert(buf + more =~= decode_spec(st, buf).rest + more);
    } else if buf[0] == IAC {
        assert(all[0] == IAC);
        match parse_iac(buf) {
            (IacView::Item(item), used) => {
                assert(all[1] == buf[1] && all[2] == buf[2]);
                assert(parse_iac(all) == parse_iac(buf));
                assert(all.skip(used as int) =~= buf.skip(used as int) + more);
                if item is SB {
                    lemma_decode_resumes(CodecState { sb_flag: true, ..st }, buf.skip(used as int), more);
                } else if item is SE {
                    lemma_decode_resumes(CodecState { sb_flag: false, ..st }, buf.skip(used as int), more);
                }
            },
            _ => {},
        }
    } else {
        assert(all[0] == buf[0]);
        assert(all.skip(1) =~= buf.skip(1) + more);
        if st.sb_flag || (buf[0] != LF && buf[0] < 32) {
            lemma_decode_resumes(st, buf.skip(1), more);
        } else if buf[0] == LF || buf.len() == 1 {
        } else {
            lemma_decode_resumes(
                CodecState { current_line: st.current_line.push(buf[0]), ..st },
                buf.skip(1),
                more,
            );
        }
    }
}

/// An unfinished command sequence is left untouched: nothing of it is
/// consumed and nothing is remembered of it.
pub proof fn lemma_unfinished_command_stays(st: CodecState, buf: Seq<u8>)
    requires
        buf.len() > 0,
        buf[0] == IAC,
        parse_iac(buf).0 is NeedMore,
    ensures
        decode_spec(st, buf) == (Decoded {
            outcome: Ok(Some(ItemView::NeedMore)),
            state: st,
            rest: buf,
        }),
{
}

/// Inside a subnegotiation block every byte but the escape byte is thrown
/// away: nothing is handed out and the line that has begun stays as it was.
pub proof fn lemma_block_bytes_are_dropped(st: CodecState, buf: Seq<u8>)
    requires
        st.sb_flag,
        forall|i: int| 0 <= i < buf.len() ==> buf[i] != IAC,
    ensures
        decode_spec(st, buf) == (Decoded { outcome: Ok(None), state: st, rest: Seq::empty() }),
    decreases buf.len(),
{
    if buf.len() == 0 {
        assert(buf =~= Seq::empty());
    } else {
        let tail = buf.skip(1);
        assert forall|i: int| 0 <= i < tail.len() implies tail[i] != IAC by {
            assert(tail[i] == buf[i + 1]);
        }
        lemma_block_bytes_are_dropped(st, tail);
    }
}

/// The escape byte never comes out as text, and control bytes are dropped:
/// a decoder whose line in progress holds text bytes only keeps it so, and
/// every line it hands out is made of such bytes, with at most a line feed
/// at its end.
pub proof fn lemma_lines_are_well_formed(st: CodecState, buf: Seq<u8>)
    requires
        line_start(st.current_line),
    ensures
        line_start(decode_spec(st, buf).state.current_line),
        decode_spec(st, buf).outcome matches Ok(Some(ItemView::Line(line))) ==> well_formed_line(
            line,
        ),
    decreases buf.len(),
{
    if buf.len() == 0 {
    } else if buf[0] == IAC {
        match parse_iac(buf) {
            (IacView::Item(item), used) => {
                if item is SB {
                    lemma_lines_are_well_formed(
                        CodecState { sb_flag: true, ..st },
                        buf.skip(used as int),
                    );
                } else if item is SE {
                    lemma_lines_are_well_formed(
                        CodecState { sb_flag: false, ..st },
                        buf.skip(used as int),
                    );
                }
            },
            _ => {},
        }
    } else if st.sb_flag || (buf[0] != LF && buf[0] < 32) {
        lemma_lines_are_well_formed(st, buf.skip(1));
    } else {
        let line = st.current_line.push(buf[0]);
        assert(line.drop_last() =~= st.current_line);
        if buf[0] == LF || buf.len() == 1 {
        } else {
            lemma_lines_are_well_formed(CodecState { current_line: line, ..st }, buf.skip(1));
        }
    }
}

/// The bytes that plain text is made of: the line feed, and every byte
/// from the space up but the escape byte.
pub open spec fn text_byte(b: u8) -> bool {
    b == LF || (32 <= b && b != IAC)
}

pub open spec fn plain_text(buf: Seq<u8>) -> bool {
    forall|i: int| 0 <= i < buf.len() ==> text_byte(#[trigger] buf[i])
}

/// The length of the first line of `buf`: up to and including the first
/// line feed, or all of `buf` where it holds none.
pub open spec fn first_line_len(buf: Seq<u8>) -> nat
    decreases buf.len(),
{
    if buf.len() == 0 {
        0
    } else if buf[0] == LF || buf.len() == 1 {
        1
    } else {
        1 + first_line_len(buf.skip(1))
    }
}

/// The first line of a buffer ends at its first line feed, or at the end
/// of the buffer.
pub proof fn lemma_first_line_len(buf: Seq<u8>)
    requires
        buf.len() > 0,
    ensures
        1 <= first_line_len(buf) <= buf.len(),
        forall|i: int| 0 <= i < first_line_len(buf) - 1 ==> buf[i] != LF,
        buf[first_line_len(buf) - 1] == LF || first_line_len(buf) == buf.len(),
    decreases buf.len(),
{
    if buf[0] == LF || buf.len() == 1 {
    } else {
        let tail = buf.skip(1);
        lemma_first_line_len(tail);
        assert forall|i: int| 0 <= i < first_line_len(buf) - 1 implies buf[i] != LF by {
            if i > 0 {
                assert(tail[i - 1] == buf[i]);
            }
        }
        assert(tail[first_line_len(tail) - 1] == buf[first_line_len(buf) - 1]);
    }
}

/// On plain text, outside a subnegotiation block, a call hands out exactly
/// the first line: the bytes remembered from before, then the bytes of the
/// buffer up to and including the first line feed, or all of them where
/// there is none. Nothing is remembered afterwards.
pub proof fn lemma_decode_plain_text(st: CodecState, buf: Seq<u8>)
    requires
        !st.sb_flag,
        buf.len() > 0,
        plain_text(buf),
    ensures
        decode_spec(st, buf) == (Decoded {
            outcome: Ok(Some(ItemView::Line(st.current_line + buf.take(first_line_len(buf) as int)))),
            state: fresh(),
            rest: buf.skip(first_line_len(buf) as int),
        }),
    decreases buf.len(),
{
    assert(text_byte(buf[0]));
    if buf[0] == LF || buf.len() == 1 {
        assert(st.current_line.push(buf[0]) =~= st.current_line + buf.take(1));
    } else {
        let st2 = CodecState { current_line: st.current_line.push(buf[0]), ..st };
        let tail = buf.skip(1);
        assert forall|i: int| 0 <= i < tail.len() implies text_byte(#[trigger] tail[i]) by {
            assert(tail[i] == buf[i + 1]);
        }
        lemma_decode_plain_text(st2, tail);
        lemma_first_line_len(tail);
        let n = first_line_len(tail) as int;
        assert(st2.current_line + tail.take(n) =~= st.current_line + buf.take(n + 1));
        assert(tail.skip(n) =~= buf.skip(n + 1));
    }
}

/// A buffer cut into its lines: each ends behind a line feed, but for the
/// last, which may end with the buffer.
pub open spec fn split_lines(buf: Seq<u8>) -> Seq<Seq<u8>>
    decreases buf.len(),
{
    if buf.len() == 0 {
        Seq::empty()
    } else {
        let n = first_line_len(buf) as int;
        if 1 <= n <= buf.len() {
            seq![buf.take(n)] + split_lines(buf.skip(n))
        } else {
            Seq::empty()
        }
    }
}

/// The lines of a buffer, joined again.
pub open spec fn concat_lines(lines: Seq<Seq<u8>>) -> Seq<u8>
    decreases lines.len(),
{
    if lines.len() == 0 {
        Seq::empty()
    } else {
        lines[0] + concat_lines(lines.skip(1))
    }
}

/// Cutting a buffer into lines loses and adds nothing: the lines, one
/// after the other, are the buffer. No line is empty, none holds a line
/// feed before its last byte, and each but the last ends with one.
pub proof fn lemma_split_lines(buf: Seq<u8>)
    ensures
        concat_lines(split_lines(buf)) == buf,
        forall|k: int, i: int|
            0 <= k < split_lines(buf).len() && 0 <= i < split_lines(buf)[k].len() - 1
                ==> #[trigger] split_lines(buf)[k][i] != LF,
        forall|k: int|
            0 <= k < split_lines(buf).len() ==> (#[trigger] split_lines(buf)[k]).len() > 0,
        forall|k: int|
            0 <= k < split_lines(buf).len() - 1 ==> (#[trigger] split_lines(buf)[k]).last()
                == LF,
    decreases buf.len(),
{
    if buf.len() == 0 {
        assert(concat_lines(split_lines(buf)) =~= buf);
    } else {
        lemma_first_line_len(buf);
        let n = first_line_len(buf) as int;
        let tail = buf.skip(n);
        let lines = split_lines(buf);
        lemma_split_lines(tail);
        assert(lines.skip(1) =~= split_lines(tail));
        assert(lines[0] == buf.take(n));
        assert(buf.take(n) + tail =~= buf);
        assert forall|k: int, i: int| 0 <= k < lines.len() && 0 <= i < lines[k].len() - 1 implies #[trigger] lines[k][i]
            != LF by {
            if k > 0 {
                assert(lines[k] == split_lines(tail)[k - 1]);
            }
        }
        assert forall|k: int| 0 <= k < lines.len() implies (#[trigger] lines[k]).len() > 0 by {
            if k > 0 {
                assert(lines[k] == split_lines(tail)[k - 1]);
            }
        }
        assert forall|k: int| 0 <= k < lines.len() - 1 implies (#[trigger] lines[k]).last()
            == LF by {
            if k > 0 {
                assert(lines[k] == split_lines(tail)[k - 1]);
            } else {
                assert(tail.len() > 0);
            }
        }
    }
}

/// The items that calls of the decoder hand out one after the other, each
/// on what the one before left, up to the first call that hands out
/// neither a line nor a negotiation command. (By `lemma_decode_progress`
/// such a call has always consumed a byte.)
pub open spec fn decode_run(st: CodecState, buf: Seq<u8>) -> Seq<ItemView>
    decreases buf.len(),
{
    let d = decode_spec(st, buf);
    match d.outcome {
        Ok(Some(item)) => {
            if item !is NeedMore && d.rest.len() < buf.len() {
                seq![item] + decode_run(d.state, d.rest)
            } else {
                Seq::empty()
            }
        },
        _ => Seq::empty(),
    }
}

/// Plain text decodes into its lines: from a decoder that has seen nothing
/// yet, the calls hand out one line for each line of the buffer, byte for
/// byte and with its line feed, and nothing else.
pub proof fn lemma_plain_text_decodes_into_lines(buf: Seq<u8>)
    requires
        plain_text(buf),
    ensures
        decode_run(fresh(), buf) == split_lines(buf).map_values(|l: Seq<u8>| ItemView::Line(l)),
    decreases buf.len(),
{
    let items = split_lines(buf).map_values(|l: Seq<u8>| ItemView::Line(l));
    if buf.len() == 0 {
        assert(decode_run(fresh(), buf) =~= items);
    } else {
        lemma_first_line_len(buf);
        lemma_decode_plain_text(fresh(), buf);
        let n = first_line_len(buf) as int;
        let tail = buf.skip(n);
        assert forall|i: int| 0 <= i < tail.len() implies text_byte(#[trigger] tail[i]) by {
            assert(tail[i] == buf[i + n]);
        }
        lemma_plain_text_decodes_into_lines(tail);
        assert(fresh().current_line + buf.take(n) =~= buf.take(n));
        assert(decode_run(fresh(), buf) =~= items);
    }
}

} // verus!
