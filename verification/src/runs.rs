//! Whole runs of a command: what a sequence of events leads to, that no
//! run sees the output of the one before it, and that it does not matter
//! where the reads cut the text.

use crate::codec::{ItemView, LF};
use crate::error::ErrorView;
use crate::framing::{first_line_len, lemma_first_line_len, split_lines};
use crate::session::{execute_step_spec, EventView, ExecutionView, StepView, TelnetView};
use vstd::prelude::*;

verus! {

/// Where a run stands after some events: its result, once an event has
/// ended it, the output that the session holds, and what the run
/// remembers.
pub struct Run {
    pub result: Option<Result<Seq<char>, ErrorView>>,
    pub content: Seq<char>,
    pub run: ExecutionView,
}

/// The steps of a run on `events`, one after the other, up to the first
/// that ends it. Events behind that one are not looked at.
pub open spec fn execute_run(
    prompts: Seq<Seq<u8>>,
    content: Seq<char>,
    run: ExecutionView,
    events: Seq<EventView>,
) -> Run
    decreases events.len(),
{
    if events.len() == 0 {
        Run { result: None, content, run }
    } else {
        let s = execute_step_spec(prompts, content, run, events[0]);
        match s.step {
            StepView::Finished(result) => Run {
                result: Some(result),
                content: s.content,
                run: s.run,
            },
            _ => execute_run(prompts, s.content, s.run, events.skip(1)),
        }
    }
}

/// A whole call on a session: the start, which drops what the session
/// holds, and then the steps on `events`.
pub open spec fn execute_call(session: TelnetView, run: ExecutionView, events: Seq<EventView>)
    -> Run {
    execute_run(session.prompts, Seq::empty(), run, events)
}

/// `text` behind `content`, where the run ended with a text.
pub open spec fn behind(content: Seq<char>, result: Option<Result<Seq<char>, ErrorView>>)
    -> Option<Result<Seq<char>, ErrorView>> {
    match result {
        Some(Ok(text)) => Some(Ok(content + text)),
        other => other,
    }
}

/// What a run hands out is what the session held when it began, followed
/// by what the run itself collected; a run that has ended leaves nothing
/// in the session, whether it ended well or not.
pub proof fn lemma_run_output(
    prompts: Seq<Seq<u8>>,
    content: Seq<char>,
    run: ExecutionView,
    events: Seq<EventView>,
)
    ensures
        execute_run(prompts, content, run, events).result == behind(
            content,
            execute_run(prompts, Seq::empty(), run, events).result,
        ),
        execute_run(prompts, content, run, events).result is Some ==> execute_run(
            prompts,
            content,
            run,
            events,
        ).content == Seq::<char>::empty(),
        execute_run(prompts, content, run, events).result is None ==> execute_run(
            prompts,
            content,
            run,
            events,
        ).content == content + execute_run(prompts, Seq::empty(), run, events).content,
        execute_run(prompts, content, run, events).run == execute_run(
            prompts,
            Seq::empty(),
            run,
            events,
        ).run,
    decreases events.len(),
{
    let none = Seq::<char>::empty();
    if events.len() == 0 {
        assert(content + none =~= content);
    } else {
        let with = execute_step_spec(prompts, content, run, events[0]);
        let without = execute_step_spec(prompts, none, run, events[0]);
        assert(content + none =~= content);
        assert(with.run == without.run);
        match with.step {
            StepView::Finished(_) => {},
            _ => {
                assert(with.content =~= content + without.content);
                lemma_run_output(prompts, with.content, with.run, events.skip(1));
                lemma_run_output(prompts, without.content, with.run, events.skip(1));
                let rest = execute_run(prompts, none, with.run, events.skip(1));
                match rest.result {
                    Some(Ok(text)) => {
                        assert(with.content + text =~= content + (without.content + text));
                    },
                    Some(Err(_)) => {},
                    None => {
                        assert(with.content + rest.content =~= content + (without.content
                            + rest.content));
                    },
                }
            },
        }
    }
}

/// Nothing leaks from one call into the next: whatever the first call
/// received, and however it ended or was left, the second call gives what
/// it would give on a session that has run nothing before.
pub proof fn lemma_calls_do_not_leak(
    session: TelnetView,
    first: ExecutionView,
    first_events: Seq<EventView>,
    second: ExecutionView,
    second_events: Seq<EventView>,
)
    ensures
        execute_call(
            TelnetView { content: execute_call(session, first, first_events).content, ..session },
            second,
            second_events,
        ) == execute_call(TelnetView { content: Seq::empty(), ..session }, second, second_events),
{
}

/// The lines of a buffer as the events of a run.
pub open spec fn line_events(lines: Seq<Seq<u8>>) -> Seq<EventView> {
    lines.map_values(|line: Seq<u8>| EventView::Item(ItemView::Line(line)))
}

/// The first line of two buffers put together is the first line of the
/// first where that ends with a line feed; else it goes on into the
/// second.
proof fn lemma_first_line_of_concat(a: Seq<u8>, b: Seq<u8>)
    requires
        a.len() > 0,
    ensures
        a[first_line_len(a) - 1] == LF ==> first_line_len(a + b) == first_line_len(a),
        a[first_line_len(a) - 1] != LF && b.len() > 0 ==> first_line_len(a + b) == a.len()
            + first_line_len(b),
    decreases a.len(),
{
    let ab = a + b;
    assert(ab[0] == a[0]);
    if a[0] == LF {
    } else if a.len() == 1 {
        if b.len() > 0 {
            assert(ab.skip(1) =~= b);
        }
    } else {
        assert(ab.skip(1) =~= a.skip(1) + b);
        lemma_first_line_len(a.skip(1));
        lemma_first_line_of_concat(a.skip(1), b);
        assert(a.skip(1)[first_line_len(a.skip(1)) - 1] == a[first_line_len(a) - 1]);
    }
}

/// Where no prompt is set, a line handed over in two pieces, the first
/// without a line feed, is taken like the line in one piece.
proof fn lemma_pieces_of_a_line(
    content: Seq<char>,
    run: ExecutionView,
    head: Seq<u8>,
    tail: Seq<u8>,
)
    requires
        head.len() > 0,
        head.last() != LF,
        tail.len() > 0,
    ensures
        ({
            let none = Seq::<Seq<u8>>::empty();
            let first = execute_step_spec(none, content, run, line_events(seq![head])[0]);
            let whole = execute_step_spec(none, content, run, line_events(seq![head + tail])[0]);
            &&& first.step is Continue
            &&& execute_step_spec(none, first.content, first.run, line_events(seq![tail])[0])
                == whole
        }),
{
    let joined = head + tail;
    assert(joined.last() == tail.last());
    if run.line_feed_cnt == 0 {
        assert((run.incomplete_line + head).last() == head.last());
        assert((run.incomplete_line + head) + tail =~= run.incomplete_line + joined);
    }
}

/// It does not matter where the reads cut the text: where no prompt is
/// set, a run that is handed the lines of one buffer and then the lines of
/// a second stands where it would stand had it been handed the lines of
/// the two buffers put together. The line that the cut went through is
/// put together again.
pub proof fn lemma_cut_text_collects_the_same(
    content: Seq<char>,
    run: ExecutionView,
    a: Seq<u8>,
    b: Seq<u8>,
)
    ensures
        execute_run(
            Seq::empty(),
            content,
            run,
            line_events(split_lines(a)) + line_events(split_lines(b)),
        ) == execute_run(Seq::empty(), content, run, line_events(split_lines(a + b))),
    decreases a.len(),
{
    let none = Seq::<Seq<u8>>::empty();
    let cut = line_events(split_lines(a)) + line_events(split_lines(b));
    let joined = line_events(split_lines(a + b));
    if a.len() == 0 {
        assert(a + b =~= b);
        assert(cut =~= joined);
    } else if b.len() == 0 {
        assert(a + b =~= a);
        assert(cut =~= joined);
    } else {
        lemma_first_line_len(a);
        lemma_first_line_len(a + b);
        lemma_first_line_of_concat(a, b);
        let n = first_line_len(a) as int;
        if a[n - 1] == LF {
            let rest = a.skip(n);
            assert((a + b).take(n) =~= a.take(n));
            assert((a + b).skip(n) =~= rest + b);
            assert(cut[0] == joined[0]);
            assert(cut.skip(1) =~= line_events(split_lines(rest)) + line_events(split_lines(b)));
            assert(joined.skip(1) =~= line_events(split_lines(rest + b)));
            let s = execute_step_spec(none, content, run, cut[0]);
            lemma_cut_text_collects_the_same(s.content, s.run, rest, b);
        } else {
            lemma_first_line_len(b);
            let m = first_line_len(b) as int;
            let head = a;
            let tail = b.take(m);
            assert(a.take(n) =~= a);
            assert(a.skip(n) =~= Seq::<u8>::empty());
            assert(n == a.len());
            assert(split_lines(a.skip(n)) =~= Seq::<Seq<u8>>::empty());
            assert(split_lines(a) =~= seq![a]);
            assert((a + b).take(n + m) =~= head + tail);
            assert((a + b).skip(n + m) =~= b.skip(m));
            lemma_pieces_of_a_line(content, run, head, tail);
            let after = line_events(split_lines(b.skip(m)));
            assert(cut =~= line_events(seq![head]) + line_events(seq![tail]) + after);
            assert(joined =~= line_events(seq![head + tail]) + after);
            assert(cut[0] == line_events(seq![head])[0]);
            assert(cut.skip(1)[0] == line_events(seq![tail])[0]);
            assert(cut.skip(1).skip(1) =~= after);
            assert(joined[0] == line_events(seq![head + tail])[0]);
            assert(joined.skip(1) =~= after);
            let first = execute_step_spec(none, content, run, cut[0]);
            assert(execute_run(none, content, run, cut) == execute_run(
                none,
                first.content,
                first.run,
                cut.skip(1),
            ));
        }
    }
}

} // verus!
