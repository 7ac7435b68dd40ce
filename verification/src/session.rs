//! A session without its transport: what it is configured with, what it
//! has collected, and what it decides on each thing that arrives.
//!
//! The caller owns the connection. It starts an operation, reads, hands
//! each thing that happened to the step function of that operation as an
//! [`Event`], and does what the [`Step`] that comes back says.

use crate::builder::TelnetBuilder;
use crate::codec::{Item, ItemView};
use crate::error::{phase_name, ErrorView, Phase, TelnetError};
use crate::text::{decode, decoded_text};
use crate::wire::{
    count_lines, ends_with, ends_with_lf, ends_with_newline, format_enter_str, line_count,
    negotiation_reply, reply_to, with_newline,
};
use std::time::Duration;
use vstd::prelude::*;
use vstd::slice::slice_to_vec;
use vstd::string::{StringExecFns, StringSliceAdditionalSpecFns};

verus! {

/// What happened on the connection since the last step.
#[derive(Debug)]
pub enum Event {
    /// The decoder handed out an item.
    Item(Item),
    /// Decoding or the transport failed.
    Failed(TelnetError),
    /// The peer closed the stream.
    Closed,
    /// Nothing arrived within the session's timeout.
    TimedOut,
}

/// An event as contracts see it.
pub enum EventView {
    Item(ItemView),
    Failed(ErrorView),
    Closed,
    TimedOut,
}

impl View for Event {
    type V = EventView;

    open spec fn view(&self) -> EventView {
        match *self {
            Event::Item(item) => EventView::Item(item@),
            Event::Failed(e) => EventView::Failed(e@),
            Event::Closed => EventView::Closed,
            Event::TimedOut => EventView::TimedOut,
        }
    }
}

/// What the caller does next.
#[derive(Debug)]
pub enum Step<T> {
    /// Read on.
    Continue,
    /// Send these bytes, then read on.
    Reply(Vec<u8>),
    /// The operation is over and this is its result.
    Finished(Result<T, TelnetError>),
}

/// A step as contracts see it.
pub enum StepView<V> {
    Continue,
    Reply(Seq<u8>),
    Finished(Result<V, ErrorView>),
}

impl<T: View> View for Step<T> {
    type V = StepView<T::V>;

    open spec fn view(&self) -> StepView<T::V> {
        match *self {
            Step::Continue => StepView::Continue,
            Step::Reply(bytes) => StepView::Reply(bytes@),
            Step::Finished(Ok(value)) => StepView::Finished(Ok(value@)),
            Step::Finished(Err(e)) => StepView::Finished(Err(e@)),
        }
    }
}

/// Whether the last bytes of `line` are those of one of the `prompts`.
pub open spec fn ends_with_any(line: Seq<u8>, prompts: Seq<Seq<u8>>) -> bool {
    exists|k: int| 0 <= k < prompts.len() && (#[trigger] prompts[k]).is_suffix_of(line)
}

/// The session: the prompts it waits for, its timeout, and the output of
/// the command that is being run.
pub struct Telnet {
    timeout: Duration,
    content: String,
    prompts: Vec<Vec<u8>>,
    username_prompt: Vec<u8>,
    password_prompt: Vec<u8>,
}

/// The session as contracts see it. The prompts are held as the bytes
/// that the peer sends for them.
pub struct TelnetView {
    pub timeout: Duration,
    pub content: Seq<char>,
    pub prompts: Seq<Seq<u8>>,
    pub username_prompt: Seq<u8>,
    pub password_prompt: Seq<u8>,
}

impl View for Telnet {
    type V = TelnetView;

    closed spec fn view(&self) -> TelnetView {
        TelnetView {
            timeout: self.timeout,
            content: self.content@,
            prompts: Seq::new(self.prompts@.len(), |k: int| self.prompts@[k]@),
            username_prompt: self.username_prompt@,
            password_prompt: self.password_prompt@,
        }
    }
}

impl Telnet {
    /// A session with nothing collected.
    pub(crate) fn with_config(
        timeout: Duration,
        prompts: Vec<Vec<u8>>,
        username_prompt: Vec<u8>,
        password_prompt: Vec<u8>,
    ) -> (session: Telnet)
        ensures
            session@ == (TelnetView {
                timeout,
                content: Seq::empty(),
                prompts: Seq::new(prompts@.len(), |k: int| prompts@[k]@),
                username_prompt: username_prompt@,
                password_prompt: password_prompt@,
            }),
    {
        Telnet { timeout, content: String::new(), prompts, username_prompt, password_prompt }
    }

    /// A builder with nothing set.
    pub fn builder() -> (b: TelnetBuilder)
        ensures
            crate::builder::is_unset(b@),
    {
        TelnetBuilder::default()
    }

    /// The deadline of each single read and write.
    pub fn timeout(&self) -> (t: Duration)
        ensures
            t == self@.timeout,
    {
        self.timeout
    }

    /// Whether `line` ends with one of the session's prompts.
    pub fn matches_prompt(&self, line: &[u8]) -> (r: bool)
        ensures
            r == ends_with_any(line@, self@.prompts),
    {
        let mut i: usize = 0;
        while i < self.prompts.len()
            invariant
                0 <= i <= self.prompts.len(),
                forall|k: int| 0 <= k < i ==> !(#[trigger] self@.prompts[k]).is_suffix_of(line@),
            decreases self.prompts.len() - i,
        {
            if ends_with(line, self.prompts[i].as_slice()) {
                assert(self@.prompts[i as int].is_suffix_of(line@));
                return true;
            }
            i += 1;
        }
        false
    }
}

/// What a login remembers from step to step.
pub struct Login {
    user: Vec<u8>,
    pass: Vec<u8>,
    auth_failed: bool,
}

/// A login as contracts see it.
pub struct LoginView {
    /// The user name as it is sent.
    pub user: Seq<u8>,
    /// The password as it is sent.
    pub pass: Seq<u8>,
    /// The password has been sent.
    pub password_sent: bool,
}

impl View for Login {
    type V = LoginView;

    closed spec fn view(&self) -> LoginView {
        LoginView { user: self.user@, pass: self.pass@, password_sent: self.auth_failed }
    }
}

/// One step of a login, with the login as the step leaves it.
pub struct LoginStep {
    pub step: StepView<()>,
    pub login: LoginView,
}

/// What a login does on what arrives.
///
/// A line that ends with the user-name prompt is answered with the user
/// name, unless the password was sent before: then the peer has turned the
/// login down. A line that ends with the password prompt is answered with
/// the password. A line that ends with one of the prompts ends the login
/// with success; any other line is passed over. The three tests are made
/// in this order. Negotiation commands get their answer. A block mark or an
/// unfinished command ends the login, and so do a failure, the end of the
/// stream and a timeout.
pub open spec fn login_step_spec(session: TelnetView, login: LoginView, event: EventView)
    -> LoginStep {
    match event {
        EventView::Item(ItemView::Line(line)) => {
            if session.username_prompt.is_suffix_of(line) {
                if login.password_sent {
                    LoginStep {
                        step: StepView::Finished(Err(ErrorView::AuthenticationFailed)),
                        login,
                    }
                } else {
                    LoginStep { step: StepView::Reply(login.user), login }
                }
            } else if session.password_prompt.is_suffix_of(line) {
                LoginStep {
                    step: StepView::Reply(login.pass),
                    login: LoginView { password_sent: true, ..login },
                }
            } else if ends_with_any(line, session.prompts) {
                LoginStep { step: StepView::Finished(Ok(())), login }
            } else {
                LoginStep { step: StepView::Continue, login }
            }
        },
        EventView::Item(item) => match negotiation_reply(item) {
            Some(reply) => LoginStep { step: StepView::Reply(reply), login },
            None => LoginStep {
                step: StepView::Finished(Err(ErrorView::UnexpectedItem(item))),
                login,
            },
        },
        EventView::Failed(e) => LoginStep { step: StepView::Finished(Err(e)), login },
        EventView::Closed => LoginStep {
            step: StepView::Finished(Err(ErrorView::NoMoreData)),
            login,
        },
        EventView::TimedOut => LoginStep {
            step: StepView::Finished(Err(ErrorView::Timeout(phase_name(Phase::Login)))),
            login,
        },
    }
}

impl Telnet {
    /// Starts a login with `username` and `password`. Nothing is sent yet:
    /// each goes out, with a line feed at its end, when the peer asks for
    /// it.
    pub fn login(&self, username: &str, password: &str) -> (login: Login)
        ensures
            login@ == (LoginView {
                user: with_newline(username.spec_bytes()),
                pass: with_newline(password.spec_bytes()),
                password_sent: false,
            }),
    {
        Login {
            user: format_enter_str(username),
            pass: format_enter_str(password),
            auth_failed: false,
        }
    }

    /// Decides the next step of `login` on `event`.
    pub fn login_step(&self, login: &mut Login, event: Event) -> (step: Step<()>)
        ensures
            step@ == login_step_spec(self@, old(login)@, event@).step,
            final(login)@ == login_step_spec(self@, old(login)@, event@).login,
            event matches Event::Failed(e) ==> step == Step::<()>::Finished(Err(e)),
    {
        match event {
            Event::Item(Item::Line(content)) => {
                if ends_with(content.as_slice(), self.username_prompt.as_slice()) {
                    if login.auth_failed {
                        Step::Finished(Err(TelnetError::AuthenticationFailed))
                    } else {
                        Step::Reply(slice_to_vec(login.user.as_slice()))
                    }
                } else if ends_with(content.as_slice(), self.password_prompt.as_slice()) {
                    login.auth_failed = true;
                    Step::Reply(slice_to_vec(login.pass.as_slice()))
                } else if self.matches_prompt(content.as_slice()) {
                    Step::Finished(Ok(()))
                } else {
                    Step::Continue
                }
            },
            Event::Item(item) => match reply_to(&item) {
                Some(reply) => Step::Reply(reply),
                None => Step::Finished(Err(TelnetError::UnexpectedItem(item))),
            },
            Event::Failed(e) => Step::Finished(Err(e)),
            Event::Closed => Step::Finished(Err(TelnetError::NoMoreData)),
            Event::TimedOut => Step::Finished(Err(TelnetError::timeout(Phase::Login))),
        }
    }
}

/// What the run of a command remembers from step to step.
pub struct Execution {
    incomplete_line: Vec<u8>,
    line_feed_cnt: usize,
}

/// The run of a command as contracts see it.
pub struct ExecutionView {
    /// The bytes of the line of output that has begun and is not complete.
    pub incomplete_line: Seq<u8>,
    /// How many lines of echo are still to come before the output.
    pub line_feed_cnt: nat,
}

impl View for Execution {
    type V = ExecutionView;

    closed spec fn view(&self) -> ExecutionView {
        ExecutionView {
            incomplete_line: self.incomplete_line@,
            line_feed_cnt: self.line_feed_cnt as nat,
        }
    }
}

/// One step of the run of a command, with the output collected and the run
/// as the step leaves them.
pub struct ExecuteStep {
    pub step: StepView<Seq<char>>,
    pub content: Seq<char>,
    pub run: ExecutionView,
}

/// The end of a run: its result is handed out and the collected output is
/// dropped.
pub open spec fn finished(result: Result<Seq<char>, ErrorView>, run: ExecutionView)
    -> ExecuteStep {
    ExecuteStep { step: StepView::Finished(result), content: Seq::empty(), run }
}

/// What the run of a command does with a line.
///
/// A line that ends with one of the prompts ends the run: the output
/// collected so far is its result. While echo is still to come, the line
/// is passed over, and counted where it ends with a line feed. After that
/// the line is put behind the bytes of the line that has begun. If the
/// whole ends with one of the prompts, the run ends in the same way. If it
/// ends with a line feed, it is read as text and put behind the output,
/// and where it cannot be read as text, the run fails. Otherwise it is kept
/// as the line that has begun.
pub open spec fn execute_line_spec(
    prompts: Seq<Seq<u8>>,
    content: Seq<char>,
    run: ExecutionView,
    line: Seq<u8>,
) -> ExecuteStep {
    if ends_with_any(line, prompts) {
        finished(Ok(content), run)
    } else if run.line_feed_cnt > 0 {
        ExecuteStep {
            step: StepView::Continue,
            content,
            run: if ends_with_lf(line) {
                ExecutionView { line_feed_cnt: (run.line_feed_cnt - 1) as nat, ..run }
            } else {
                run
            },
        }
    } else {
        let whole = run.incomplete_line + line;
        let kept = ExecutionView { incomplete_line: whole, ..run };
        if ends_with_any(whole, prompts) {
            finished(Ok(content), kept)
        } else if ends_with_lf(whole) {
            match decoded_text(whole) {
                Some(text) => ExecuteStep {
                    step: StepView::Continue,
                    content: content + text,
                    run: ExecutionView { incomplete_line: Seq::empty(), ..run },
                },
                None => finished(Err(ErrorView::ParseError(whole)), kept),
            }
        } else {
            ExecuteStep { step: StepView::Continue, content, run: kept }
        }
    }
}

/// What the run of a command does on what arrives: a line is taken as
/// `execute_line_spec` says, negotiation commands get their answer and
/// other items are passed over. A failure, the end of the stream and a
/// timeout end the run; the output collected so far is dropped.
pub open spec fn execute_step_spec(
    prompts: Seq<Seq<u8>>,
    content: Seq<char>,
    run: ExecutionView,
    event: EventView,
) -> ExecuteStep {
    match event {
        EventView::Item(ItemView::Line(line)) => execute_line_spec(prompts, content, run, line),
        EventView::Item(item) => ExecuteStep {
            step: match negotiation_reply(item) {
                Some(reply) => StepView::Reply(reply),
                None => StepView::Continue,
            },
            content,
            run,
        },
        EventView::Failed(e) => finished(Err(e), run),
        EventView::Closed => finished(Err(ErrorView::NoMoreData), run),
        EventView::TimedOut => finished(Err(ErrorView::Timeout(phase_name(Phase::Read))), run),
    }
}

impl Telnet {
    /// Starts the run of `cmd` and gives the bytes to send for it: `cmd`
    /// with a line feed at the end. The lines that these bytes span are
    /// expected back as echo and are left out of the output.
    pub fn execute(&mut self, cmd: &str) -> (r: (Execution, Vec<u8>))
        ensures
            final(self)@ == (TelnetView { content: Seq::empty(), ..old(self)@ }),
            r.1@ == with_newline(cmd.spec_bytes()),
            r.0@ == (ExecutionView {
                incomplete_line: Seq::empty(),
                line_feed_cnt: line_count(r.1@),
            }),
    {
        let command = format_enter_str(cmd);
        let line_feed_cnt = count_lines(command.as_slice());
        self.content = String::new();
        (Execution { incomplete_line: Vec::new(), line_feed_cnt }, command)
    }

    /// Starts the run of `cmd` and gives the bytes to send for it: `cmd`
    /// with a line feed at the end. Everything that comes back before the
    /// prompt is output, the echo too.
    pub fn normal_execute(&mut self, cmd: &str) -> (r: (Execution, Vec<u8>))
        ensures
            final(self)@ == (TelnetView { content: Seq::empty(), ..old(self)@ }),
            r.1@ == with_newline(cmd.spec_bytes()),
            r.0@ == (ExecutionView { incomplete_line: Seq::empty(), line_feed_cnt: 0 }),
    {
        let command = format_enter_str(cmd);
        self.content = String::new();
        (Execution { incomplete_line: Vec::new(), line_feed_cnt: 0 }, command)
    }

    /// Ends a run: hands out `failure`, or the collected output where there
    /// is none, and drops what was collected.
    fn finish(&mut self, failure: Option<TelnetError>) -> (step: Step<String>)
        ensures
            final(self)@ == (TelnetView { content: Seq::empty(), ..old(self)@ }),
            match failure {
                Some(e) => step == Step::<String>::Finished(Err(e)),
                None => step@ == StepView::<Seq<char>>::Finished(Ok(old(self)@.content)),
            },
    {
        let mut output = String::new();
        std::mem::swap(&mut output, &mut self.content);
        match failure {
            Some(e) => Step::Finished(Err(e)),
            None => Step::Finished(Ok(output)),
        }
    }

    /// Takes a line of the run.
    fn execute_line(&mut self, run: &mut Execution, line: Vec<u8>) -> (step: Step<String>)
        ensures
            step@ == execute_line_spec(old(self)@.prompts, old(self)@.content, old(run)@, line@).step,
            final(self)@ == (TelnetView {
                content: execute_line_spec(
                    old(self)@.prompts,
                    old(self)@.content,
                    old(run)@,
                    line@,
                ).content,
                ..old(self)@
            }),
            final(run)@ == execute_line_spec(
                old(self)@.prompts,
                old(self)@.content,
                old(run)@,
                line@,
            ).run,
    {
        let mut line = line;
        if self.matches_prompt(line.as_slice()) {
            return self.finish(None);
        }
        if run.line_feed_cnt > 0 {
            if ends_with_newline(line.as_slice()) {
                run.line_feed_cnt -= 1;
            }
            return Step::Continue;
        }
        run.incomplete_line.append(&mut line);
        if self.matches_prompt(run.incomplete_line.as_slice()) {
            return self.finish(None);
        }
        if ends_with_newline(run.incomplete_line.as_slice()) {
            match decode(run.incomplete_line.as_slice()) {
                Ok(text) => {
                    self.content.append(text.as_str());
                    run.incomplete_line.clear();
                    Step::Continue
                },
                Err(e) => self.finish(Some(e)),
            }
        } else {
            Step::Continue
        }
    }

    /// Decides the next step of the run of a command on `event`.
    pub fn execute_step(&mut self, run: &mut Execution, event: Event) -> (step: Step<String>)
        ensures
            step@ == execute_step_spec(
                old(self)@.prompts,
                old(self)@.content,
                old(run)@,
                event@,
            ).step,
            final(self)@ == (TelnetView {
                content: execute_step_spec(
                    old(self)@.prompts,
                    old(self)@.content,
                    old(run)@,
                    event@,
                ).content,
                ..old(self)@
            }),
            final(run)@ == execute_step_spec(
                old(self)@.prompts,
                old(self)@.content,
                old(run)@,
                event@,
            ).run,
            event matches Event::Failed(e) ==> step == Step::<String>::Finished(Err(e)),
    {
        match event {
            Event::Item(Item::Line(line)) => self.execute_line(run, line),
            Event::Item(item) => match reply_to(&item) {
                Some(reply) => Step::Reply(reply),
                None => Step::Continue,
            },
            Event::Failed(e) => self.finish(Some(e)),
            Event::Closed => self.finish(Some(TelnetError::NoMoreData)),
            Event::TimedOut => self.finish(Some(TelnetError::timeout(Phase::Read))),
        }
    }
}

} // verus!
