//! The configuration of a session, set piece by piece before the session
//! is made.

use crate::session::{Telnet, TelnetView};
use std::time::Duration;
use vstd::prelude::*;
use vstd::slice::slice_to_vec;
use vstd::string::StringSliceAdditionalSpecFns;
use vstd::utf8::encode_utf8;

verus! {

/// The length of a duration in nanoseconds, as `Duration::as_nanos` gives
/// it.
pub uninterp spec fn duration_nanos(d: Duration) -> nat;

/// `Duration::from_nanos`: the duration of that many nanoseconds.
#[verifier::external_body]
fn duration_from_nanos(nanos: u64) -> (d: Duration)
    ensures
        duration_nanos(d) == nanos,
{
    Duration::from_nanos(nanos)
}

/// What a session is made from: the prompts of the peer and the two
/// timeouts.
#[derive(Debug)]
pub struct TelnetBuilder {
    prompts: Vec<String>,
    username_prompt: String,
    password_prompt: String,
    connect_timeout: Duration,
    timeout: Duration,
}

/// A builder as contracts see it.
pub struct BuilderView {
    pub prompts: Seq<Seq<char>>,
    pub username_prompt: Seq<char>,
    pub password_prompt: Seq<char>,
    pub connect_timeout: Duration,
    pub timeout: Duration,
}

impl View for TelnetBuilder {
    type V = BuilderView;

    closed spec fn view(&self) -> BuilderView {
        BuilderView {
            prompts: Seq::new(self.prompts@.len(), |k: int| self.prompts@[k]@),
            username_prompt: self.username_prompt@,
            password_prompt: self.password_prompt@,
            connect_timeout: self.connect_timeout,
            timeout: self.timeout,
        }
    }
}

/// Whether nothing is set in a builder: no prompt, empty login prompts,
/// and timeouts of no time at all.
pub open spec fn is_unset(b: BuilderView) -> bool {
    &&& b.prompts.len() == 0
    &&& b.username_prompt.len() == 0
    &&& b.password_prompt.len() == 0
    &&& duration_nanos(b.connect_timeout) == 0
    &&& duration_nanos(b.timeout) == 0
}

impl Default for TelnetBuilder {
    fn default() -> (b: TelnetBuilder)
        ensures
            is_unset(b@),
    {
        TelnetBuilder {
            prompts: Vec::new(),
            username_prompt: String::new(),
            password_prompt: String::new(),
            connect_timeout: duration_from_nanos(0),
            timeout: duration_from_nanos(0),
        }
    }
}

impl TelnetBuilder {
    /// Sets the one prompt of the peer's shell. A long prompt is matched
    /// more safely than a short one.
    pub fn prompt(self, prompt: &str) -> (b: TelnetBuilder)
        ensures
            b@ == (BuilderView { prompts: seq![prompt@], ..self@ }),
    {
        let mut b = self;
        let mut prompts: Vec<String> = Vec::new();
        prompts.push(prompt.to_owned());
        b.prompts = prompts;
        assert(b@.prompts =~= seq![prompt@]);
        b
    }

    /// Sets the prompts of the peer's shell, in place of any set before.
    pub fn prompts(self, prompts: &[&str]) -> (b: TelnetBuilder)
        ensures
            b@ == (BuilderView {
                prompts: Seq::new(prompts@.len(), |k: int| prompts@[k]@),
                ..self@
            }),
    {
        let mut b = self;
        let mut owned: Vec<String> = Vec::new();
        let mut i: usize = 0;
        while i < prompts.len()
            invariant
                0 <= i <= prompts.len(),
                owned@.len() == i,
                forall|k: int| 0 <= k < i ==> (#[trigger] owned@[k])@ == prompts@[k]@,
            decreases prompts.len() - i,
        {
            owned.push(prompts[i].to_owned());
            i += 1;
        }
        b.prompts = owned;
        assert(b@.prompts =~= Seq::new(prompts@.len(), |k: int| prompts@[k]@));
        b
    }

    /// Sets the prompts at which the peer asks for the user name and for
    /// the password.
    pub fn login_prompt(self, user_prompt: &str, pass_prompt: &str) -> (b: TelnetBuilder)
        ensures
            b@ == (BuilderView {
                username_prompt: user_prompt@,
                password_prompt: pass_prompt@,
                ..self@
            }),
    {
        let mut b = self;
        b.username_prompt = user_prompt.to_owned();
        b.password_prompt = pass_prompt.to_owned();
        b
    }

    /// Sets the deadline for reaching the peer.
    pub fn connect_timeout(self, connect_timeout: Duration) -> (b: TelnetBuilder)
        ensures
            b@ == (BuilderView { connect_timeout, ..self@ }),
    {
        let mut b = self;
        b.connect_timeout = connect_timeout;
        b
    }

    /// Sets the deadline of each single read and write.
    pub fn timeout(self, timeout: Duration) -> (b: TelnetBuilder)
        ensures
            b@ == (BuilderView { timeout, ..self@ }),
    {
        let mut b = self;
        b.timeout = timeout;
        b
    }

    /// The deadline for reaching the peer.
    pub fn connect_deadline(&self) -> (d: Duration)
        ensures
            d == self@.connect_timeout,
    {
        self.connect_timeout
    }

    /// The session of a connection that has just been made: it waits for
    /// the prompts as the peer sends them, in UTF-8, and has collected
    /// nothing.
    pub fn build(self) -> (session: Telnet)
        ensures
            session@ == (TelnetView {
                timeout: self@.timeout,
                content: Seq::empty(),
                prompts: Seq::new(self@.prompts.len(), |k: int| encode_utf8(self@.prompts[k])),
                username_prompt: encode_utf8(self@.username_prompt),
                password_prompt: encode_utf8(self@.password_prompt),
            }),
    {
        let mut prompts: Vec<Vec<u8>> = Vec::new();
        let mut i: usize = 0;
        while i < self.prompts.len()
            invariant
                0 <= i <= self.prompts.len(),
                prompts@.len() == i,
                forall|k: int|
                    0 <= k < i ==> (#[trigger] prompts@[k])@ == encode_utf8(self.prompts@[k]@),
            decreases self.prompts.len() - i,
        {
            prompts.push(slice_to_vec(self.prompts[i].as_str().as_bytes()));
            i += 1;
        }
        let username_prompt = slice_to_vec(self.username_prompt.as_str().as_bytes());
        let password_prompt = slice_to_vec(self.password_prompt.as_str().as_bytes());
        let session = Telnet::with_config(self.timeout, prompts, username_prompt, password_prompt);
        assert(session@.prompts =~= Seq::new(
            self@.prompts.len(),
            |k: int| encode_utf8(self@.prompts[k]),
        ));
        session
    }
}

} // verus!
