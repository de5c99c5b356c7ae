//! The idle gate: whether the session manager reports that the user is away.

use crate::focus::{lossy_text, utf8_lossy, CommandOutput};
use crate::text::{same_text, trim, trimmed};
use vstd::prelude::*;

verus! {

/// Decides for one login session whether the user is away. The identifier of the session is
/// read once, from the variables of the process, by whoever makes this value; `None` stands
/// for a process that has none.
#[derive(Debug, Clone, PartialEq, Eq)]
pub struct IdleGate {
    pub session_id: Option<String>,
}

/// The program that is asked for the idle hint.
pub fn program() -> (r: &'static str)
    ensures
        r@ == "loginctl"@,
{
    "loginctl"
}

/// Whether a reply of the session manager says that the user is away. Only the explicit
/// `IdleHint=yes` does.
pub open spec fn says_idle(text: Seq<char>) -> bool {
    trimmed(text) == "IdleHint=yes"@
}

/// Whether the session counts as idle, given what the query left behind (`None` where it was
/// not or could not be run). A session without identifier, a query that failed and every
/// reply but the affirmative one count as not idle.
pub open spec fn idle_of(session_id: Option<String>, output: Option<CommandOutput>) -> bool {
    &&& session_id is Some
    &&& output is Some
    &&& output->0.success
    &&& says_idle(utf8_lossy(output->0.stdout@))
}

impl IdleGate {
    /// For the login session with this identifier, if there is one.
    pub fn new(session_id: Option<String>) -> (gate: IdleGate)
        ensures
            gate.session_id == session_id,
    {
        IdleGate { session_id }
    }

    /// The arguments that ask for the idle hint of this session, or `None` where there is no
    /// session to ask about.
    pub fn arguments(&self) -> (r: Option<Vec<String>>)
        ensures
            r is Some <==> self.session_id is Some,
            r matches Some(args) ==> {
                &&& args@.len() == 4
                &&& args@[0]@ == "show-session"@
                &&& args@[1]@ == self.session_id->0@
                &&& args@[2]@ == "-p"@
                &&& args@[3]@ == "IdleHint"@
            },
    {
        match &self.session_id {
            None => None,
            Some(id) => {
                let mut args: Vec<String> = Vec::new();
                args.push("show-session".to_owned());
                args.push(id.clone());
                args.push("-p".to_owned());
                args.push("IdleHint".to_owned());
                Some(args)
            },
        }
    }

    /// Whether the user is away, given what the query for this session left behind.
    pub fn is_user_idle(&self, output: Option<CommandOutput>) -> (idle: bool)
        ensures
            idle == idle_of(self.session_id, output),
    {
        is_session_idle(&self.session_id, output)
    }
}

/// Whether the session is idle: see `idle_of`.
pub fn is_session_idle(session_id: &Option<String>, output: Option<CommandOutput>) -> (idle: bool)
    ensures
        idle == idle_of(*session_id, output),
{
    if session_id.is_none() {
        return false;
    }
    match output {
        None => false,
        Some(o) => {
            if !o.success {
                return false;
            }
            let text = lossy_text(o.stdout.as_slice());
            same_text(trim(text.as_str()), "IdleHint=yes")
        },
    }
}

} // verus!
