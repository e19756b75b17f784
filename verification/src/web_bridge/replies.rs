//! Requests on the bus that a page waits for, and the replies to them.
use std::collections::HashSet;

use vstd::prelude::*;
use vstd::string::*;

use crate::config::Config;
use crate::extract::Job;
use crate::session::StartedSearch;

verus! {

broadcast use vstd::std_specs::hash::group_hash_axioms;

/// A reply that a page may wait for.
pub enum BridgeReply {
    Html(String),
    Extract(Result<Job, String>),
    Search { started: Vec<StartedSearch<String>>, error: Option<String> },
    Config(Config),
    SetConfig(Result<(), String>),
    Apply(Result<(), String>),
    Browse(Option<String>),
}

/// The requests that somebody waits for, by their numbers.
pub struct Pending {
    corr: u64,
    waiting: HashSet<u64>,
}

pub struct PendingModel {
    /// The number of the latest request.
    pub corr: u64,
    pub waiting: Set<u64>,
}

impl View for Pending {
    type V = PendingModel;

    closed spec fn view(&self) -> PendingModel {
        PendingModel { corr: self.corr, waiting: self.waiting@ }
    }
}

/// The number that follows another, modulo 2^64.
pub open spec fn next_number(n: u64) -> u64 {
    ((n + 1) % 0x1_0000_0000_0000_0000) as u64
}

/// A request is made and waited for.
pub open spec fn on_ask(m: PendingModel) -> PendingModel {
    let corr = next_number(m.corr);
    PendingModel { corr, waiting: m.waiting.insert(corr) }
}

/// A request is waited for no more.
pub open spec fn settled(m: PendingModel, corr: u64) -> PendingModel {
    PendingModel { waiting: m.waiting.remove(corr), ..m }
}

impl Pending {
    pub fn new() -> (r: Pending)
        ensures
            r@.corr == 0,
            r@.waiting == Set::<u64>::empty(),
    {
        Pending { corr: 0, waiting: HashSet::new() }
    }

    /// The number of a new request, which is waited for from then on.
    pub fn ask(&mut self) -> (corr: u64)
        ensures
            final(self)@ == on_ask(old(self)@),
            corr == final(self)@.corr,
    {
        self.corr = self.corr.wrapping_add(1);
        self.waiting.insert(self.corr);
        self.corr
    }

    /// The number for something that nobody waits for.
    pub fn number(&mut self) -> (corr: u64)
        ensures
            corr == old(self)@.corr,
            final(self)@ == (PendingModel { corr: next_number(old(self)@.corr), ..old(self)@ }),
    {
        let now: u64 = self.corr;
        self.corr = self.corr.wrapping_add(1);
        now
    }

    /// A reply came: whether somebody still waits for it. It is handed out once; one that comes
    /// too late is dropped.
    pub fn complete(&mut self, corr: u64) -> (wanted: bool)
        ensures
            wanted == old(self)@.waiting.contains(corr),
            final(self)@ == settled(old(self)@, corr),
    {
        self.waiting.remove(&corr)
    }

    /// Nobody waits for a reply any more: it took too long.
    pub fn give_up(&mut self, corr: u64)
        ensures
            final(self)@ == settled(old(self)@, corr),
    {
        let _ = self.waiting.remove(&corr);
    }
}

/// A reply is handed out once, and never after the wait for it was given up; the others are
/// waited for as before.
pub proof fn law_replies_are_handed_out_once(m: PendingModel, corr: u64, other: u64)
    requires
        other != corr,
    ensures
        !settled(m, corr).waiting.contains(corr),
        settled(m, corr).waiting.contains(other) == m.waiting.contains(other),
        on_ask(m).waiting.contains(on_ask(m).corr),
{
}

pub const TIMED_OUT: &'static str = "timed out waiting for the app to respond";

pub const UNEXPECTED: &'static str = "unexpected reply type";

fn refusal<X>(reply: &Option<BridgeReply>) -> (r: Result<X, String>)
    ensures
        r matches Err(e) && e@ == (if reply is None {
            TIMED_OUT@
        } else {
            UNEXPECTED@
        }),
{
    match reply {
        None => Err(TIMED_OUT.to_owned()),
        Some(_) => Err(UNEXPECTED.to_owned()),
    }
}

/// The page in a reply; no reply means that it took too long.
pub fn html_in(reply: Option<BridgeReply>) -> (r: Result<String, String>)
    ensures
        match reply {
            Some(BridgeReply::Html(html)) => r == Ok::<String, String>(html),
            None => r matches Err(e) && e@ == TIMED_OUT@,
            _ => r matches Err(e) && e@ == UNEXPECTED@,
        },
{
    match reply {
        Some(BridgeReply::Html(html)) => Ok(html),
        other => refusal(&other),
    }
}

/// The outcome of an extraction in a reply.
pub fn job_in(reply: Option<BridgeReply>) -> (r: Result<Result<Job, String>, String>)
    ensures
        match reply {
            Some(BridgeReply::Extract(result)) => r == Ok::<Result<Job, String>, String>(result),
            None => r matches Err(e) && e@ == TIMED_OUT@,
            _ => r matches Err(e) && e@ == UNEXPECTED@,
        },
{
    match reply {
        Some(BridgeReply::Extract(result)) => Ok(result),
        other => refusal(&other),
    }
}

/// The settings in a reply.
pub fn config_in(reply: Option<BridgeReply>) -> (r: Result<Config, String>)
    ensures
        match reply {
            Some(BridgeReply::Config(config)) => r == Ok::<Config, String>(config),
            None => r matches Err(e) && e@ == TIMED_OUT@,
            _ => r matches Err(e) && e@ == UNEXPECTED@,
        },
{
    match reply {
        Some(BridgeReply::Config(config)) => Ok(config),
        other => refusal(&other),
    }
}

/// Whether settings were stored, going by a reply.
pub fn stored_in(reply: Option<BridgeReply>) -> (r: Result<Result<(), String>, String>)
    ensures
        match reply {
            Some(BridgeReply::SetConfig(result)) => r == Ok::<Result<(), String>, String>(result),
            None => r matches Err(e) && e@ == TIMED_OUT@,
            _ => r matches Err(e) && e@ == UNEXPECTED@,
        },
{
    match reply {
        Some(BridgeReply::SetConfig(result)) => Ok(result),
        other => refusal(&other),
    }
}

/// Whether an update was applied, going by a reply.
pub fn applied_in(reply: Option<BridgeReply>) -> (r: Result<Result<(), String>, String>)
    ensures
        match reply {
            Some(BridgeReply::Apply(result)) => r == Ok::<Result<(), String>, String>(result),
            None => r matches Err(e) && e@ == TIMED_OUT@,
            _ => r matches Err(e) && e@ == UNEXPECTED@,
        },
{
    match reply {
        Some(BridgeReply::Apply(result)) => Ok(result),
        other => refusal(&other),
    }
}

/// Why a browse was refused, going by a reply; none where it was accepted.
pub fn browse_in(reply: Option<BridgeReply>) -> (r: Result<Option<String>, String>)
    ensures
        match reply {
            Some(BridgeReply::Browse(error)) => r == Ok::<Option<String>, String>(error),
            None => r matches Err(e) && e@ == TIMED_OUT@,
            _ => r matches Err(e) && e@ == UNEXPECTED@,
        },
{
    match reply {
        Some(BridgeReply::Browse(error)) => Ok(error),
        other => refusal(&other),
    }
}

/// The searches that were started, and what went wrong, going by a reply.
pub fn searches_in(reply: Option<BridgeReply>) -> (r: Result<
    (Vec<StartedSearch<String>>, Option<String>),
    String,
>)
    ensures
        match reply {
            Some(BridgeReply::Search { started, error }) => r == Ok::<_, String>((started, error)),
            None => r matches Err(e) && e@ == TIMED_OUT@,
            _ => r matches Err(e) && e@ == UNEXPECTED@,
        },
{
    match reply {
        Some(BridgeReply::Search { started, error }) => Ok((started, error)),
        other => refusal(&other),
    }
}

/// Every request has a number of its own: one more than the latest, until the numbers begin anew.
pub proof fn law_requests_have_numbers_of_their_own(m: PendingModel)
    ensures
        on_ask(m).corr != m.corr,
        m.corr < u64::MAX ==> on_ask(m).corr == m.corr + 1,
        m.corr == u64::MAX ==> on_ask(m).corr == 0,
{
}

} // verus!
