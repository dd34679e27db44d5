//! The agent's start-up decisions: which address to listen on, and what to do
//! after each attempt to bind it.
use vstd::prelude::*;

verus! {

/// The address the agent listens on when the environment names none.
pub const DEFAULT_LISTEN_ADDR: &'static str = "0.0.0.0:3456";

/// How many times the agent tries to bind its address while it is in use
/// (the port still in TIME_WAIT, or the previous process not yet gone).
pub const BIND_RETRIES: u32 = 30;

/// How long the agent waits between two attempts to bind, in milliseconds.
pub const BIND_RETRY_DELAY_MS: u64 = 1000;

/// The listen address: `STATUS_CORE_LISTEN` when set, else `LISTEN_ADDR`,
/// else the default.
pub open spec fn listen_addr(primary: Option<Seq<char>>, secondary: Option<Seq<char>>) -> Seq<
    char,
> {
    match primary {
        Some(p) => p,
        None => match secondary {
            Some(s) => s,
            None => DEFAULT_LISTEN_ADDR@,
        },
    }
}

pub open spec fn opt_view(o: Option<String>) -> Option<Seq<char>> {
    match o {
        Some(s) => Some(s@),
        None => None,
    }
}

/// The address to listen on, from the values of `STATUS_CORE_LISTEN` and of
/// `LISTEN_ADDR` (`None` when a variable is unset or not valid Unicode).
pub fn listen_addr_from(primary: Option<String>, secondary: Option<String>) -> (a: String)
    ensures
        a@ == listen_addr(opt_view(primary), opt_view(secondary)),
{
    match primary {
        Some(p) => p,
        None => match secondary {
            Some(s) => s,
            None => String::from_str(DEFAULT_LISTEN_ADDR),
        },
    }
}

/// How an attempt to bind the listen address ended.
#[derive(Clone, Copy, Debug, PartialEq, Eq, Structural)]
pub enum BindResult {
    Bound,
    AddrInUse,
    OtherError,
}

/// What the agent does after an attempt to bind.
#[derive(Clone, Copy, Debug, PartialEq, Eq, Structural)]
pub enum BindStep {
    /// Serve on the socket just bound.
    Serve,
    /// Wait `delay_ms` milliseconds, then make attempt `next_attempt`.
    Retry { next_attempt: u32, delay_ms: u64 },
    /// Give up: the agent reports the error and exits with status 1.
    Exit,
}

/// The step after attempt `attempt` (counted from 1): serve once bound; retry
/// after the delay while the address is in use and attempts remain; else
/// exit.
pub open spec fn bind_step(attempt: u32, result: BindResult) -> BindStep {
    match result {
        BindResult::Bound => BindStep::Serve,
        BindResult::AddrInUse => if attempt < BIND_RETRIES {
            BindStep::Retry { next_attempt: (attempt + 1) as u32, delay_ms: BIND_RETRY_DELAY_MS }
        } else {
            BindStep::Exit
        },
        BindResult::OtherError => BindStep::Exit,
    }
}

/// The step after attempt `attempt` of binding the listen address ended with
/// `result`.
pub fn next_bind_step(attempt: u32, result: BindResult) -> (s: BindStep)
    requires
        1 <= attempt <= BIND_RETRIES,
    ensures
        s == bind_step(attempt, result),
{
    match result {
        BindResult::Bound => BindStep::Serve,
        BindResult::AddrInUse => if attempt < BIND_RETRIES {
            BindStep::Retry { next_attempt: attempt + 1, delay_ms: BIND_RETRY_DELAY_MS }
        } else {
            BindStep::Exit
        },
        BindResult::OtherError => BindStep::Exit,
    }
}

/// The bind loop ends, whatever the attempts give: a retry moves to the next
/// attempt and never past the last one, only an address in use is retried,
/// and after the last attempt the agent serves or exits.
pub proof fn bind_attempts_end(attempt: u32, result: BindResult)
    requires
        1 <= attempt <= BIND_RETRIES,
    ensures
        bind_step(attempt, result) matches BindStep::Retry { next_attempt, .. } ==> {
            &&& next_attempt == attempt + 1
            &&& next_attempt <= BIND_RETRIES
            &&& result == BindResult::AddrInUse
        },
        attempt == BIND_RETRIES ==> !(bind_step(attempt, result) is Retry),
{
}

/// `STATUS_CORE_LISTEN` decides whenever it is set, whatever `LISTEN_ADDR` is;
/// `LISTEN_ADDR` decides only when it is not; the default only when neither
/// is set.
pub proof fn listen_addr_precedence(p: Seq<char>, s: Seq<char>, other: Option<Seq<char>>)
    ensures
        listen_addr(Some(p), other) == p,
        listen_addr(None, Some(s)) == s,
        listen_addr(None, None) == "0.0.0.0:3456"@,
{
}

/// What each attempt's result leads to, on every attempt: a bound socket is
/// always served, any other error always ends the agent, and an address in
/// use is retried one second later with the next attempt, except after the
/// last attempt, which ends the agent.
pub proof fn bind_result_decides(attempt: u32)
    requires
        1 <= attempt <= BIND_RETRIES,
    ensures
        bind_step(attempt, BindResult::Bound) == BindStep::Serve,
        bind_step(attempt, BindResult::OtherError) == BindStep::Exit,
        attempt < 30 ==> bind_step(attempt, BindResult::AddrInUse) == (BindStep::Retry {
            next_attempt: (attempt + 1) as u32,
            delay_ms: 1000,
        }),
        attempt == 30 ==> bind_step(attempt, BindResult::AddrInUse) == BindStep::Exit,
{
}

} // verus!
