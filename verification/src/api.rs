//! The semantic side of the control protocol: the actions a client can
//! request from the daemon, and the handling of one decoded request.
//!
//! The wire encoding of requests and responses is the transport adapter's
//! concern; the library receives the decoded action, or nothing when the
//! payload was unrecognizable, and pins down the answer in both cases.

use vstd::prelude::*;
use crate::monitor::DispatchResult;
use crate::monitor::Monitor;
use crate::monitor::dispatch_outcome;

verus! {

/// One administrative request, as the daemon understands it. A missing
/// replica index means every replica of the named unit.
#[derive(Debug)]
pub enum Action {
    /// Report the named unit's configuration.
    Config(String),
    /// Reload the configuration, for one unit or for all.
    Update(Option<String>),
    /// Report status, for one unit or for all.
    Status(Option<String>),
    /// Start one replica, or every replica, of the named unit.
    Start(String, Option<usize>),
    /// Stop one replica, or every replica, of the named unit.
    Stop(String, Option<usize>),
    /// Stop everything and terminate the daemon.
    Shutdown,
}

/// The fixed reply to a request whose payload could not be decoded.
pub open spec fn unknown_action_text() -> Seq<char> {
    "Error! Unknown action"@
}

/// Serves one request. An undecodable payload answers the fixed
/// unrecognized-action reply and leaves the registry untouched, so the
/// connection stays serviceable; a decoded action is dispatched.
pub fn handle_request(monitor: &mut Monitor, decoded: Option<Action>, now: u64) -> (r:
    DispatchResult)
    requires
        old(monitor).wf(),
    ensures
        final(monitor).wf(),
        match decoded {
            Option::Some(action) => dispatch_outcome(
                *old(monitor),
                *final(monitor),
                action,
                now,
                r,
            ),
            Option::None => {
                &&& *final(monitor) == *old(monitor)
                &&& r.response@ == unknown_action_text()
                &&& r.commands@.len() == 0
                &&& !r.shutdown
                &&& !r.needs_reload
            },
        },
{
    match decoded {
        Option::Some(action) => monitor.dispatch(action, now),
        Option::None => DispatchResult {
            response: String::from_str("Error! Unknown action"),
            commands: Vec::new(),
            shutdown: false,
            needs_reload: false,
            reload_target: Option::None,
        },
    }
}

} // verus!
