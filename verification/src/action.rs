//! The requests a control client can phrase. The client's vocabulary is a
//! little wider than the daemon protocol's: it can also ask for the log
//! history, and it can leave the unit name out to mean every unit, which
//! the client expands itself before talking to the daemon.

use vstd::prelude::*;

verus! {

/// One request as phrased on the client side.
#[derive(Debug)]
pub enum Action {
    /// Report the named unit's configuration.
    Config(String),
    /// Show the last lines of the daemon's log history.
    Maintail(Option<usize>),
    /// Reload the configuration, for one unit or for all.
    Update(Option<String>),
    /// Report status, for one unit or for all.
    Status(Option<String>),
    /// Start a unit (optionally one replica); no target means every unit.
    Start(Option<(String, Option<usize>)>),
    /// Stop a unit (optionally one replica); no target means every unit.
    Stop(Option<(String, Option<usize>)>),
    /// Stop everything and terminate the daemon.
    Shutdown,
}

impl Action {
    /// The daemon-protocol action this request stands for, when it stands
    /// for one directly. A log-history request is served from the log sink
    /// without the daemon protocol, and a start or stop of every unit is
    /// expanded by the client into one request per unit name.
    pub fn to_api(self) -> (r: Option<crate::api::Action>)
        ensures
            match self {
                Action::Config(name) => r == Option::Some(crate::api::Action::Config(name)),
                Action::Maintail(_) => r is None,
                Action::Update(target) => r == Option::Some(crate::api::Action::Update(target)),
                Action::Status(target) => r == Option::Some(crate::api::Action::Status(target)),
                Action::Start(target) => match target {
                    Option::Some(t) => r == Option::Some(crate::api::Action::Start(t.0, t.1)),
                    Option::None => r is None,
                },
                Action::Stop(target) => match target {
                    Option::Some(t) => r == Option::Some(crate::api::Action::Stop(t.0, t.1)),
                    Option::None => r is None,
                },
                Action::Shutdown => r == Option::Some(crate::api::Action::Shutdown),
            },
    {
        match self {
            Action::Config(name) => Option::Some(crate::api::Action::Config(name)),
            Action::Maintail(_) => Option::None,
            Action::Update(target) => Option::Some(crate::api::Action::Update(target)),
            Action::Status(target) => Option::Some(crate::api::Action::Status(target)),
            Action::Start(target) => match target {
                Option::Some(t) => Option::Some(crate::api::Action::Start(t.0, t.1)),
                Option::None => Option::None,
            },
            Action::Stop(target) => match target {
                Option::Some(t) => Option::Some(crate::api::Action::Stop(t.0, t.1)),
                Option::None => Option::None,
            },
            Action::Shutdown => Option::Some(crate::api::Action::Shutdown),
        }
    }
}

} // verus!
