//! One supervised process instance: its lifecycle state, its bounded retry
//! budget, and the transitions driven by spawn outcomes, observed exits,
//! stop requests and the passage of time.

use vstd::prelude::*;
use crate::config::AutoRestart;
use crate::config::Configuration;
use crate::config::StopSignal;

verus! {

/// The lifecycle state of one supervised process. Exactly one variant holds
/// at any instant.
#[derive(Debug)]
pub enum State {
    /// Not running; carries the time it was last stopped by request, if any.
    STOPPED(Option<u64>),
    /// Spawned, but not yet alive for the configured minimum uptime.
    STARTING,
    /// Alive past the minimum uptime; carries the time it was spawned.
    RUNNING(u64),
    /// Exited before the minimum uptime; a re-spawn attempt is owed.
    BACKOFF,
    /// Ended by itself and will not be re-spawned; carries the exit code.
    EXITED(i32),
    /// Given up on until an explicit start; carries the reason.
    FATAL(String),
    /// Never observed.
    UNKNOWN,
}

/// The reason recorded when the retry budget runs out.
pub open spec fn budget_exhausted_text() -> Seq<char> {
    "retry budget exhausted"@
}

/// One supervised instance of a configured command.
#[derive(Debug)]
pub struct Task {
    /// The description this instance was spawned from.
    pub configuration: Configuration,
    /// Current lifecycle state.
    pub state: State,
    /// How many more failed start attempts will be retried.
    pub restarts_left: u32,
    /// The live OS process, by id; present exactly while STARTING or RUNNING.
    pub child: Option<u64>,
    /// When the live process was spawned.
    pub started_at: u64,
    /// While a stop is in flight: when the grace period runs out.
    pub stop_deadline: Option<u64>,
    /// While a stop is in flight: whether a re-spawn is owed once the
    /// process is reaped, because its description changed.
    pub pending_restart: bool,
}

impl Task {
    /// Whether a live OS process is supposed to exist.
    pub open spec fn active(&self) -> bool {
        self.state is STARTING || self.state is RUNNING
    }

    /// Well-formedness: a live OS handle exists if and only if the state is
    /// STARTING or RUNNING; a stop can only be in flight while a handle is
    /// live; the retry budget never exceeds the configured one.
    pub open spec fn wf(&self) -> bool {
        &&& self.child is Some <==> self.active()
        &&& self.stop_deadline is Some ==> self.child is Some
        &&& self.pending_restart ==> self.stop_deadline is Some
        &&& self.restarts_left <= self.configuration.start_retries
    }

    /// Whether `code` counts as an expected ending.
    pub open spec fn accepts_code(&self, code: i32) -> bool {
        self.configuration.exit_codes@.contains(code)
    }

    /// A freshly registered instance: stopped, with its full retry budget
    /// and no live process.
    pub fn new(configuration: Configuration) -> (t: Task)
        ensures
            t.wf(),
            t.configuration == configuration,
            t.state == State::STOPPED(Option::<u64>::None),
            t.restarts_left == configuration.start_retries,
            t.child is None,
            t.started_at == 0,
            t.stop_deadline is None,
            !t.pending_restart,
    {
        Task {
            restarts_left: configuration.start_retries,
            configuration,
            state: State::STOPPED(Option::None),
            child: Option::None,
            started_at: 0,
            stop_deadline: Option::None,
            pending_restart: false,
        }
    }

    /// Current lifecycle state.
    pub fn get_state(&self) -> (r: &State)
        ensures
            r == self.state,
    {
        &self.state
    }

    /// The description this instance runs under.
    pub fn get_configuration(&self) -> (r: &Configuration)
        ensures
            r == self.configuration,
    {
        &self.configuration
    }

    /// The description this instance runs under, rendered as JSON.
    pub fn get_json_configuration(&self) -> (r: String)
        ensures
            r@ == self.configuration.spec_json(),
    {
        self.configuration.to_json()
    }

    /// The id of the live OS process, while one exists.
    pub fn pid(&self) -> (r: Option<u64>)
        ensures
            r == self.child,
    {
        self.child
    }

    /// Whether a re-spawn attempt is owed to this instance by the control
    /// loop.
    pub fn wants_respawn(&self) -> (r: bool)
        ensures
            r == (self.state is BACKOFF),
    {
        match self.state {
            State::BACKOFF => true,
            _ => false,
        }
    }

    /// Whether `code` counts as an expected ending.
    pub fn code_accepted(&self, code: i32) -> (r: bool)
        ensures
            r == self.accepts_code(code),
    {
        let mut i: usize = 0;
        while i < self.configuration.exit_codes.len()
            invariant
                i <= self.configuration.exit_codes.len(),
                forall|j: int| 0 <= j < i ==> self.configuration.exit_codes@[j] != code,
            decreases self.configuration.exit_codes.len() - i,
        {
            if self.configuration.exit_codes[i] == code {
                return true;
            }
            i = i + 1;
        }
        false
    }
}

/// What recording a successful spawn does: the instance becomes STARTING,
/// owns the new live process, and remembers when it was spawned; its
/// description and retry budget are untouched.
pub open spec fn spawn_ok_step(pre: Task, post: Task, pid: u64, now: u64) -> bool {
    &&& post.state is STARTING
    &&& post.child == Option::Some(pid)
    &&& post.started_at == now
    &&& post.stop_deadline is None
    &&& !post.pending_restart
    &&& post.configuration == pre.configuration
    &&& post.restarts_left == pre.restarts_left
}

/// What recording a failed spawn does: the instance goes FATAL with the
/// OS error as reason, without consuming retry budget; there is no live
/// process.
pub open spec fn spawn_failed_step(pre: Task, post: Task, reason: String) -> bool {
    &&& post.state == State::FATAL(reason)
    &&& post.child is None
    &&& post.stop_deadline is None
    &&& !post.pending_restart
    &&& post.configuration == pre.configuration
    &&& post.restarts_left == pre.restarts_left
    &&& post.started_at == pre.started_at
}

/// What recording an observed exit does, depending on whether a stop was in
/// flight, whether the start was still unconfirmed, the exit code and the
/// restart policy.
pub open spec fn exit_step(pre: Task, post: Task, code: i32, now: u64) -> bool {
    &&& post.child is None
    &&& post.stop_deadline is None
    &&& !post.pending_restart
    &&& post.configuration == pre.configuration
    &&& post.started_at == pre.started_at
    &&& if pre.stop_deadline is Some {
        // a requested stop resolves here, once the process is reaped
        &&& post.restarts_left == pre.restarts_left
        &&& if pre.pending_restart {
            post.state is BACKOFF
        } else {
            post.state == State::STOPPED(Option::<u64>::Some(now))
        }
    } else if pre.state is STARTING {
        // exit before the minimum uptime: a failed attempt, whatever the code
        if pre.restarts_left == 0 {
            &&& post.state matches State::FATAL(reason) && reason@ == budget_exhausted_text()
            &&& post.restarts_left == 0
        } else {
            &&& post.state is BACKOFF
            &&& post.restarts_left == pre.restarts_left - 1
        }
    } else if pre.state is RUNNING {
        &&& post.restarts_left == pre.restarts_left
        &&& if pre.accepts_code(code) {
            // an expected ending is terminal regardless of policy
            post.state == State::EXITED(code)
        } else {
            match pre.configuration.auto_restart {
                AutoRestart::False => post.state == State::EXITED(code),
                AutoRestart::True => post.state is BACKOFF,
                AutoRestart::Unexpected => post.state is BACKOFF,
            }
        }
    } else {
        false
    }
}

/// What requesting a stop does: with a live process and no stop already in
/// flight, the grace deadline is armed and the configured signal is owed to
/// that process; otherwise nothing changes.
pub open spec fn stop_step(pre: Task, post: Task, now: u64, r: Option<(u64, StopSignal)>) -> bool {
    match pre.child {
        Option::Some(pid) => if pre.stop_deadline is None {
            &&& r == Option::Some((pid, pre.configuration.stop_signal))
            &&& post.stop_deadline == Option::Some(deadline_after(now, pre.configuration.stop_time))
            &&& post.state == pre.state
            &&& post.child == pre.child
            &&& post.restarts_left == pre.restarts_left
            &&& post.started_at == pre.started_at
            &&& post.configuration == pre.configuration
            &&& post.pending_restart == pre.pending_restart
        } else {
            &&& r is None
            &&& post == pre
        },
        Option::None => {
            &&& r is None
            &&& post == pre
        },
    }
}

/// What one poll of a still-live process does: a stop whose grace period has
/// run out demands a forceful kill; an unconfirmed start that has stayed
/// alive for the minimum uptime is promoted to RUNNING and refills the
/// retry budget; otherwise nothing changes.
pub open spec fn tick_step(pre: Task, post: Task, now: u64, kill: Option<u64>) -> bool {
    if pre.stop_deadline matches Some(d) && now >= d {
        &&& kill == pre.child
        &&& post == pre
    } else if pre.state is STARTING && pre.stop_deadline is None && now >= pre.started_at
        && now - pre.started_at >= pre.configuration.start_time {
        &&& kill is None
        &&& post.state == State::RUNNING(pre.started_at)
        &&& post.restarts_left == pre.configuration.start_retries
        &&& post.child == pre.child
        &&& post.started_at == pre.started_at
        &&& post.stop_deadline is None
        &&& !post.pending_restart
        &&& post.configuration == pre.configuration
    } else {
        &&& kill is None
        &&& post == pre
    }
}

/// The signal an update owes for a task: when the new description spawns a
/// different process and the task has a live one with no stop in flight,
/// the new description's stop signal is due to that process.
pub open spec fn update_signal_due(pre: Task, cfg: Configuration) -> Option<(u64, StopSignal)> {
    if pre.configuration.same_program(&cfg) {
        Option::None
    } else {
        match pre.child {
            Option::Some(pid) => if pre.stop_deadline is None {
                Option::Some((pid, cfg.stop_signal))
            } else {
                Option::None
            },
            Option::None => Option::None,
        }
    }
}

/// What installing a newly loaded description does: the description is
/// swapped in and the retry budget clamped to the new one; when the
/// spawned process would differ and one is live, a stop begins (or joins
/// the one in flight) with a re-spawn owed at its reaping.
pub open spec fn update_step(
    pre: Task,
    post: Task,
    cfg: Configuration,
    now: u64,
    sig: Option<(u64, StopSignal)>,
) -> bool {
    &&& post.configuration.agrees(&cfg)
    &&& post.restarts_left == (if pre.restarts_left > cfg.start_retries {
        cfg.start_retries
    } else {
        pre.restarts_left
    })
    &&& post.state == pre.state
    &&& post.child == pre.child
    &&& post.started_at == pre.started_at
    &&& sig == update_signal_due(pre, cfg)
    &&& if pre.configuration.same_program(&cfg) || pre.child is None {
        &&& post.stop_deadline == pre.stop_deadline
        &&& post.pending_restart == pre.pending_restart
    } else {
        &&& post.pending_restart
        &&& if pre.stop_deadline is Some {
            post.stop_deadline == pre.stop_deadline
        } else {
            post.stop_deadline == Option::Some(deadline_after(now, cfg.stop_time))
        }
    }
}

/// When the grace period beginning at `now` runs out. The addition
/// saturates: a deadline past the end of the clock is never reached.
pub open spec fn deadline_after(now: u64, grace: u32) -> u64 {
    if now + grace > u64::MAX {
        u64::MAX
    } else {
        (now + grace) as u64
    }
}

impl Task {
    /// Records that a spawn attempt for this instance produced the live
    /// process `pid` at time `now`.
    pub fn record_spawn_ok(&mut self, pid: u64, now: u64)
        requires
            old(self).wf(),
            !old(self).active(),
        ensures
            final(self).wf(),
            spawn_ok_step(*old(self), *final(self), pid, now),
    {
        self.state = State::STARTING;
        self.child = Option::Some(pid);
        self.started_at = now;
        self.stop_deadline = Option::None;
        self.pending_restart = false;
    }

    /// Records that the OS refused to spawn this instance. The failure is
    /// not retried: the operator must explicitly start the task again.
    pub fn record_spawn_failure(&mut self, reason: String)
        requires
            old(self).wf(),
            !old(self).active(),
        ensures
            final(self).wf(),
            spawn_failed_step(*old(self), *final(self), reason),
    {
        self.state = State::FATAL(reason);
        self.child = Option::None;
        self.stop_deadline = Option::None;
        self.pending_restart = false;
    }

    /// Records that the live process exited with `code`, observed at time
    /// `now`, and applies the exit transition.
    pub fn record_exit(&mut self, code: i32, now: u64)
        requires
            old(self).wf(),
            old(self).child is Some,
        ensures
            final(self).wf(),
            exit_step(*old(self), *final(self), code, now),
    {
        let stopping = match self.stop_deadline {
            Option::Some(_) => true,
            Option::None => false,
        };
        if stopping {
            if self.pending_restart {
                self.state = State::BACKOFF;
            } else {
                self.state = State::STOPPED(Option::Some(now));
            }
        } else {
            let starting = match self.state {
                State::STARTING => true,
                _ => false,
            };
            if starting {
                if self.restarts_left == 0 {
                    self.state = State::FATAL(String::from_str("retry budget exhausted"));
                } else {
                    self.restarts_left = self.restarts_left - 1;
                    self.state = State::BACKOFF;
                }
            } else {
                if self.code_accepted(code) {
                    self.state = State::EXITED(code);
                } else {
                    match self.configuration.auto_restart {
                        AutoRestart::False => { self.state = State::EXITED(code); },
                        AutoRestart::True => { self.state = State::BACKOFF; },
                        AutoRestart::Unexpected => { self.state = State::BACKOFF; },
                    }
                }
            }
        }
        self.child = Option::None;
        self.stop_deadline = Option::None;
        self.pending_restart = false;
    }

    /// Requests a stop. Returns the process id and the configured signal to
    /// send when a live process exists and no stop is already in flight;
    /// a stop of an instance with no live process is a no-op.
    pub fn stop(&mut self, now: u64) -> (r: Option<(u64, StopSignal)>)
        requires
            old(self).wf(),
        ensures
            final(self).wf(),
            stop_step(*old(self), *final(self), now, r),
    {
        match self.child {
            Option::Some(pid) => {
                match self.stop_deadline {
                    Option::Some(_) => Option::None,
                    Option::None => {
                        let grace = self.configuration.stop_time;
                        let deadline = if now > u64::MAX - grace as u64 {
                            u64::MAX
                        } else {
                            now + grace as u64
                        };
                        self.stop_deadline = Option::Some(deadline);
                        Option::Some((pid, self.configuration.stop_signal.clone()))
                    },
                }
            },
            Option::None => Option::None,
        }
    }

    /// One poll of a still-live process at time `now`: escalates an expired
    /// stop to a forceful kill of the returned process id, or confirms an
    /// unconfirmed start that has reached the minimum uptime.
    pub fn tick(&mut self, now: u64) -> (kill: Option<u64>)
        requires
            old(self).wf(),
        ensures
            final(self).wf(),
            tick_step(*old(self), *final(self), now, kill),
    {
        let deadline_hit = match self.stop_deadline {
            Option::Some(d) => now >= d,
            Option::None => false,
        };
        if deadline_hit {
            return self.child;
        }
        let starting = match self.state {
            State::STARTING => true,
            _ => false,
        };
        let stopping = match self.stop_deadline {
            Option::Some(_) => true,
            Option::None => false,
        };
        if starting && !stopping && now >= self.started_at
            && now - self.started_at >= self.configuration.start_time {
            self.state = State::RUNNING(self.started_at);
            self.restarts_left = self.configuration.start_retries;
        }
        Option::None
    }

    /// Installs a newly loaded description. A change that does not affect
    /// the spawned process is taken in place; a change that does, on an
    /// instance with a live process, begins a stop whose reaping owes a
    /// re-spawn under the new description.
    pub fn update_configuration(&mut self, cfg: &Configuration, now: u64) -> (sig: Option<
        (u64, StopSignal),
    >)
        requires
            old(self).wf(),
        ensures
            final(self).wf(),
            update_step(*old(self), *final(self), *cfg, now, sig),
    {
        let same = self.configuration.spawns_same_program(cfg);
        self.configuration = cfg.clone();
        if self.restarts_left > cfg.start_retries {
            self.restarts_left = cfg.start_retries;
        }
        if same {
            return Option::None;
        }
        match self.child {
            Option::Some(pid) => {
                self.pending_restart = true;
                match self.stop_deadline {
                    Option::Some(_) => Option::None,
                    Option::None => {
                        let grace = cfg.stop_time;
                        let deadline = if now > u64::MAX - grace as u64 {
                            u64::MAX
                        } else {
                            now + grace as u64
                        };
                        self.stop_deadline = Option::Some(deadline);
                        Option::Some((pid, cfg.stop_signal.clone()))
                    },
                }
            },
            Option::None => Option::None,
        }
    }

    /// Restores the full retry budget; an explicit start request begins a
    /// fresh attempt cycle.
    pub fn refill_retries(&mut self)
        requires
            old(self).wf(),
        ensures
            final(self).wf(),
            final(self).restarts_left == final(self).configuration.start_retries,
            final(self).state == old(self).state,
            final(self).child == old(self).child,
            final(self).started_at == old(self).started_at,
            final(self).stop_deadline == old(self).stop_deadline,
            final(self).pending_restart == old(self).pending_restart,
            final(self).configuration == old(self).configuration,
    {
        self.restarts_left = self.configuration.start_retries;
    }
}

/// How a lifecycle state is reported at time `now`: the state keyword,
/// with the stop time, the uptime, the exit code or the failure reason
/// where one applies.
pub open spec fn state_text(s: State, now: u64) -> Seq<char> {
    match s {
        State::STOPPED(at) => match at {
            Option::Some(t) => "stopped\tat "@ + crate::text::time_of_day_text(t as nat),
            Option::None => "stopped"@,
        },
        State::STARTING => "starting"@,
        State::RUNNING(since) => "running\tuptime "@ + crate::text::duration_text(
            if now >= since {
                (now - since) as nat
            } else {
                0
            },
        ),
        State::BACKOFF => "backoff"@,
        State::EXITED(code) => "exited\t"@ + crate::text::signed_text(code as int),
        State::FATAL(reason) => "fatal\t"@ + reason@,
        State::UNKNOWN => "unknown"@,
    }
}

impl State {
    /// Reports the state as text, rendering the uptime of a RUNNING
    /// instance against the clock reading `now`.
    pub fn describe(&self, now: u64) -> (r: String)
        ensures
            r@ == state_text(*self, now),
    {
        match self {
            State::STOPPED(at) => match at {
                Option::Some(t) => {
                    let mut out = String::from_str("stopped\tat ");
                    crate::text::append_time_of_day(&mut out, *t);
                    out
                },
                Option::None => String::from_str("stopped"),
            },
            State::STARTING => String::from_str("starting"),
            State::RUNNING(since) => {
                let elapsed: u64 = if now >= *since {
                    now - *since
                } else {
                    0
                };
                let mut out = String::from_str("running\tuptime ");
                crate::text::append_duration(&mut out, elapsed);
                out
            },
            State::BACKOFF => String::from_str("backoff"),
            State::EXITED(code) => {
                let mut out = String::from_str("exited\t");
                crate::text::append_signed(&mut out, *code);
                out
            },
            State::FATAL(reason) => {
                let mut out = String::from_str("fatal\t");
                out.append(reason.as_str());
                out
            },
            State::UNKNOWN => String::from_str("unknown"),
        }
    }
}

/// A live OS handle exists if and only if the instance is STARTING or
/// RUNNING; in every other state the handle is absent.
pub proof fn lemma_live_handle_iff_active(t: Task)
    requires
        t.wf(),
    ensures
        t.child is Some <==> (t.state is STARTING || t.state is RUNNING),
{
}

/// An exit with an expected code while RUNNING is terminal whatever the
/// restart policy: the instance ends EXITED with that code.
pub proof fn lemma_accepted_exit_is_terminal(pre: Task, post: Task, code: i32, now: u64)
    requires
        pre.wf(),
        pre.state is RUNNING,
        pre.stop_deadline is None,
        pre.accepts_code(code),
        exit_step(pre, post, code, now),
    ensures
        post.state == State::EXITED(code),
        !(post.state is BACKOFF),
{
}

/// Under restart policy `False`, an unexpected exit while RUNNING ends the
/// instance EXITED with that code; no re-spawn is ever owed to it.
pub proof fn lemma_policy_never_ends_exited(pre: Task, post: Task, code: i32, now: u64)
    requires
        pre.wf(),
        pre.state is RUNNING,
        pre.stop_deadline is None,
        pre.configuration.auto_restart == AutoRestart::False,
        exit_step(pre, post, code, now),
    ensures
        post.state == State::EXITED(code),
        !(post.state is BACKOFF),
{
}

/// Under restart policy `True`, an unexpected exit while RUNNING owes the
/// instance a re-spawn, without consuming retry budget.
pub proof fn lemma_policy_always_respawns(pre: Task, post: Task, code: i32, now: u64)
    requires
        pre.wf(),
        pre.state is RUNNING,
        pre.stop_deadline is None,
        pre.configuration.auto_restart == AutoRestart::True,
        !pre.accepts_code(code),
        exit_step(pre, post, code, now),
    ensures
        post.state is BACKOFF,
        post.restarts_left == pre.restarts_left,
{
}

/// One failed attempt cycle: the unconfirmed process exits prematurely,
/// which consumes one unit of retry budget, and a re-spawn attempt
/// immediately succeeds.
pub open spec fn failure_cycle(pre: Task, post: Task) -> bool {
    exists|mid: Task, code: i32, t1: u64, pid: u64, t2: u64|
        {
            &&& #[trigger] exit_step(pre, mid, code, t1)
            &&& mid.state is BACKOFF
            &&& #[trigger] spawn_ok_step(mid, post, pid, t2)
        }
}

/// Bounded retry, counted exactly: from an unconfirmed start with budget N,
/// each premature exit funds one BACKOFF-then-STARTING cycle, so a chain of
/// k such cycles exists only for k <= N and leaves budget N - k.
pub proof fn lemma_retry_cycles_bounded(ts: Seq<Task>)
    requires
        ts.len() >= 1,
        ts[0].wf(),
        ts[0].state is STARTING,
        ts[0].stop_deadline is None,
        forall|i: int| 0 <= i < ts.len() - 1 ==> #[trigger] failure_cycle(ts[i], ts[i + 1]),
    ensures
        ts.len() - 1 <= ts[0].restarts_left,
        ts.last().wf(),
        ts.last().state is STARTING,
        ts.last().stop_deadline is None,
        ts.last().restarts_left == ts[0].restarts_left - (ts.len() - 1),
    decreases ts.len(),
{
    if ts.len() > 1 {
        let prefix = ts.drop_last();
        assert(forall|i: int| 0 <= i < prefix.len() - 1 ==> #[trigger] failure_cycle(
            prefix[i],
            prefix[i + 1],
        )) by {
            assert(forall|i: int| 0 <= i < prefix.len() - 1 ==> prefix[i] == ts[i] && prefix[i + 1]
                == ts[i + 1] && #[trigger] failure_cycle(ts[i], ts[i + 1]));
        }
        lemma_retry_cycles_bounded(prefix);
        let n = ts.len() - 2;
        assert(failure_cycle(ts[n], ts[n + 1]));
        let (mid, code, t1, pid, t2) = choose|mid: Task, code: i32, t1: u64, pid: u64, t2: u64|
            {
                &&& #[trigger] exit_step(ts[n], mid, code, t1)
                &&& mid.state is BACKOFF
                &&& #[trigger] spawn_ok_step(mid, ts[n + 1], pid, t2)
            };
        assert(prefix.last() == ts[n]);
        assert(ts[n].state is STARTING && ts[n].stop_deadline is None);
        // a cycle out of a STARTING task reaches BACKOFF only while budget remains
        assert(ts[n].restarts_left > 0);
        assert(mid.restarts_left == ts[n].restarts_left - 1);
        assert(ts.last() == ts[n + 1]);
    }
}

/// The stop protocol, end to end: a stop of a RUNNING instance owes the
/// configured signal to its live process; if the process has not exited
/// when the grace period is over, the next poll demands a forceful kill of
/// that same process; and the reaped exit leaves the instance STOPPED at
/// the reap time, with the handle released — never STOPPED while a handle
/// is still live.
pub proof fn lemma_stop_protocol(
    pre: Task,
    stopping: Task,
    polled: Task,
    post: Task,
    t_stop: u64,
    t_poll: u64,
    code: i32,
    t_reap: u64,
    sig: Option<(u64, StopSignal)>,
    kill: Option<u64>,
)
    requires
        pre.wf(),
        pre.state is RUNNING,
        pre.stop_deadline is None,
        !pre.pending_restart,
        stop_step(pre, stopping, t_stop, sig),
        t_poll >= deadline_after(t_stop, pre.configuration.stop_time),
        tick_step(stopping, polled, t_poll, kill),
        exit_step(polled, post, code, t_reap),
    ensures
        sig == Option::Some((pre.child->0, pre.configuration.stop_signal)),
        kill == pre.child,
        post.state == State::STOPPED(Option::<u64>::Some(t_reap)),
        post.child is None,
{
}

/// Round trip of a successful start: a spawn recorded at `t_start` under a
/// zero minimum uptime, found still alive when next polled at `now`, is
/// RUNNING, and its status text reports that with the (non-negative)
/// uptime elapsed since the spawn.
pub proof fn lemma_running_after_confirmed_start(
    pre: Task,
    started: Task,
    confirmed: Task,
    pid: u64,
    t_start: u64,
    now: u64,
    kill: Option<u64>,
)
    requires
        pre.wf(),
        !pre.active(),
        pre.configuration.start_time == 0,
        spawn_ok_step(pre, started, pid, t_start),
        started.started_at == t_start,
        tick_step(started, confirmed, now, kill),
        now >= t_start,
    ensures
        confirmed.state == State::RUNNING(t_start),
        state_text(confirmed.state, now) == "running\tuptime "@ + crate::text::duration_text(
            (now - t_start) as nat,
        ),
{
}

/// While retry budget remains, a premature exit is never the end: it funds
/// a backoff, consuming exactly one unit.
pub proof fn lemma_premature_exit_with_budget_backs_off(pre: Task, post: Task, code: i32, now: u64)
    requires
        pre.wf(),
        pre.state is STARTING,
        pre.stop_deadline is None,
        pre.restarts_left > 0,
        exit_step(pre, post, code, now),
    ensures
        post.state is BACKOFF,
        !(post.state is FATAL),
        post.restarts_left == pre.restarts_left - 1,
{
}

/// Once the budget is exhausted, the next premature exit is FATAL: an
/// unconfirmed start with no retries left cannot fund another cycle.
pub proof fn lemma_budget_exhausted_is_fatal(pre: Task, post: Task, code: i32, now: u64)
    requires
        pre.wf(),
        pre.state is STARTING,
        pre.stop_deadline is None,
        pre.restarts_left == 0,
        exit_step(pre, post, code, now),
    ensures
        post.state is FATAL,
        !(post.state is BACKOFF),
{
}

} // verus!
