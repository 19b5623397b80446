//! The registry of supervised instances and the decisions of the control
//! loop: construction from loaded descriptions, reaping observed exits,
//! re-spawning, stop escalation, and the dispatch of administrative
//! actions.

use vstd::prelude::*;
use crate::api::Action;
use crate::config::Configuration;
use crate::config::StopSignal;
use crate::task::State;
use crate::task::Task;
use crate::task::exit_step;
use crate::task::spawn_failed_step;
use crate::task::spawn_ok_step;
use crate::task::state_text;
use crate::task::stop_step;
use crate::task::tick_step;
use crate::task::update_signal_due;
use crate::task::update_step;

verus! {

/// An OS effect the control loop owes the outside world. The daemon
/// performs it and reports the outcome back.
#[derive(Debug)]
pub enum Command {
    /// Attempt to spawn the replica `index` of the unit called `name`.
    Spawn { name: String, index: usize },
    /// Send `signal` to the live process `pid`.
    Signal { pid: u64, signal: StopSignal },
    /// Kill the live process `pid` forcefully.
    Kill { pid: u64 },
}

/// What a poll of a live process observed.
#[derive(Debug)]
pub enum PollEvent {
    /// The process exited with this code.
    Exited(i32),
    /// The process is still alive.
    Alive,
}

/// The named replicas of one configured unit; replica order is significant
/// and indices are stable.
#[derive(Debug)]
pub struct TaskGroup {
    /// The unit's name.
    pub name: String,
    /// One task per replica, in index order.
    pub tasks: Vec<Task>,
}

impl TaskGroup {
    /// Every replica is well-formed.
    pub open spec fn wf(&self) -> bool {
        forall|i: int| 0 <= i < self.tasks@.len() ==> (#[trigger] self.tasks@[i]).wf()
    }
}

/// The registry of all supervised instances, owner of every lifecycle
/// decision.
#[derive(Debug)]
pub struct Monitor {
    /// One group per configured unit name.
    pub groups: Vec<TaskGroup>,
}

/// What the monitor answers to one administrative action: the text for the
/// client, the OS effects owed, and whether the daemon is to shut down or
/// to reload its configuration.
#[derive(Debug)]
pub struct DispatchResult {
    /// The reply sent back to the client.
    pub response: String,
    /// The OS effects the daemon must perform.
    pub commands: Vec<Command>,
    /// The daemon is asked to terminate once the commands are done.
    pub shutdown: bool,
    /// The daemon is asked to load the configuration anew and hand it to
    /// `apply_update`.
    pub needs_reload: bool,
    /// The unit the reload is restricted to, if any.
    pub reload_target: Option<String>,
}

/// A task as registered at construction: stopped, full retry budget, no
/// live process, described by `cfg`.
pub open spec fn initial_task(t: Task, cfg: Configuration) -> bool {
    &&& t.wf()
    &&& t.state == State::STOPPED(Option::<u64>::None)
    &&& t.restarts_left == cfg.start_retries
    &&& t.child is None
    &&& t.stop_deadline is None
    &&& !t.pending_restart
    &&& t.configuration.agrees(&cfg)
}

/// A group as registered at construction: named `name`, one initial task
/// per configured replica.
pub open spec fn initial_group(grp: TaskGroup, name: String, cfg: Configuration) -> bool {
    &&& grp.name == name
    &&& grp.tasks@.len() == cfg.num_procs
    &&& forall|i: int| 0 <= i < grp.tasks@.len() ==> initial_task(#[trigger] grp.tasks@[i], cfg)
}

/// The registries `pre` and `post` hold the same names and sizes, and every
/// task but the one at group `g`, index `i` is untouched.
pub open spec fn same_but(pre: Monitor, post: Monitor, g: int, i: int) -> bool {
    &&& post.groups@.len() == pre.groups@.len()
    &&& forall|h: int| 0 <= h < pre.groups@.len() ==> (#[trigger] post.groups@[h]).name
        == pre.groups@[h].name
    &&& forall|h: int| 0 <= h < pre.groups@.len() ==> (#[trigger] post.groups@[h]).tasks@.len()
        == pre.groups@[h].tasks@.len()
    &&& forall|h: int, k: int|
        0 <= h < pre.groups@.len() && 0 <= k < pre.groups@[h].tasks@.len() && !(h == g && k == i)
            ==> post.groups@[h].tasks@[k] == pre.groups@[h].tasks@[k]
}

/// The names and sizes of `post` are those of `pre`.
pub open spec fn same_shape(pre: Monitor, post: Monitor) -> bool {
    &&& post.groups@.len() == pre.groups@.len()
    &&& forall|h: int| 0 <= h < pre.groups@.len() ==> (#[trigger] post.groups@[h]).name
        == pre.groups@[h].name
    &&& forall|h: int| 0 <= h < pre.groups@.len() ==> (#[trigger] post.groups@[h]).tasks@.len()
        == pre.groups@[h].tasks@.len()
}

/// The signal a stop request owes for a task: the configured stop signal to
/// its live process, unless none exists or a stop is already in flight.
pub open spec fn stop_signal_due(t: Task) -> Option<(u64, StopSignal)> {
    match t.child {
        Option::Some(pid) => if t.stop_deadline is None {
            Option::Some((pid, t.configuration.stop_signal))
        } else {
            Option::None
        },
        Option::None => Option::None,
    }
}

/// The kill a poll owes for a task: its live process once the grace
/// deadline of a stop in flight has passed.
pub open spec fn kill_due(t: Task, now: u64) -> Option<u64> {
    match t.stop_deadline {
        Option::Some(d) => if now >= d {
            t.child
        } else {
            Option::None
        },
        Option::None => Option::None,
    }
}

/// The stop signals owed for a whole sequence of tasks, in task order.
pub open spec fn stop_cmds_of_tasks(tasks: Seq<Task>) -> Seq<Command>
    decreases tasks.len(),
{
    if tasks.len() == 0 {
        Seq::empty()
    } else {
        stop_cmds_of_tasks(tasks.drop_last()) + (match stop_signal_due(tasks.last()) {
            Option::Some((pid, signal)) => seq![(Command::Signal { pid, signal })],
            Option::None => Seq::empty(),
        })
    }
}

/// The stop signals owed for every group, in group order.
pub open spec fn stop_cmds_of_groups(groups: Seq<TaskGroup>) -> Seq<Command>
    decreases groups.len(),
{
    if groups.len() == 0 {
        Seq::empty()
    } else {
        stop_cmds_of_groups(groups.drop_last()) + stop_cmds_of_tasks(groups.last().tasks@)
    }
}

/// The spawn attempts a start of every inactive replica of `name` owes, in
/// index order.
pub open spec fn start_cmds_of_tasks(name: String, tasks: Seq<Task>) -> Seq<Command>
    decreases tasks.len(),
{
    if tasks.len() == 0 {
        Seq::empty()
    } else {
        start_cmds_of_tasks(name, tasks.drop_last()) + (if !tasks.last().active() {
            seq![(Command::Spawn { name, index: (tasks.len() - 1) as usize })]
        } else {
            Seq::empty()
        })
    }
}

/// The spawn attempts owed at daemon startup: every inactive replica whose
/// unit asks for an automatic start, in group and index order.
pub open spec fn startup_cmds_of_tasks(name: String, tasks: Seq<Task>) -> Seq<Command>
    decreases tasks.len(),
{
    if tasks.len() == 0 {
        Seq::empty()
    } else {
        startup_cmds_of_tasks(name, tasks.drop_last()) + (if tasks.last().configuration.auto_start
            && !tasks.last().active() {
            seq![(Command::Spawn { name, index: (tasks.len() - 1) as usize })]
        } else {
            Seq::empty()
        })
    }
}

/// The spawn attempts owed at daemon startup over every group.
pub open spec fn startup_cmds_of_groups(groups: Seq<TaskGroup>) -> Seq<Command>
    decreases groups.len(),
{
    if groups.len() == 0 {
        Seq::empty()
    } else {
        startup_cmds_of_groups(groups.drop_last()) + startup_cmds_of_tasks(
            groups.last().name,
            groups.last().tasks@,
        )
    }
}

/// A task whose retry budget was restored to the configured one, everything
/// else untouched.
pub open spec fn refilled(pre: Task, post: Task) -> bool {
    &&& post.state == pre.state
    &&& post.child == pre.child
    &&& post.started_at == pre.started_at
    &&& post.stop_deadline == pre.stop_deadline
    &&& post.pending_restart == pre.pending_restart
    &&& post.configuration == pre.configuration
    &&& post.restarts_left == pre.configuration.start_retries
}

/// One reported line of status: `name:index`, a tab, and the state text.
pub open spec fn status_line(name: Seq<char>, index: nat, t: Task, now: u64) -> Seq<char> {
    name + seq![':'] + crate::text::decimal_digits(index) + seq!['\t'] + state_text(t.state, now)
        + seq!['\n']
}

/// The status lines of one group's replicas, in index order.
pub open spec fn status_of_tasks(name: Seq<char>, tasks: Seq<Task>, now: u64) -> Seq<char>
    decreases tasks.len(),
{
    if tasks.len() == 0 {
        Seq::empty()
    } else {
        status_of_tasks(name, tasks.drop_last(), now) + status_line(
            name,
            (tasks.len() - 1) as nat,
            tasks.last(),
            now,
        )
    }
}

/// The status lines of every group, in group order.
pub open spec fn status_of_groups(groups: Seq<TaskGroup>, now: u64) -> Seq<char>
    decreases groups.len(),
{
    if groups.len() == 0 {
        Seq::empty()
    } else {
        status_of_groups(groups.drop_last(), now) + status_of_tasks(
            groups.last().name@,
            groups.last().tasks@,
            now,
        )
    }
}

/// The reply when no unit has the requested name.
pub open spec fn not_found_text(name: Seq<char>) -> Seq<char> {
    name + ": not found"@
}

/// The reply when the requested replica index is out of range.
pub open spec fn invalid_index_text(name: Seq<char>, index: nat) -> Seq<char> {
    name + ": no replica with index "@ + crate::text::decimal_digits(index)
}

/// The reply acknowledging a start request.
pub open spec fn start_ack_text(name: Seq<char>) -> Seq<char> {
    "start requested for "@ + name
}

/// The reply when the targeted replica already has a live process.
pub open spec fn already_active_text(name: Seq<char>, index: nat) -> Seq<char> {
    name + seq![':'] + crate::text::decimal_digits(index) + " is already started"@
}

/// The reply acknowledging a stop request.
pub open spec fn stop_ack_text(name: Seq<char>) -> Seq<char> {
    "stop requested for "@ + name
}

/// The reply acknowledging a shutdown request.
pub open spec fn shutdown_text() -> Seq<char> {
    "shutting down"@
}

/// The reply asking the daemon to run a configuration reload.
pub open spec fn reload_text() -> Seq<char> {
    "reloading configuration"@
}

/// Builds one group: `cfg.num_procs` freshly registered replicas of `cfg`
/// under `name`.
fn replicate(name: String, cfg: Configuration) -> (grp: TaskGroup)
    ensures
        initial_group(grp, name, cfg),
{
    let mut tasks: Vec<Task> = Vec::new();
    let mut i: u32 = 0;
    while i < cfg.num_procs
        invariant
            i <= cfg.num_procs,
            tasks@.len() == i as nat,
            forall|k: int| 0 <= k < tasks@.len() ==> initial_task(#[trigger] tasks@[k], cfg),
        decreases cfg.num_procs - i,
    {
        let t = Task::new(cfg.clone());
        tasks.push(t);
        i = i + 1;
    }
    TaskGroup { name, tasks }
}

impl Monitor {
    /// Every task is well-formed and unit names are pairwise distinct.
    pub open spec fn wf(&self) -> bool {
        &&& forall|g: int| 0 <= g < self.groups@.len() ==> (#[trigger] self.groups@[g]).wf()
        &&& forall|g1: int, g2: int|
            0 <= g1 < g2 < self.groups@.len() ==> self.groups@[g1].name@ != self.groups@[g2].name@
    }

    /// Builds the registry from a loaded set of descriptions: one group per
    /// entry, in entry order, each with exactly its configured number of
    /// replicas, every replica registered stopped with its full retry
    /// budget.
    pub fn new(specs: Vec<(String, Configuration)>) -> (m: Monitor)
        requires
            forall|i: int, j: int|
                0 <= i < j < specs@.len() ==> specs@[i].0@ != specs@[j].0@,
        ensures
            m.wf(),
            m.groups@.len() == specs@.len(),
            forall|g: int|
                0 <= g < specs@.len() ==> initial_group(
                    #[trigger] m.groups@[g],
                    specs@[g].0,
                    specs@[g].1,
                ),
    {
        let ghost orig = specs@;
        let mut specs = specs;
        let mut groups: Vec<TaskGroup> = Vec::new();
        while specs.len() > 0
            invariant
                groups@.len() + specs@.len() == orig.len(),
                forall|k: int| 0 <= k < specs@.len() ==> specs@[k] == orig[groups@.len() + k],
                forall|g: int|
                    0 <= g < groups@.len() ==> initial_group(
                        #[trigger] groups@[g],
                        orig[g].0,
                        orig[g].1,
                    ),
            decreases specs.len(),
        {
            let pair = specs.remove(0);
            let grp = replicate(pair.0, pair.1);
            groups.push(grp);
        }
        proof {
            assert(forall|g1: int, g2: int|
                0 <= g1 < g2 < orig.len() ==> orig[g1].0@ != orig[g2].0@);
        }
        Monitor { groups }
    }

    /// Looks a unit up by name: the index of the uniquely named group, or
    /// nothing when no group carries the name.
    pub fn find_group(&self, name: &str) -> (r: Option<usize>)
        ensures
            r matches Some(g) ==> g < self.groups@.len() && self.groups@[g as int].name@ == name@,
            r is None ==> forall|h: int|
                0 <= h < self.groups@.len() ==> (#[trigger] self.groups@[h]).name@ != name@,
    {
        let mut g: usize = 0;
        while g < self.groups.len()
            invariant
                g <= self.groups.len(),
                forall|h: int| 0 <= h < g ==> (#[trigger] self.groups@[h]).name@ != name@,
            decreases self.groups.len() - g,
        {
            if crate::text::str_equal(self.groups[g].name.as_str(), name) {
                return Option::Some(g);
            }
            g = g + 1;
        }
        Option::None
    }

    /// The spawn attempts owed when the daemon comes up: one per replica of
    /// every unit that asks for an automatic start.
    pub fn startup(&self) -> (cmds: Vec<Command>)
        requires
            self.wf(),
        ensures
            cmds@ == startup_cmds_of_groups(self.groups@),
    {
        let mut cmds: Vec<Command> = Vec::new();
        let mut g: usize = 0;
        while g < self.groups.len()
            invariant
                self.wf(),
                g <= self.groups.len(),
                cmds@ == startup_cmds_of_groups(self.groups@.take(g as int)),
            decreases self.groups.len() - g,
        {
            let ghost before = cmds@;
            let ghost grp = self.groups@[g as int];
            let mut i: usize = 0;
            while i < self.groups[g].tasks.len()
                invariant
                    g < self.groups@.len(),
                    self.wf(),
                    grp == self.groups@[g as int],
                    i <= grp.tasks@.len(),
                    cmds@ == before + startup_cmds_of_tasks(grp.name, grp.tasks@.take(i as int)),
                decreases self.groups@[g as int].tasks@.len() - i,
            {
                proof {
                    assert(self.groups@[g as int].wf());
                    assert(grp.tasks@[i as int].wf());
                }
                let auto = self.groups[g].tasks[i].get_configuration().auto_start;
                let inactive = self.groups[g].tasks[i].pid().is_none();
                if auto && inactive {
                    cmds.push(Command::Spawn { name: self.groups[g].name.clone(), index: i });
                }
                proof {
                    assert(grp.tasks@.take(i as int + 1).drop_last() =~= grp.tasks@.take(i as int));
                    assert(grp.tasks@.take(i as int + 1).last() == grp.tasks@[i as int]);
                    assert(cmds@ =~= before + startup_cmds_of_tasks(
                        grp.name,
                        grp.tasks@.take(i as int + 1),
                    ));
                }
                i = i + 1;
            }
            proof {
                assert(grp.tasks@.take(grp.tasks@.len() as int) =~= grp.tasks@);
                assert(self.groups@.take(g as int + 1).drop_last() =~= self.groups@.take(g as int));
                assert(self.groups@.take(g as int + 1).last() == self.groups@[g as int]);
                assert(cmds@ =~= startup_cmds_of_groups(self.groups@.take(g as int + 1)));
            }
            g = g + 1;
        }
        proof {
            assert(self.groups@.take(self.groups@.len() as int) =~= self.groups@);
        }
        cmds
    }

    /// Records the outcome of a spawn attempt for replica `i` of group `g`:
    /// a live process makes the task STARTING, an OS refusal makes it FATAL.
    pub fn record_spawn_result(&mut self, g: usize, i: usize, outcome: Result<u64, String>, now: u64)
        requires
            old(self).wf(),
            g < old(self).groups@.len(),
            i < old(self).groups@[g as int].tasks@.len(),
            !old(self).groups@[g as int].tasks@[i as int].active(),
        ensures
            final(self).wf(),
            same_but(*old(self), *final(self), g as int, i as int),
            match outcome {
                Result::Ok(pid) => spawn_ok_step(
                    old(self).groups@[g as int].tasks@[i as int],
                    final(self).groups@[g as int].tasks@[i as int],
                    pid,
                    now,
                ),
                Result::Err(reason) => spawn_failed_step(
                    old(self).groups@[g as int].tasks@[i as int],
                    final(self).groups@[g as int].tasks@[i as int],
                    reason,
                ),
            },
    {
        let group = &mut self.groups[g];
        let task = &mut group.tasks[i];
        match outcome {
            Result::Ok(pid) => task.record_spawn_ok(pid, now),
            Result::Err(reason) => task.record_spawn_failure(reason),
        }
    }

    /// Records what one poll of the live process of replica `i` of group
    /// `g` observed. An exit applies the exit transition and, when the task
    /// is owed a re-spawn, asks for it at once; a still-alive process may
    /// confirm a start or, when the grace period of a stop in flight has
    /// passed, demand a forceful kill.
    pub fn record_poll(&mut self, g: usize, i: usize, event: PollEvent, now: u64) -> (cmds: Vec<
        Command,
    >)
        requires
            old(self).wf(),
            g < old(self).groups@.len(),
            i < old(self).groups@[g as int].tasks@.len(),
            old(self).groups@[g as int].tasks@[i as int].child is Some,
        ensures
            final(self).wf(),
            same_but(*old(self), *final(self), g as int, i as int),
            ({
                let pre = old(self).groups@[g as int].tasks@[i as int];
                let post = final(self).groups@[g as int].tasks@[i as int];
                match event {
                    PollEvent::Exited(code) => {
                        &&& exit_step(pre, post, code, now)
                        &&& if post.state is BACKOFF {
                            cmds@ == seq![
                                (Command::Spawn { name: old(self).groups@[g as int].name, index: i }),
                            ]
                        } else {
                            cmds@.len() == 0
                        }
                    },
                    PollEvent::Alive => {
                        &&& tick_step(pre, post, now, kill_due(pre, now))
                        &&& match kill_due(pre, now) {
                            Option::Some(pid) => cmds@ == seq![(Command::Kill { pid })],
                            Option::None => cmds@.len() == 0,
                        }
                    },
                }
            }),
    {
        let mut cmds: Vec<Command> = Vec::new();
        let group = &mut self.groups[g];
        let name = group.name.clone();
        let task = &mut group.tasks[i];
        match event {
            PollEvent::Exited(code) => {
                task.record_exit(code, now);
                if task.wants_respawn() {
                    cmds.push(Command::Spawn { name, index: i });
                }
            },
            PollEvent::Alive => {
                let kill = task.tick(now);
                match kill {
                    Option::Some(pid) => {
                        cmds.push(Command::Kill { pid });
                    },
                    Option::None => {},
                }
            },
        }
        cmds
    }
}

/// A result that answers `response` and asks for nothing else.
pub open spec fn plain_reply(r: DispatchResult, response: Seq<char>) -> bool {
    &&& r.response@ == response
    &&& r.commands@.len() == 0
    &&& !r.shutdown
    &&& !r.needs_reload
    &&& r.reload_target is None
}

/// What reporting a unit's configuration does: the registry is untouched
/// and the reply is the JSON of the named unit's description, or the
/// not-found reply when no replica carries the name.
pub open spec fn config_outcome(pre: Monitor, post: Monitor, name: String, r: DispatchResult) -> bool {
    &&& post == pre
    &&& if exists|g: int|
        0 <= g < pre.groups@.len() && (#[trigger] pre.groups@[g]).name@ == name@
            && pre.groups@[g].tasks@.len() > 0 {
        exists|g: int|
            {
                &&& 0 <= g < pre.groups@.len()
                &&& (#[trigger] pre.groups@[g]).name@ == name@
                &&& pre.groups@[g].tasks@.len() > 0
                &&& plain_reply(r, pre.groups@[g].tasks@[0].configuration.spec_json())
            }
    } else {
        plain_reply(r, not_found_text(name@))
    }
}

/// What reporting status does: the registry is untouched and the reply
/// holds one line per replica of the targeted unit, or of every unit.
pub open spec fn status_outcome(
    pre: Monitor,
    post: Monitor,
    target: Option<String>,
    now: u64,
    r: DispatchResult,
) -> bool {
    &&& post == pre
    &&& match target {
        Option::None => plain_reply(r, status_of_groups(pre.groups@, now)),
        Option::Some(name) => if exists|g: int|
            0 <= g < pre.groups@.len() && (#[trigger] pre.groups@[g]).name@ == name@ {
            exists|g: int|
                {
                    &&& 0 <= g < pre.groups@.len()
                    &&& (#[trigger] pre.groups@[g]).name@ == name@
                    &&& plain_reply(
                        r,
                        status_of_tasks(pre.groups@[g].name@, pre.groups@[g].tasks@, now),
                    )
                }
        } else {
            plain_reply(r, not_found_text(name@))
        },
    }
}

/// What a start request does: unknown names and out-of-range indices are
/// reported without any change; a replica with a live process is left
/// alone with a note; each targeted replica without one gets its retry
/// budget restored and a spawn attempt is owed for it.
pub open spec fn start_outcome(
    pre: Monitor,
    post: Monitor,
    name: String,
    idx: Option<usize>,
    r: DispatchResult,
) -> bool {
    &&& !r.shutdown
    &&& !r.needs_reload
    &&& r.reload_target is None
    &&& if exists|g: int| 0 <= g < pre.groups@.len() && (#[trigger] pre.groups@[g]).name@ == name@ {
        exists|g: int|
            {
                &&& 0 <= g < pre.groups@.len()
                &&& (#[trigger] pre.groups@[g]).name@ == name@
                &&& match idx {
                    Option::Some(i) => if i >= pre.groups@[g].tasks@.len() {
                        &&& post == pre
                        &&& plain_reply(r, invalid_index_text(name@, i as nat))
                    } else if pre.groups@[g].tasks@[i as int].active() {
                        &&& post == pre
                        &&& plain_reply(r, already_active_text(name@, i as nat))
                    } else {
                        &&& same_but(pre, post, g, i as int)
                        &&& refilled(
                            pre.groups@[g].tasks@[i as int],
                            post.groups@[g].tasks@[i as int],
                        )
                        &&& r.response@ == start_ack_text(name@)
                        &&& r.commands@ == seq![
                            (Command::Spawn { name: pre.groups@[g].name, index: i }),
                        ]
                    },
                    Option::None => {
                        &&& same_shape(pre, post)
                        &&& forall|h: int, k: int|
                            0 <= h < pre.groups@.len() && 0 <= k < pre.groups@[h].tasks@.len() && h
                                != g ==> post.groups@[h].tasks@[k] == pre.groups@[h].tasks@[k]
                        &&& forall|k: int|
                            0 <= k < pre.groups@[g].tasks@.len() ==> if (
                            #[trigger] pre.groups@[g].tasks@[k]).active() {
                                post.groups@[g].tasks@[k] == pre.groups@[g].tasks@[k]
                            } else {
                                refilled(pre.groups@[g].tasks@[k], post.groups@[g].tasks@[k])
                            }
                        &&& r.response@ == start_ack_text(name@)
                        &&& r.commands@ == start_cmds_of_tasks(
                            pre.groups@[g].name,
                            pre.groups@[g].tasks@,
                        )
                    },
                }
            }
    } else {
        &&& post == pre
        &&& plain_reply(r, not_found_text(name@))
    }
}

/// What a stop request does: unknown names and out-of-range indices are
/// reported without any change; each targeted replica undergoes the stop
/// transition, and the signals it owes are handed out.
pub open spec fn stop_outcome(
    pre: Monitor,
    post: Monitor,
    name: String,
    idx: Option<usize>,
    now: u64,
    r: DispatchResult,
) -> bool {
    &&& !r.shutdown
    &&& !r.needs_reload
    &&& r.reload_target is None
    &&& if exists|g: int| 0 <= g < pre.groups@.len() && (#[trigger] pre.groups@[g]).name@ == name@ {
        exists|g: int|
            {
                &&& 0 <= g < pre.groups@.len()
                &&& (#[trigger] pre.groups@[g]).name@ == name@
                &&& match idx {
                    Option::Some(i) => if i >= pre.groups@[g].tasks@.len() {
                        &&& post == pre
                        &&& plain_reply(r, invalid_index_text(name@, i as nat))
                    } else {
                        &&& same_but(pre, post, g, i as int)
                        &&& stop_step(
                            pre.groups@[g].tasks@[i as int],
                            post.groups@[g].tasks@[i as int],
                            now,
                            stop_signal_due(pre.groups@[g].tasks@[i as int]),
                        )
                        &&& r.response@ == stop_ack_text(name@)
                        &&& r.commands@ == (match stop_signal_due(pre.groups@[g].tasks@[i as int]) {
                            Option::Some((pid, signal)) => seq![(Command::Signal { pid, signal })],
                            Option::None => Seq::<Command>::empty(),
                        })
                    },
                    Option::None => {
                        &&& same_shape(pre, post)
                        &&& forall|h: int, k: int|
                            0 <= h < pre.groups@.len() && 0 <= k < pre.groups@[h].tasks@.len() && h
                                != g ==> post.groups@[h].tasks@[k] == pre.groups@[h].tasks@[k]
                        &&& forall|k: int|
                            0 <= k < pre.groups@[g].tasks@.len() ==> stop_step(
                                #[trigger] pre.groups@[g].tasks@[k],
                                post.groups@[g].tasks@[k],
                                now,
                                stop_signal_due(pre.groups@[g].tasks@[k]),
                            )
                        &&& r.response@ == stop_ack_text(name@)
                        &&& r.commands@ == stop_cmds_of_tasks(pre.groups@[g].tasks@)
                    },
                }
            }
    } else {
        &&& post == pre
        &&& plain_reply(r, not_found_text(name@))
    }
}

/// What a shutdown request does: every replica of every unit undergoes the
/// stop transition, every owed signal is handed out, and the daemon is
/// asked to terminate.
pub open spec fn shutdown_outcome(pre: Monitor, post: Monitor, now: u64, r: DispatchResult) -> bool {
    &&& same_shape(pre, post)
    &&& forall|h: int, k: int|
        0 <= h < pre.groups@.len() && 0 <= k < pre.groups@[h].tasks@.len() ==> stop_step(
            #[trigger] pre.groups@[h].tasks@[k],
            post.groups@[h].tasks@[k],
            now,
            stop_signal_due(pre.groups@[h].tasks@[k]),
        )
    &&& r.commands@ == stop_cmds_of_groups(pre.groups@)
    &&& r.response@ == shutdown_text()
    &&& r.shutdown
    &&& !r.needs_reload
    &&& r.reload_target is None
}

/// What an update request does at dispatch: nothing changes yet; the
/// daemon is asked to run the external loader and hand the result to the
/// reload step, restricted to the named unit if one was given.
pub open spec fn update_outcome(
    pre: Monitor,
    post: Monitor,
    target: Option<String>,
    r: DispatchResult,
) -> bool {
    &&& post == pre
    &&& r.response@ == reload_text()
    &&& r.commands@.len() == 0
    &&& !r.shutdown
    &&& r.needs_reload
    &&& r.reload_target == target
}

/// What dispatching one action does, by action.
pub open spec fn dispatch_outcome(
    pre: Monitor,
    post: Monitor,
    action: Action,
    now: u64,
    r: DispatchResult,
) -> bool {
    match action {
        Action::Config(name) => config_outcome(pre, post, name, r),
        Action::Update(target) => update_outcome(pre, post, target, r),
        Action::Status(target) => status_outcome(pre, post, target, now, r),
        Action::Start(name, idx) => start_outcome(pre, post, name, idx, r),
        Action::Stop(name, idx) => stop_outcome(pre, post, name, idx, now, r),
        Action::Shutdown => shutdown_outcome(pre, post, now, r),
    }
}

/// The reply when the external configuration loader could not provide a
/// loaded set.
pub open spec fn loader_unavailable_text() -> Seq<char> {
    "configuration loader unavailable"@
}

/// The reply acknowledging an applied configuration reload.
pub open spec fn updated_text() -> Seq<char> {
    "configuration updated"@
}

/// The first description under `name` in a loaded set.
pub open spec fn lookup_spec(specs: Seq<(String, Configuration)>, name: Seq<char>) -> Option<
    Configuration,
>
    decreases specs.len(),
{
    if specs.len() == 0 {
        Option::None
    } else if specs[0].0@ == name {
        Option::Some(specs[0].1)
    } else {
        lookup_spec(specs.skip(1), name)
    }
}

/// Whether a reload restricted to `target` touches the unit called `name`.
pub open spec fn target_matches(target: Option<String>, name: Seq<char>) -> bool {
    match target {
        Option::None => true,
        Option::Some(t) => t@ == name,
    }
}

/// The stop signals a reload owes for one group's tasks under the new
/// description `cfg`, in index order.
pub open spec fn update_cmds_of_tasks(tasks: Seq<Task>, cfg: Configuration) -> Seq<Command>
    decreases tasks.len(),
{
    if tasks.len() == 0 {
        Seq::empty()
    } else {
        update_cmds_of_tasks(tasks.drop_last(), cfg) + (match update_signal_due(
            tasks.last(),
            cfg,
        ) {
            Option::Some((pid, signal)) => seq![(Command::Signal { pid, signal })],
            Option::None => Seq::empty(),
        })
    }
}

/// The stop signals a reload owes over every group it touches, in group
/// and index order.
pub open spec fn update_cmds_of_groups(
    groups: Seq<TaskGroup>,
    specs: Seq<(String, Configuration)>,
    target: Option<String>,
) -> Seq<Command>
    decreases groups.len(),
{
    if groups.len() == 0 {
        Seq::empty()
    } else {
        update_cmds_of_groups(groups.drop_last(), specs, target) + (if target_matches(
            target,
            groups.last().name@,
        ) {
            match lookup_spec(specs, groups.last().name@) {
                Option::Some(cfg) => update_cmds_of_tasks(groups.last().tasks@, cfg),
                Option::None => Seq::empty(),
            }
        } else {
            Seq::empty()
        })
    }
}

/// Every task of the group took the new description `cfg` through the
/// update transition.
pub open spec fn group_updated(pre: TaskGroup, post: TaskGroup, cfg: Configuration, now: u64) -> bool {
    &&& post.name == pre.name
    &&& post.tasks@.len() == pre.tasks@.len()
    &&& forall|k: int|
        0 <= k < pre.tasks@.len() ==> update_step(
            #[trigger] pre.tasks@[k],
            post.tasks@[k],
            cfg,
            now,
            update_signal_due(pre.tasks@[k], cfg),
        )
}

/// What applying a reload does: with no loaded set, nothing changes and
/// the loader's unavailability is reported; with one, every targeted group
/// whose name the set describes takes the new description, every other
/// group is untouched, and the owed stop signals are handed out.
pub open spec fn reload_outcome(
    pre: Monitor,
    post: Monitor,
    target: Option<String>,
    loaded: Option<Vec<(String, Configuration)>>,
    now: u64,
    r: DispatchResult,
) -> bool {
    match loaded {
        Option::None => {
            &&& post == pre
            &&& plain_reply(r, loader_unavailable_text())
        },
        Option::Some(specs) => {
            &&& same_shape(pre, post)
            &&& forall|g: int|
                0 <= g < pre.groups@.len() ==> {
                    if target_matches(target, (#[trigger] pre.groups@[g]).name@) && lookup_spec(
                        specs@,
                        pre.groups@[g].name@,
                    ) is Some {
                        group_updated(
                            pre.groups@[g],
                            post.groups@[g],
                            lookup_spec(specs@, pre.groups@[g].name@)->0,
                            now,
                        )
                    } else {
                        post.groups@[g] == pre.groups@[g]
                    }
                }
            &&& r.commands@ == update_cmds_of_groups(pre.groups@, specs@, target)
            &&& r.response@ == updated_text()
            &&& !r.shutdown
            &&& !r.needs_reload
            &&& r.reload_target is None
        },
    }
}

/// Builds the not-found reply for `name`.
fn not_found_response(name: &str) -> (r: String)
    ensures
        r@ == not_found_text(name@),
{
    let mut out = String::from_str(name);
    out.append(": not found");
    out
}

/// Builds the out-of-range reply for replica `i` of `name`.
fn invalid_index_response(name: &str, i: usize) -> (r: String)
    ensures
        r@ == invalid_index_text(name@, i as nat),
{
    let mut out = String::from_str(name);
    out.append(": no replica with index ");
    crate::text::append_decimal(&mut out, i as u64);
    proof {
        assert(out@ =~= invalid_index_text(name@, i as nat));
    }
    out
}

/// Builds the already-started note for replica `i` of `name`.
fn already_active_response(name: &str, i: usize) -> (r: String)
    ensures
        r@ == already_active_text(name@, i as nat),
{
    let mut out = String::from_str(name);
    out.push(':');
    crate::text::append_decimal(&mut out, i as u64);
    out.append(" is already started");
    proof {
        assert(out@ =~= already_active_text(name@, i as nat));
    }
    out
}

/// Builds the start acknowledgement for `name`.
fn start_ack_response(name: &str) -> (r: String)
    ensures
        r@ == start_ack_text(name@),
{
    let mut out = String::from_str("start requested for ");
    out.append(name);
    out
}

/// Builds the stop acknowledgement for `name`.
fn stop_ack_response(name: &str) -> (r: String)
    ensures
        r@ == stop_ack_text(name@),
{
    let mut out = String::from_str("stop requested for ");
    out.append(name);
    out
}

/// Starts every replica of one group that has no live process: restores
/// its retry budget and collects the owed spawn attempts, in index order.
fn start_group(grp: &mut TaskGroup) -> (cmds: Vec<Command>)
    requires
        old(grp).wf(),
    ensures
        final(grp).wf(),
        final(grp).name == old(grp).name,
        final(grp).tasks@.len() == old(grp).tasks@.len(),
        forall|k: int|
            0 <= k < old(grp).tasks@.len() ==> if (#[trigger] old(grp).tasks@[k]).active() {
                final(grp).tasks@[k] == old(grp).tasks@[k]
            } else {
                refilled(old(grp).tasks@[k], final(grp).tasks@[k])
            },
        cmds@ == start_cmds_of_tasks(old(grp).name, old(grp).tasks@),
{
    let mut cmds: Vec<Command> = Vec::new();
    let mut j: usize = 0;
    let n = grp.tasks.len();
    while j < n
        invariant
            j <= n,
            n == grp.tasks@.len(),
            grp.tasks@.len() == old(grp).tasks@.len(),
            grp.name == old(grp).name,
            forall|k: int| j <= k < n ==> grp.tasks@[k] == old(grp).tasks@[k],
            forall|k: int|
                0 <= k < j ==> if (#[trigger] old(grp).tasks@[k]).active() {
                    grp.tasks@[k] == old(grp).tasks@[k]
                } else {
                    refilled(old(grp).tasks@[k], grp.tasks@[k])
                },
            forall|k: int| 0 <= k < j ==> (#[trigger] grp.tasks@[k]).wf(),
            forall|k: int| 0 <= k < old(grp).tasks@.len() ==> (#[trigger] old(grp).tasks@[k]).wf(),
            cmds@ == start_cmds_of_tasks(old(grp).name, old(grp).tasks@.take(j as int)),
        decreases n - j,
    {
        let name = grp.name.clone();
        let inactive = grp.tasks[j].pid().is_none();
        if inactive {
            let task = &mut grp.tasks[j];
            task.refill_retries();
            cmds.push(Command::Spawn { name, index: j });
        }
        proof {
            assert(old(grp).tasks@.take(j as int + 1).drop_last() =~= old(grp).tasks@.take(
                j as int,
            ));
            assert(old(grp).tasks@.take(j as int + 1).last() == old(grp).tasks@[j as int]);
            assert(cmds@ =~= start_cmds_of_tasks(
                old(grp).name,
                old(grp).tasks@.take(j as int + 1),
            ));
        }
        j = j + 1;
    }
    proof {
        assert(old(grp).tasks@.take(old(grp).tasks@.len() as int) =~= old(grp).tasks@);
    }
    cmds
}

/// Stops every replica of one group: applies the stop transition and
/// collects the owed signals, in index order.
fn stop_group(grp: &mut TaskGroup, now: u64) -> (cmds: Vec<Command>)
    requires
        old(grp).wf(),
    ensures
        final(grp).wf(),
        final(grp).name == old(grp).name,
        final(grp).tasks@.len() == old(grp).tasks@.len(),
        forall|k: int|
            0 <= k < old(grp).tasks@.len() ==> stop_step(
                #[trigger] old(grp).tasks@[k],
                final(grp).tasks@[k],
                now,
                stop_signal_due(old(grp).tasks@[k]),
            ),
        cmds@ == stop_cmds_of_tasks(old(grp).tasks@),
{
    let mut cmds: Vec<Command> = Vec::new();
    let mut j: usize = 0;
    let n = grp.tasks.len();
    while j < n
        invariant
            j <= n,
            n == grp.tasks@.len(),
            grp.tasks@.len() == old(grp).tasks@.len(),
            grp.name == old(grp).name,
            forall|k: int| j <= k < n ==> grp.tasks@[k] == old(grp).tasks@[k],
            forall|k: int|
                0 <= k < j ==> stop_step(
                    #[trigger] old(grp).tasks@[k],
                    grp.tasks@[k],
                    now,
                    stop_signal_due(old(grp).tasks@[k]),
                ),
            forall|k: int| 0 <= k < j ==> (#[trigger] grp.tasks@[k]).wf(),
            forall|k: int| 0 <= k < old(grp).tasks@.len() ==> (#[trigger] old(grp).tasks@[k]).wf(),
            cmds@ == stop_cmds_of_tasks(old(grp).tasks@.take(j as int)),
        decreases n - j,
    {
        let task = &mut grp.tasks[j];
        let due = task.stop(now);
        match due {
            Option::Some((pid, signal)) => {
                cmds.push(Command::Signal { pid, signal });
            },
            Option::None => {},
        }
        proof {
            assert(old(grp).tasks@.take(j as int + 1).drop_last() =~= old(grp).tasks@.take(
                j as int,
            ));
            assert(old(grp).tasks@.take(j as int + 1).last() == old(grp).tasks@[j as int]);
            assert(cmds@ =~= stop_cmds_of_tasks(old(grp).tasks@.take(j as int + 1)));
        }
        j = j + 1;
    }
    proof {
        assert(old(grp).tasks@.take(old(grp).tasks@.len() as int) =~= old(grp).tasks@);
    }
    cmds
}

/// Installs the new description `cfg` on every replica of one group,
/// collecting the stop signals owed for replicas that must be cycled onto
/// it, in index order.
fn update_group(grp: &mut TaskGroup, cfg: &Configuration, now: u64) -> (cmds: Vec<Command>)
    requires
        old(grp).wf(),
    ensures
        final(grp).wf(),
        group_updated(*old(grp), *final(grp), *cfg, now),
        cmds@ == update_cmds_of_tasks(old(grp).tasks@, *cfg),
{
    let mut cmds: Vec<Command> = Vec::new();
    let mut j: usize = 0;
    let n = grp.tasks.len();
    while j < n
        invariant
            j <= n,
            n == grp.tasks@.len(),
            grp.tasks@.len() == old(grp).tasks@.len(),
            grp.name == old(grp).name,
            forall|k: int| j <= k < n ==> grp.tasks@[k] == old(grp).tasks@[k],
            forall|k: int|
                0 <= k < j ==> update_step(
                    #[trigger] old(grp).tasks@[k],
                    grp.tasks@[k],
                    *cfg,
                    now,
                    update_signal_due(old(grp).tasks@[k], *cfg),
                ),
            forall|k: int| 0 <= k < j ==> (#[trigger] grp.tasks@[k]).wf(),
            forall|k: int| 0 <= k < old(grp).tasks@.len() ==> (#[trigger] old(grp).tasks@[k]).wf(),
            cmds@ == update_cmds_of_tasks(old(grp).tasks@.take(j as int), *cfg),
        decreases n - j,
    {
        let task = &mut grp.tasks[j];
        let due = task.update_configuration(cfg, now);
        match due {
            Option::Some((pid, signal)) => {
                cmds.push(Command::Signal { pid, signal });
            },
            Option::None => {},
        }
        proof {
            assert(old(grp).tasks@.take(j as int + 1).drop_last() =~= old(grp).tasks@.take(
                j as int,
            ));
            assert(old(grp).tasks@.take(j as int + 1).last() == old(grp).tasks@[j as int]);
            assert(cmds@ =~= update_cmds_of_tasks(old(grp).tasks@.take(j as int + 1), *cfg));
        }
        j = j + 1;
    }
    proof {
        assert(old(grp).tasks@.take(old(grp).tasks@.len() as int) =~= old(grp).tasks@);
    }
    cmds
}

/// Finds the first description under `name` in a loaded set.
fn find_spec(specs: &Vec<(String, Configuration)>, name: &str) -> (r: Option<usize>)
    ensures
        match r {
            Option::Some(k) => k < specs@.len() && specs@[k as int].0@ == name@ && lookup_spec(
                specs@,
                name@,
            ) == Option::Some(specs@[k as int].1),
            Option::None => lookup_spec(specs@, name@) is None,
        },
{
    let mut k: usize = 0;
    proof {
        assert(specs@.skip(0) =~= specs@);
    }
    while k < specs.len()
        invariant
            k <= specs@.len(),
            lookup_spec(specs@, name@) == lookup_spec(specs@.skip(k as int), name@),
            forall|j: int| 0 <= j < k ==> (#[trigger] specs@[j]).0@ != name@,
        decreases specs@.len() - k,
    {
        proof {
            assert(specs@.skip(k as int)[0] == specs@[k as int]);
        }
        if crate::text::str_equal(specs[k].0.as_str(), name) {
            return Option::Some(k);
        }
        proof {
            assert(specs@.skip(k as int).skip(1) =~= specs@.skip(k as int + 1));
        }
        k = k + 1;
    }
    proof {
        assert(specs@.skip(specs@.len() as int).len() == 0);
    }
    Option::None
}

impl Monitor {
    /// Applies a configuration reload: hands every targeted unit that the
    /// freshly loaded set describes its new description, cycling replicas
    /// whose spawned process would differ. With no loaded set — the
    /// external loader failed — nothing changes and the failure is
    /// reported; every unit keeps its prior description.
    pub fn apply_update(
        &mut self,
        target: Option<String>,
        loaded: Option<Vec<(String, Configuration)>>,
        now: u64,
    ) -> (r: DispatchResult)
        requires
            old(self).wf(),
        ensures
            final(self).wf(),
            reload_outcome(*old(self), *final(self), target, loaded, now, r),
    {
        let specs = match loaded {
            Option::None => {
                return DispatchResult {
                    response: String::from_str("configuration loader unavailable"),
                    commands: Vec::new(),
                    shutdown: false,
                    needs_reload: false,
                    reload_target: Option::None,
                };
            },
            Option::Some(specs) => specs,
        };
        let mut commands: Vec<Command> = Vec::new();
        let mut g: usize = 0;
        let n = self.groups.len();
        while g < n
            invariant
                g <= n,
                n == self.groups@.len(),
                self.groups@.len() == old(self).groups@.len(),
                forall|h: int| g <= h < n ==> self.groups@[h] == old(self).groups@[h],
                forall|h: int|
                    0 <= h < g ==> (#[trigger] self.groups@[h]).name == old(self).groups@[h].name,
                forall|h: int|
                    0 <= h < g ==> (#[trigger] self.groups@[h]).tasks@.len()
                        == old(self).groups@[h].tasks@.len(),
                forall|h: int|
                    0 <= h < g ==> {
                        if target_matches(target, (#[trigger] old(self).groups@[h]).name@)
                            && lookup_spec(specs@, old(self).groups@[h].name@) is Some {
                            group_updated(
                                old(self).groups@[h],
                                self.groups@[h],
                                lookup_spec(specs@, old(self).groups@[h].name@)->0,
                                now,
                            )
                        } else {
                            self.groups@[h] == old(self).groups@[h]
                        }
                    },
                forall|h: int| 0 <= h < g ==> (#[trigger] self.groups@[h]).wf(),
                forall|h: int|
                    0 <= h < old(self).groups@.len() ==> (#[trigger] old(self).groups@[h]).wf(),
                commands@ == update_cmds_of_groups(old(self).groups@.take(g as int), specs@, target),
            decreases n - g,
        {
            let touched = match &target {
                Option::None => true,
                Option::Some(t) => crate::text::str_equal(t.as_str(), self.groups[g].name.as_str()),
            };
            if touched {
                let found = find_spec(&specs, self.groups[g].name.as_str());
                match found {
                    Option::Some(k) => {
                        let group = &mut self.groups[g];
                        let mut cmds = update_group(group, &specs[k].1, now);
                        commands.append(&mut cmds);
                    },
                    Option::None => {},
                }
            }
            proof {
                assert(old(self).groups@.take(g as int + 1).drop_last() =~= old(
                    self,
                ).groups@.take(g as int));
                assert(old(self).groups@.take(g as int + 1).last() == old(self).groups@[g as int]);
                assert(commands@ =~= update_cmds_of_groups(
                    old(self).groups@.take(g as int + 1),
                    specs@,
                    target,
                ));
            }
            g = g + 1;
        }
        proof {
            assert(old(self).groups@.take(old(self).groups@.len() as int) =~= old(self).groups@);
        }
        DispatchResult {
            response: String::from_str("configuration updated"),
            commands,
            shutdown: false,
            needs_reload: false,
            reload_target: Option::None,
        }
    }

    /// Renders one status line per replica of group `g`.
    fn status_of_group(&self, g: usize, now: u64) -> (r: String)
        requires
            g < self.groups@.len(),
        ensures
            r@ == status_of_tasks(self.groups@[g as int].name@, self.groups@[g as int].tasks@, now),
    {
        let mut out = String::new();
        let mut i: usize = 0;
        let ghost name = self.groups@[g as int].name@;
        let ghost tasks = self.groups@[g as int].tasks@;
        while i < self.groups[g].tasks.len()
            invariant
                g < self.groups@.len(),
                name == self.groups@[g as int].name@,
                tasks == self.groups@[g as int].tasks@,
                i <= tasks.len(),
                out@ == status_of_tasks(name, tasks.take(i as int), now),
            decreases self.groups@[g as int].tasks@.len() - i,
        {
            out.append(self.groups[g].name.as_str());
            out.push(':');
            crate::text::append_decimal(&mut out, i as u64);
            out.push('\t');
            let line = self.groups[g].tasks[i].get_state().describe(now);
            out.append(line.as_str());
            out.push('\n');
            proof {
                assert(tasks.take(i as int + 1).drop_last() =~= tasks.take(i as int));
                assert(tasks.take(i as int + 1).last() == tasks[i as int]);
                assert(out@ =~= status_of_tasks(name, tasks.take(i as int + 1), now));
            }
            i = i + 1;
        }
        proof {
            assert(tasks.take(tasks.len() as int) =~= tasks);
        }
        out
    }

    /// Serves one administrative action at time `now`, answering the client
    /// and collecting the OS effects the decision owes.
    pub fn dispatch(&mut self, action: Action, now: u64) -> (r: DispatchResult)
        requires
            old(self).wf(),
        ensures
            final(self).wf(),
            dispatch_outcome(*old(self), *final(self), action, now, r),
    {
        match action {
            Action::Config(name) => self.config_action(name),
            Action::Update(target) => DispatchResult {
                response: String::from_str("reloading configuration"),
                commands: Vec::new(),
                shutdown: false,
                needs_reload: true,
                reload_target: target,
            },
            Action::Status(target) => self.status_action(target, now),
            Action::Start(name, idx) => self.start_action(name, idx),
            Action::Stop(name, idx) => self.stop_action(name, idx, now),
            Action::Shutdown => self.shutdown_action(now),
        }
    }

    /// Serves a configuration report.
    fn config_action(&mut self, name: String) -> (r: DispatchResult)
        requires
            old(self).wf(),
        ensures
            final(self).wf(),
            config_outcome(*old(self), *final(self), name, r),
    {
        let found = self.find_group(name.as_str());
        let response = match found {
            Option::Some(g) => if self.groups[g].tasks.len() > 0 {
                self.groups[g].tasks[0].get_json_configuration()
            } else {
                not_found_response(name.as_str())
            },
            Option::None => not_found_response(name.as_str()),
        };
        DispatchResult {
            response,
            commands: Vec::new(),
            shutdown: false,
            needs_reload: false,
            reload_target: Option::None,
        }
    }

    /// Serves a status report.
    fn status_action(&mut self, target: Option<String>, now: u64) -> (r: DispatchResult)
        requires
            old(self).wf(),
        ensures
            final(self).wf(),
            status_outcome(*old(self), *final(self), target, now, r),
    {
        let response = match &target {
            Option::None => {
                let mut out = String::new();
                let mut g: usize = 0;
                while g < self.groups.len()
                    invariant
                        g <= self.groups@.len(),
                        out@ == status_of_groups(self.groups@.take(g as int), now),
                    decreases self.groups@.len() - g,
                {
                    let part = self.status_of_group(g, now);
                    out.append(part.as_str());
                    proof {
                        assert(self.groups@.take(g as int + 1).drop_last() =~= self.groups@.take(
                            g as int,
                        ));
                        assert(self.groups@.take(g as int + 1).last() == self.groups@[g as int]);
                        assert(out@ =~= status_of_groups(self.groups@.take(g as int + 1), now));
                    }
                    g = g + 1;
                }
                proof {
                    assert(self.groups@.take(self.groups@.len() as int) =~= self.groups@);
                }
                out
            },
            Option::Some(name) => {
                let found = self.find_group(name.as_str());
                match found {
                    Option::Some(g) => self.status_of_group(g, now),
                    Option::None => not_found_response(name.as_str()),
                }
            },
        };
        DispatchResult {
            response,
            commands: Vec::new(),
            shutdown: false,
            needs_reload: false,
            reload_target: Option::None,
        }
    }

    /// Serves a start request.
    fn start_action(&mut self, name: String, idx: Option<usize>) -> (r: DispatchResult)
        requires
            old(self).wf(),
        ensures
            final(self).wf(),
            start_outcome(*old(self), *final(self), name, idx, r),
    {
        let found = self.find_group(name.as_str());
        match found {
            Option::None => DispatchResult {
                response: not_found_response(name.as_str()),
                commands: Vec::new(),
                shutdown: false,
                needs_reload: false,
                reload_target: Option::None,
            },
            Option::Some(g) => {
                match idx {
                    Option::Some(i) => {
                        if i >= self.groups[g].tasks.len() {
                            return DispatchResult {
                                response: invalid_index_response(name.as_str(), i),
                                commands: Vec::new(),
                                shutdown: false,
                                needs_reload: false,
                                reload_target: Option::None,
                            };
                        }
                        let active = self.groups[g].tasks[i].pid().is_some();
                        proof {
                            assert(self.groups@[g as int].wf());
                            assert(self.groups@[g as int].tasks@[i as int].wf());
                        }
                        if active {
                            return DispatchResult {
                                response: already_active_response(name.as_str(), i),
                                commands: Vec::new(),
                                shutdown: false,
                                needs_reload: false,
                                reload_target: Option::None,
                            };
                        }
                        let spawn_name = self.groups[g].name.clone();
                        let group = &mut self.groups[g];
                        let task = &mut group.tasks[i];
                        task.refill_retries();
                        let mut commands: Vec<Command> = Vec::new();
                        commands.push(Command::Spawn { name: spawn_name, index: i });
                        DispatchResult {
                            response: start_ack_response(name.as_str()),
                            commands,
                            shutdown: false,
                            needs_reload: false,
                            reload_target: Option::None,
                        }
                    },
                    Option::None => {
                        let group = &mut self.groups[g];
                        let commands = start_group(group);
                        DispatchResult {
                            response: start_ack_response(name.as_str()),
                            commands,
                            shutdown: false,
                            needs_reload: false,
                            reload_target: Option::None,
                        }
                    },
                }
            },
        }
    }

    /// Serves a stop request.
    fn stop_action(&mut self, name: String, idx: Option<usize>, now: u64) -> (r: DispatchResult)
        requires
            old(self).wf(),
        ensures
            final(self).wf(),
            stop_outcome(*old(self), *final(self), name, idx, now, r),
    {
        let found = self.find_group(name.as_str());
        match found {
            Option::None => DispatchResult {
                response: not_found_response(name.as_str()),
                commands: Vec::new(),
                shutdown: false,
                needs_reload: false,
                reload_target: Option::None,
            },
            Option::Some(g) => {
                match idx {
                    Option::Some(i) => {
                        if i >= self.groups[g].tasks.len() {
                            return DispatchResult {
                                response: invalid_index_response(name.as_str(), i),
                                commands: Vec::new(),
                                shutdown: false,
                                needs_reload: false,
                                reload_target: Option::None,
                            };
                        }
                        proof {
                            assert(self.groups@[g as int].wf());
                            assert(self.groups@[g as int].tasks@[i as int].wf());
                        }
                        let group = &mut self.groups[g];
                        let task = &mut group.tasks[i];
                        let due = task.stop(now);
                        let mut commands: Vec<Command> = Vec::new();
                        match due {
                            Option::Some((pid, signal)) => {
                                commands.push(Command::Signal { pid, signal });
                            },
                            Option::None => {},
                        }
                        DispatchResult {
                            response: stop_ack_response(name.as_str()),
                            commands,
                            shutdown: false,
                            needs_reload: false,
                            reload_target: Option::None,
                        }
                    },
                    Option::None => {
                        let group = &mut self.groups[g];
                        let commands = stop_group(group, now);
                        DispatchResult {
                            response: stop_ack_response(name.as_str()),
                            commands,
                            shutdown: false,
                            needs_reload: false,
                            reload_target: Option::None,
                        }
                    },
                }
            },
        }
    }

    /// Serves a shutdown request: stops everything and asks the daemon to
    /// terminate.
    fn shutdown_action(&mut self, now: u64) -> (r: DispatchResult)
        requires
            old(self).wf(),
        ensures
            final(self).wf(),
            shutdown_outcome(*old(self), *final(self), now, r),
    {
        let mut commands: Vec<Command> = Vec::new();
        let mut g: usize = 0;
        let n = self.groups.len();
        while g < n
            invariant
                g <= n,
                n == self.groups@.len(),
                self.groups@.len() == old(self).groups@.len(),
                forall|h: int| g <= h < n ==> self.groups@[h] == old(self).groups@[h],
                forall|h: int|
                    0 <= h < g ==> (#[trigger] self.groups@[h]).name == old(self).groups@[h].name,
                forall|h: int|
                    0 <= h < g ==> (#[trigger] self.groups@[h]).tasks@.len()
                        == old(self).groups@[h].tasks@.len(),
                forall|h: int, k: int|
                    0 <= h < g && 0 <= k < old(self).groups@[h].tasks@.len() ==> stop_step(
                        #[trigger] old(self).groups@[h].tasks@[k],
                        self.groups@[h].tasks@[k],
                        now,
                        stop_signal_due(old(self).groups@[h].tasks@[k]),
                    ),
                forall|h: int| 0 <= h < g ==> (#[trigger] self.groups@[h]).wf(),
                forall|h: int|
                    0 <= h < old(self).groups@.len() ==> (#[trigger] old(self).groups@[h]).wf(),
                commands@ == stop_cmds_of_groups(old(self).groups@.take(g as int)),
            decreases n - g,
        {
            let group = &mut self.groups[g];
            let mut cmds = stop_group(group, now);
            commands.append(&mut cmds);
            proof {
                assert(old(self).groups@.take(g as int + 1).drop_last() =~= old(
                    self,
                ).groups@.take(g as int));
                assert(old(self).groups@.take(g as int + 1).last() == old(self).groups@[g as int]);
                assert(commands@ =~= stop_cmds_of_groups(old(self).groups@.take(g as int + 1)));
            }
            g = g + 1;
        }
        proof {
            assert(old(self).groups@.take(old(self).groups@.len() as int) =~= old(self).groups@);
        }
        DispatchResult {
            response: String::from_str("shutting down"),
            commands,
            shutdown: true,
            needs_reload: false,
            reload_target: Option::None,
        }
    }
}

} // verus!
