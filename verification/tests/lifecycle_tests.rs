use taskmaster::api::Action;
use taskmaster::api::handle_request;
use taskmaster::config::AutoRestart;
use taskmaster::config::Configuration;
use taskmaster::config::StopSignal;
use taskmaster::monitor::Command;
use taskmaster::monitor::Monitor;
use taskmaster::monitor::PollEvent;
use taskmaster::task::State;
use taskmaster::task::Task;

fn cfg(cmd: &str) -> Configuration {
    let mut c = Configuration::default();
    c.cmd = String::from(cmd);
    c
}

fn single(name: &str, c: Configuration) -> Monitor {
    Monitor::new(vec![(name.to_string(), c)])
}

fn state_of(m: &Monitor, g: usize, i: usize) -> State {
    match m.groups[g].tasks[i].get_state() {
        State::STOPPED(at) => State::STOPPED(*at),
        State::STARTING => State::STARTING,
        State::RUNNING(s) => State::RUNNING(*s),
        State::BACKOFF => State::BACKOFF,
        State::EXITED(c) => State::EXITED(*c),
        State::FATAL(r) => State::FATAL(r.clone()),
        State::UNKNOWN => State::UNKNOWN,
    }
}

#[test]
fn handle_exists_iff_starting_or_running() {
    let mut t = Task::new(cfg("sleep 5"));
    assert!(t.pid().is_none());
    t.record_spawn_ok(41, 0);
    assert!(matches!(t.get_state(), State::STARTING));
    assert_eq!(t.pid(), Some(41));
    t.tick(5);
    assert!(matches!(t.get_state(), State::RUNNING(_)));
    assert_eq!(t.pid(), Some(41));
    t.record_exit(0, 6);
    assert!(matches!(t.get_state(), State::EXITED(0)));
    assert!(t.pid().is_none());
}

#[test]
fn premature_exits_consume_budget_then_fatal() {
    // retry budget 2, minimum uptime 5, restart on unexpected, code 0 accepted:
    // a process that ends at once funds exactly two backoff cycles
    let mut c = cfg("true");
    c.start_retries = 2;
    c.start_time = 5;
    c.auto_restart = AutoRestart::Unexpected;
    c.exit_codes = vec![0];
    let mut m = single("t", c);

    let r = m.dispatch(Action::Start("t".to_string(), None), 0);
    assert!(matches!(r.commands[0], Command::Spawn { index: 0, .. }));

    let mut trace = Vec::new();
    m.record_spawn_result(0, 0, Ok(100), 0);
    trace.push(state_of(&m, 0, 0));
    let c1 = m.record_poll(0, 0, PollEvent::Exited(0), 1);
    trace.push(state_of(&m, 0, 0));
    assert!(matches!(c1[0], Command::Spawn { index: 0, .. }));

    m.record_spawn_result(0, 0, Ok(101), 1);
    trace.push(state_of(&m, 0, 0));
    let c2 = m.record_poll(0, 0, PollEvent::Exited(0), 2);
    trace.push(state_of(&m, 0, 0));
    assert!(matches!(c2[0], Command::Spawn { index: 0, .. }));

    m.record_spawn_result(0, 0, Ok(102), 2);
    trace.push(state_of(&m, 0, 0));
    let c3 = m.record_poll(0, 0, PollEvent::Exited(0), 3);
    trace.push(state_of(&m, 0, 0));
    assert!(c3.is_empty());

    assert!(matches!(trace[0], State::STARTING));
    assert!(matches!(trace[1], State::BACKOFF));
    assert!(matches!(trace[2], State::STARTING));
    assert!(matches!(trace[3], State::BACKOFF));
    assert!(matches!(trace[4], State::STARTING));
    assert!(matches!(trace[5], State::FATAL(_)));
}

#[test]
fn budget_zero_goes_fatal_on_first_premature_exit() {
    let mut c = cfg("true");
    c.start_retries = 0;
    c.start_time = 5;
    let mut t = Task::new(c);
    t.record_spawn_ok(7, 0);
    t.record_exit(0, 1);
    match t.get_state() {
        State::FATAL(reason) => assert_eq!(reason, "retry budget exhausted"),
        other => panic!("expected FATAL, got {:?}", other),
    }
}

#[test]
fn policy_never_ends_exited_and_never_respawns() {
    let mut c = cfg("worker");
    c.auto_restart = AutoRestart::False;
    c.exit_codes = vec![0];
    let mut m = single("t", c);
    m.record_spawn_result(0, 0, Ok(7), 0);
    m.record_poll(0, 0, PollEvent::Alive, 1);
    assert!(matches!(state_of(&m, 0, 0), State::RUNNING(_)));

    let cmds = m.record_poll(0, 0, PollEvent::Exited(9), 2);
    assert!(matches!(state_of(&m, 0, 0), State::EXITED(9)));
    assert!(cmds.is_empty());
}

#[test]
fn policy_always_respawns_on_unexpected_exit() {
    let mut c = cfg("worker");
    c.auto_restart = AutoRestart::True;
    c.exit_codes = vec![0];
    let mut m = single("t", c);
    m.record_spawn_result(0, 0, Ok(7), 0);
    m.record_poll(0, 0, PollEvent::Alive, 1);

    let cmds = m.record_poll(0, 0, PollEvent::Exited(9), 2);
    assert!(matches!(state_of(&m, 0, 0), State::BACKOFF));
    assert!(matches!(cmds[0], Command::Spawn { index: 0, .. }));
}

#[test]
fn accepted_exit_code_is_terminal_even_under_always() {
    let mut c = cfg("worker");
    c.auto_restart = AutoRestart::True;
    c.exit_codes = vec![0];
    let mut m = single("t", c);
    m.record_spawn_result(0, 0, Ok(7), 0);
    m.record_poll(0, 0, PollEvent::Alive, 1);

    let cmds = m.record_poll(0, 0, PollEvent::Exited(0), 2);
    assert!(matches!(state_of(&m, 0, 0), State::EXITED(0)));
    assert!(cmds.is_empty());
}

#[test]
fn replicas_are_independently_addressable() {
    let mut c = cfg("worker");
    c.num_procs = 3;
    let mut m = single("t", c);
    assert_eq!(m.groups.len(), 1);
    assert_eq!(m.groups[0].tasks.len(), 3);

    // start replica 1 only
    let r = m.dispatch(Action::Start("t".to_string(), Some(1)), 0);
    assert_eq!(r.commands.len(), 1);
    assert!(matches!(r.commands[0], Command::Spawn { index: 1, .. }));
    m.record_spawn_result(0, 1, Ok(11), 0);

    assert!(matches!(state_of(&m, 0, 0), State::STOPPED(None)));
    assert!(matches!(state_of(&m, 0, 1), State::STARTING));
    assert!(matches!(state_of(&m, 0, 2), State::STOPPED(None)));

    // stop replica 1 only: the other replicas stay untouched
    let r = m.dispatch(Action::Stop("t".to_string(), Some(1)), 5);
    assert_eq!(r.commands.len(), 1);
    assert!(matches!(r.commands[0], Command::Signal { pid: 11, .. }));
    assert!(matches!(state_of(&m, 0, 0), State::STOPPED(None)));
    assert!(matches!(state_of(&m, 0, 2), State::STOPPED(None)));
}

#[test]
fn stop_sends_signal_then_escalates_to_kill() {
    // minimum uptime 1, grace 1: stop at t=2, still alive at t=3 brings a
    // kill, and the reap leaves the task STOPPED
    let mut c = cfg("sleep 100");
    c.start_retries = 3;
    c.start_time = 1;
    c.stop_time = 1;
    let mut m = single("t", c);

    m.record_spawn_result(0, 0, Ok(55), 0);
    m.record_poll(0, 0, PollEvent::Alive, 1);
    assert!(matches!(state_of(&m, 0, 0), State::RUNNING(0)));

    let r = m.dispatch(Action::Stop("t".to_string(), Some(0)), 2);
    assert_eq!(r.commands.len(), 1);
    assert!(matches!(
        r.commands[0],
        Command::Signal { pid: 55, signal: StopSignal::TERM }
    ));

    // the process ignores the signal: at the deadline a kill is demanded
    let cmds = m.record_poll(0, 0, PollEvent::Alive, 3);
    assert!(matches!(cmds[0], Command::Kill { pid: 55 }));

    // the kill takes effect and the exit is reaped
    let cmds = m.record_poll(0, 0, PollEvent::Exited(137), 3);
    assert!(cmds.is_empty());
    assert!(matches!(state_of(&m, 0, 0), State::STOPPED(Some(3))));
    assert!(m.groups[0].tasks[0].pid().is_none());
}

#[test]
fn stop_without_live_process_is_a_noop() {
    let mut m = single("t", cfg("worker"));
    let r = m.dispatch(Action::Stop("t".to_string(), None), 4);
    assert!(r.commands.is_empty());
    assert!(matches!(state_of(&m, 0, 0), State::STOPPED(None)));
    assert_eq!(r.response, "stop requested for t");
}

#[test]
fn status_after_successful_start_reports_running_uptime() {
    let mut c = cfg("worker");
    c.start_time = 0;
    let mut m = single("t", c);

    let r = m.dispatch(Action::Start("t".to_string(), None), 5);
    assert_eq!(r.response, "start requested for t");
    m.record_spawn_result(0, 0, Ok(9), 5);
    m.record_poll(0, 0, PollEvent::Alive, 5);

    let r = m.dispatch(Action::Status(Some("t".to_string())), 5);
    assert_eq!(r.response, "t:0\trunning\tuptime 00:00:00\n");

    let r = m.dispatch(Action::Status(Some("t".to_string())), 3670);
    assert_eq!(r.response, "t:0\trunning\tuptime 01:01:05\n");
}

#[test]
fn status_renders_every_unit_and_replica() {
    let mut c1 = cfg("a");
    c1.num_procs = 2;
    let c2 = cfg("b");
    let mut m = Monitor::new(vec![("alpha".to_string(), c1), ("beta".to_string(), c2)]);
    m.record_spawn_result(1, 0, Err("no such file".to_string()), 0);

    let r = m.dispatch(Action::Status(None), 0);
    assert_eq!(
        r.response,
        "alpha:0\tstopped\nalpha:1\tstopped\nbeta:0\tfatal\tno such file\n"
    );
}

#[test]
fn stopped_at_renders_time_of_day() {
    let mut m = single("t", cfg("worker"));
    m.record_spawn_result(0, 0, Ok(5), 0);
    m.dispatch(Action::Stop("t".to_string(), None), 3661);
    m.record_poll(0, 0, PollEvent::Exited(0), 3661);

    let r = m.dispatch(Action::Status(Some("t".to_string())), 3661);
    assert_eq!(r.response, "t:0\tstopped\tat 01:01:01\n");
}

#[test]
fn unknown_unit_is_reported() {
    let mut m = single("t", cfg("worker"));
    let r = m.dispatch(Action::Start("ghost".to_string(), None), 0);
    assert_eq!(r.response, "ghost: not found");
    let r = m.dispatch(Action::Status(Some("ghost".to_string())), 0);
    assert_eq!(r.response, "ghost: not found");
    let r = m.dispatch(Action::Config("ghost".to_string()), 0);
    assert_eq!(r.response, "ghost: not found");
}

#[test]
fn out_of_range_replica_is_reported() {
    let mut m = single("t", cfg("worker"));
    let r = m.dispatch(Action::Start("t".to_string(), Some(3)), 0);
    assert_eq!(r.response, "t: no replica with index 3");
    let r = m.dispatch(Action::Stop("t".to_string(), Some(7)), 0);
    assert_eq!(r.response, "t: no replica with index 7");
}

#[test]
fn starting_an_active_replica_is_noted() {
    let mut m = single("t", cfg("worker"));
    m.record_spawn_result(0, 0, Ok(3), 0);
    let r = m.dispatch(Action::Start("t".to_string(), Some(0)), 1);
    assert_eq!(r.response, "t:0 is already started");
    assert!(r.commands.is_empty());
}

#[test]
fn spawn_failure_is_fatal_without_retry() {
    let mut m = single("t", cfg("worker"));
    m.record_spawn_result(0, 0, Err("permission denied".to_string()), 0);
    match state_of(&m, 0, 0) {
        State::FATAL(reason) => assert_eq!(reason, "permission denied"),
        other => panic!("expected FATAL, got {:?}", other),
    }
}

#[test]
fn startup_spawns_auto_start_units_only() {
    let mut auto = cfg("a");
    auto.num_procs = 2;
    let mut manual = cfg("b");
    manual.auto_start = false;
    let m = Monitor::new(vec![("auto".to_string(), auto), ("manual".to_string(), manual)]);

    let cmds = m.startup();
    assert_eq!(cmds.len(), 2);
    assert!(matches!(&cmds[0], Command::Spawn { name, index: 0 } if name == "auto"));
    assert!(matches!(&cmds[1], Command::Spawn { name, index: 1 } if name == "auto"));
}

#[test]
fn shutdown_stops_everything() {
    let mut c = cfg("worker");
    c.num_procs = 2;
    let mut m = single("t", c);
    m.record_spawn_result(0, 0, Ok(21), 0);
    m.record_spawn_result(0, 1, Ok(22), 0);

    let r = m.dispatch(Action::Shutdown, 1);
    assert!(r.shutdown);
    assert_eq!(r.response, "shutting down");
    assert_eq!(r.commands.len(), 2);
    assert!(matches!(r.commands[0], Command::Signal { pid: 21, .. }));
    assert!(matches!(r.commands[1], Command::Signal { pid: 22, .. }));
}

#[test]
fn config_action_reports_json() {
    let mut m = single("t", cfg("worker"));
    let r = m.dispatch(Action::Config("t".to_string()), 0);
    assert!(r.response.starts_with("{\"cmd\":\"worker\""));
    assert!(r.response.contains("\"start_retries\":3"));
}

#[test]
fn malformed_request_yields_fixed_reply_and_connection_survives() {
    let mut m = single("t", cfg("worker"));

    let r = handle_request(&mut m, None, 0);
    assert_eq!(r.response, "Error! Unknown action");
    assert!(r.commands.is_empty());
    assert!(!r.shutdown);

    // the same registry serves the next, well-formed request
    let r = handle_request(&mut m, Some(Action::Status(None)), 0);
    assert_eq!(r.response, "t:0\tstopped\n");
}

#[test]
fn update_without_loader_reports_config_error() {
    let mut m = single("t", cfg("worker"));
    let r = m.dispatch(Action::Update(None), 0);
    assert!(r.needs_reload);
    assert!(r.reload_target.is_none());

    let r = m.apply_update(None, None, 0);
    assert_eq!(r.response, "configuration loader unavailable");
}

#[test]
fn update_in_place_when_program_is_unchanged() {
    let mut m = single("t", cfg("worker"));
    m.record_spawn_result(0, 0, Ok(5), 0);

    let mut newer = cfg("worker");
    newer.start_retries = 9;
    let r = m.apply_update(None, Some(vec![("t".to_string(), newer)]), 1);
    assert_eq!(r.response, "configuration updated");
    assert!(r.commands.is_empty());
    assert_eq!(m.groups[0].tasks[0].get_configuration().start_retries, 9);
    assert!(matches!(state_of(&m, 0, 0), State::STARTING));
}

#[test]
fn update_cycles_replicas_whose_program_changed() {
    let mut m = single("t", cfg("worker"));
    m.record_spawn_result(0, 0, Ok(5), 0);
    m.record_poll(0, 0, PollEvent::Alive, 1);

    let r = m.apply_update(None, Some(vec![("t".to_string(), cfg("worker --v2"))]), 2);
    assert_eq!(r.commands.len(), 1);
    assert!(matches!(r.commands[0], Command::Signal { pid: 5, .. }));

    // the reap owes a re-spawn under the new description
    let cmds = m.record_poll(0, 0, PollEvent::Exited(0), 3);
    assert!(matches!(state_of(&m, 0, 0), State::BACKOFF));
    assert!(matches!(cmds[0], Command::Spawn { index: 0, .. }));
    assert_eq!(m.groups[0].tasks[0].get_configuration().cmd, "worker --v2");
}

#[test]
fn update_ignores_units_outside_the_target() {
    let mut m = Monitor::new(vec![
        ("a".to_string(), cfg("one")),
        ("b".to_string(), cfg("two")),
    ]);
    let r = m.apply_update(
        Some("a".to_string()),
        Some(vec![
            ("a".to_string(), cfg("one --new")),
            ("b".to_string(), cfg("two --new")),
        ]),
        0,
    );
    assert_eq!(r.response, "configuration updated");
    assert_eq!(m.groups[0].tasks[0].get_configuration().cmd, "one --new");
    assert_eq!(m.groups[1].tasks[0].get_configuration().cmd, "two");
}

#[test]
fn exited_code_is_rendered_in_status() {
    let mut c = cfg("worker");
    c.auto_restart = AutoRestart::False;
    c.exit_codes = vec![0];
    let mut m = single("t", c);
    m.record_spawn_result(0, 0, Ok(5), 0);
    m.record_poll(0, 0, PollEvent::Alive, 1);
    m.record_poll(0, 0, PollEvent::Exited(-3), 2);

    let r = m.dispatch(Action::Status(Some("t".to_string())), 2);
    assert_eq!(r.response, "t:0\texited\t-3\n");
}
