use taskmaster::config::{Autorestart, Config, Sigtype};
use taskmaster::process::{Exit, Poll, Status};
use taskmaster::task::{exit_report, selects_id, status_label, ExitReport, Info, Task};

fn cfg(cmd: &str, numprocs: u32) -> Config {
    Config {
        cmd: cmd.to_string(),
        numprocs,
        umask: 0o022,
        workingdir: ".".to_string(),
        autostart: true,
        autorestart: Autorestart::Unexpected,
        exitcodes: vec![0],
        startretries: 3,
        starttime: 1,
        stopsignal: Sigtype::TERM,
        stoptime: 10,
        stdout: None,
        stderr: None,
        env: None,
    }
}

fn no_spawns(t: &Task) -> Vec<Result<u32, String>> {
    t.processes.iter().map(|_| Err(String::new())).collect()
}

fn pids(first: u32, n: usize) -> Vec<Result<u32, String>> {
    (0..n).map(|i| Ok(first + i as u32)).collect()
}

fn alive(n: usize) -> Vec<Poll> {
    vec![Poll::Alive; n]
}

fn assert_coherent(t: &Task) {
    for p in &t.processes {
        let live = matches!(p.status, Status::Starting | Status::Running | Status::Stopping | Status::Restarting);
        assert_eq!(p.child.is_some(), live);
    }
}

fn running_task(c: Config) -> Task {
    let n = c.numprocs as usize;
    let mut t = Task::new(c, "web".to_string(), 0, None);
    t.launch(0, &pids(100, n));
    let s = no_spawns(&t);
    t.try_wait(5_000, &alive(n), &s);
    t
}

#[test]
fn selector_matches_star_and_decimal_id() {
    assert!(selects_id("*", 0));
    assert!(selects_id("*", 7));
    assert!(selects_id("1", 1));
    assert!(selects_id("10", 10));
    assert!(selects_id("4294967295", u32::MAX));
    assert!(!selects_id("01", 1));
    assert!(!selects_id("1", 10));
    assert!(!selects_id("", 0));
    assert!(!selects_id("abc", 0));
    assert!(!selects_id("**", 0));
}

#[test]
fn new_task_has_numprocs_stopped_replicas() {
    let t = Task::new(cfg("/bin/true", 3), "web".to_string(), 0, None);
    assert_eq!(t.processes.len(), 3);
    for (i, p) in t.processes.iter().enumerate() {
        assert_eq!(p.id as usize, i);
        assert_eq!(p.status, Status::Stopped);
        assert_eq!(p.task_name, "web");
    }
}

#[test]
fn autostart_then_stop() {
    let mut c = cfg("/bin/sleep 60", 2);
    c.starttime = 0;
    let mut t = Task::new(c, "web".to_string(), 0, None);
    t.launch(0, &pids(100, 2));
    let s = no_spawns(&t);
    t.try_wait(50, &alive(2), &s);
    assert_eq!(t.processes[0].status, Status::Running);
    assert_eq!(t.processes[1].status, Status::Running);
    assert_ne!(t.processes[0].child, t.processes[1].child);
    assert!(t.stop("*", 60, &vec![true, true]));
    assert_eq!(t.processes[0].status, Status::Stopping);
    assert_eq!(t.processes[1].status, Status::Stopping);
    let plan = t.plan(10_060, &alive(2));
    assert!(plan.iter().all(|e| e.kill && !e.spawn));
    t.try_wait(10_060, &alive(2), &s);
    assert_eq!(t.processes[0].status, Status::Stopped);
    assert_eq!(t.processes[1].status, Status::Stopped);
    assert!(!t.any_alive());
    assert_coherent(&t);
}

#[test]
fn autostart_off_leaves_replicas_stopped() {
    let mut c = cfg("/bin/sleep 60", 2);
    c.autostart = false;
    let mut t = Task::new(c, "web".to_string(), 0, None);
    t.launch(0, &pids(100, 2));
    assert_eq!(t.processes[0].status, Status::Stopped);
    assert!(!t.any_alive());
}

#[test]
fn fast_crash_exhausts_retries() {
    let mut c = cfg("/bin/false", 1);
    c.startretries = 2;
    c.starttime = 5;
    c.autorestart = Autorestart::Never;
    let mut t = Task::new(c, "bad".to_string(), 0, None);
    t.launch(0, &pids(200, 1));
    assert_eq!(t.processes[0].retries, 1);
    let crash = vec![Poll::Exited(Exit::Code(1))];
    assert!(t.plan(10, &crash)[0].spawn);
    t.try_wait(10, &crash, &pids(201, 1));
    assert_eq!(t.processes[0].status, Status::Starting);
    assert_eq!(t.processes[0].retries, 2);
    assert!(!t.plan(20, &crash)[0].spawn);
    t.try_wait(20, &crash, &no_spawns(&t));
    assert_eq!(t.processes[0].status, Status::Fatal);
    assert_eq!(t.processes[0].retries, 2);
    assert_eq!(t.processes[0].child, None);
    assert_coherent(&t);
}

#[test]
fn operator_start_resets_retries_after_fatal() {
    let mut c = cfg("/bin/false", 1);
    c.startretries = 1;
    let mut t = Task::new(c, "bad".to_string(), 0, None);
    t.launch(0, &pids(200, 1));
    t.try_wait(10, &vec![Poll::Exited(Exit::Code(1))], &no_spawns(&t));
    assert_eq!(t.processes[0].status, Status::Fatal);
    assert!(t.start("*", 20, &pids(300, 1)));
    assert_eq!(t.processes[0].status, Status::Starting);
    assert_eq!(t.processes[0].retries, 1);
}

#[test]
fn expected_exit_is_not_restarted() {
    let mut c = cfg("/bin/sh -c 'exit 7'", 1);
    c.starttime = 0;
    c.exitcodes = vec![7];
    let mut t = Task::new(c, "app".to_string(), 0, None);
    t.launch(0, &pids(300, 1));
    t.try_wait(1, &alive(1), &no_spawns(&t));
    assert_eq!(t.processes[0].status, Status::Running);
    let exit = vec![Poll::Exited(Exit::Code(7))];
    assert!(!t.plan(2, &exit)[0].spawn);
    assert_eq!(
        exit_report(Exit::Code(7), &t.config.exitcodes, t.processes[0].status),
        ExitReport::Exited { code: 7, expected: true }
    );
    t.try_wait(2, &exit, &no_spawns(&t));
    assert_eq!(t.processes[0].status, Status::Stopped);
    assert_eq!(t.processes[0].child, None);
}

#[test]
fn unexpected_exit_is_restarted() {
    let mut c = cfg("/bin/sh -c 'exit 3'", 1);
    c.starttime = 0;
    let mut t = Task::new(c, "app".to_string(), 0, None);
    t.launch(0, &pids(300, 1));
    t.try_wait(1, &alive(1), &no_spawns(&t));
    let exit = vec![Poll::Exited(Exit::Code(3))];
    assert!(t.plan(2, &exit)[0].spawn);
    t.try_wait(2, &exit, &pids(301, 1));
    assert_eq!(t.processes[0].status, Status::Starting);
    assert_eq!(t.processes[0].child, Some(301));
    assert_eq!(t.processes[0].retries, 1);
}

#[test]
fn graceful_then_forceful_stop() {
    let mut c = cfg("/bin/sh -c 'trap \"\" TERM; sleep 100'", 1);
    c.stoptime = 2;
    let mut t = running_task(c);
    assert_eq!(t.processes[0].status, Status::Running);
    t.stop("*", 6_000, &vec![true]);
    assert_eq!(t.processes[0].status, Status::Stopping);
    let s = no_spawns(&t);
    t.try_wait(7_999, &alive(1), &s);
    assert_eq!(t.processes[0].status, Status::Stopping);
    assert!(t.plan(8_000, &alive(1))[0].kill);
    t.try_wait(8_000, &alive(1), &s);
    assert_eq!(t.processes[0].status, Status::Stopped);
}

#[test]
fn operator_id_selector_stops_one_replica() {
    let mut t = running_task(cfg("/bin/sleep 60", 3));
    assert!(t.processes.iter().all(|p| p.status == Status::Running));
    assert!(t.stop("1", 6_000, &vec![true, true, true]));
    assert_eq!(t.processes[0].status, Status::Running);
    assert_eq!(t.processes[1].status, Status::Stopping);
    assert_eq!(t.processes[2].status, Status::Running);
    let polls = vec![Poll::Alive, Poll::Exited(Exit::Signal(15)), Poll::Alive];
    t.try_wait(6_100, &polls, &no_spawns(&t));
    assert_eq!(t.processes[0].status, Status::Running);
    assert_eq!(t.processes[1].status, Status::Stopped);
    assert_eq!(t.processes[2].status, Status::Running);
}

#[test]
fn unknown_selector_picks_nothing() {
    let mut t = running_task(cfg("/bin/sleep 60", 2));
    assert!(!t.stop("5", 6_000, &vec![true, true]));
    assert!(t.processes.iter().all(|p| p.status == Status::Running));
}

#[test]
fn restart_verb_restarts_running_replica() {
    let mut t = running_task(cfg("/bin/sleep 60", 1));
    assert!(t.restart("0", 6_000, &no_spawns(&t)));
    assert_eq!(t.processes[0].status, Status::Restarting);
    assert_eq!(t.processes[0].retries, 0);
    let plan = t.plan(16_000, &alive(1));
    assert!(plan[0].kill && plan[0].spawn);
    t.try_wait(16_000, &alive(1), &pids(500, 1));
    assert_eq!(t.processes[0].status, Status::Starting);
    assert_eq!(t.processes[0].child, Some(500));
}

#[test]
fn kill_stops_every_replica() {
    let mut t = running_task(cfg("/bin/sleep 60", 2));
    t.kill();
    assert!(t.processes.iter().all(|p| p.status == Status::Stopped && p.child.is_none()));
}

#[test]
fn setup_error_makes_start_fatal() {
    let mut t = Task::new(cfg("/bin/true", 1), "x".to_string(), 0, Some("cannot open".to_string()));
    t.launch(0, &pids(1, 1));
    assert_eq!(t.processes[0].status, Status::Fatal);
    assert_eq!(t.processes[0].child, None);
    assert_eq!(t.processes[0].error.as_deref(), Some("cannot open"));
}

#[test]
fn status_lines_show_pid_and_uptime() {
    let mut t = running_task(cfg("/bin/sleep 60", 2));
    t.stop("1", 6_000, &vec![true, true]);
    let lines = t.print_processes("*", 5_000 + 61_000);
    assert_eq!(lines.len(), 2);
    assert_eq!(lines[0].name, "web");
    assert_eq!(lines[0].id, Some(0));
    assert_eq!(lines[0].status, Status::Running);
    assert!(matches!(lines[0].info, Info::Pid(100)));
    assert_eq!(lines[0].uptime, Some((0, 1, 1)));
    assert_eq!(lines[1].status, Status::Stopping);
    assert!(matches!(lines[1].info, Info::Pid(101)));
    assert_eq!(lines[1].uptime, None);
    let one = t.print_processes("1", 0);
    assert_eq!(one.len(), 1);
    assert_eq!(one[0].id, Some(1));
}

#[test]
fn status_line_single_replica_has_no_id() {
    let t = Task::new(cfg("/bin/true", 1), "solo".to_string(), 0, Some("bad".to_string()));
    let lines = t.print_processes("*", 0);
    assert_eq!(lines[0].id, None);
    assert!(matches!(&lines[0].info, Info::Error(e) if e == "bad"));
}

#[test]
fn status_labels_are_coloured() {
    assert_eq!(status_label(Status::Running), "\x1B[32mRunning\x1B[0m");
    assert_eq!(status_label(Status::Fatal), "\x1B[31mFatal\x1B[0m");
    assert_eq!(status_label(Status::Starting), "\x1B[33mStarting\x1B[0m");
}

#[test]
fn exit_reports() {
    let codes = vec![0];
    assert_eq!(exit_report(Exit::Code(0), &codes, Status::Starting), ExitReport::Exited { code: 0, expected: false });
    assert_eq!(exit_report(Exit::Code(1), &codes, Status::Running), ExitReport::Exited { code: 1, expected: false });
    assert_eq!(exit_report(Exit::Code(0), &codes, Status::Stopping), ExitReport::Stopped { code: 0 });
    assert_eq!(exit_report(Exit::Signal(9), &codes, Status::Running), ExitReport::Signalled { sig: Sigtype::KILL });
    assert_eq!(exit_report(Exit::Signal(15), &codes, Status::Stopping), ExitReport::StoppedBySignal { sig: Sigtype::TERM });
    assert_eq!(exit_report(Exit::Unknown, &codes, Status::Running), ExitReport::Unknown);
}

#[test]
fn retries_stay_within_budget() {
    let mut c = cfg("/bin/false", 1);
    c.startretries = 3;
    let mut t = Task::new(c, "bad".to_string(), 0, None);
    t.launch(0, &pids(1, 1));
    let crash = vec![Poll::Exited(Exit::Code(1))];
    for k in 0..5u32 {
        assert!(t.processes[0].status != Status::Starting || t.processes[0].retries <= 3);
        t.try_wait(k as u64, &crash, &pids(10 + k, 1));
        assert_coherent(&t);
    }
    assert_eq!(t.processes[0].status, Status::Fatal);
    assert_eq!(t.processes[0].retries, 3);
}

#[test]
fn spawn_and_signal_targets_follow_selector() {
    let mut t = Task::new(cfg("/bin/sleep 60", 3), "web".to_string(), 0, None);
    assert_eq!(t.needs_spawn("*"), vec![true, true, true]);
    assert_eq!(t.needs_signal("*"), vec![false, false, false]);
    t.start("1", 0, &pids(100, 3));
    assert_eq!(t.needs_spawn("*"), vec![true, false, true]);
    assert_eq!(t.needs_signal("*"), vec![false, true, false]);
    assert_eq!(t.needs_spawn("2"), vec![false, false, true]);
    assert_eq!(t.needs_signal("0"), vec![false, false, false]);
    assert_eq!(t.processes[1].child, Some(101));
    assert_eq!(t.processes[0].status, Status::Stopped);
}

#[test]
fn restart_signals_only_children_not_being_stopped() {
    let mut t = running_task(cfg("/bin/sleep 60", 2));
    assert_eq!(t.needs_restart_signal("*"), vec![true, true]);
    t.stop("0", 6_000, &vec![true, true]);
    assert_eq!(t.needs_restart_signal("*"), vec![false, true]);
    assert_eq!(t.needs_restart_signal("0"), vec![false, false]);
}

#[test]
fn operator_start_retries_after_spawn_error() {
    let mut t = Task::new(cfg("/bin/true", 1), "x".to_string(), 0, None);
    t.launch(0, &vec![Err("No such file".to_string())]);
    assert_eq!(t.processes[0].status, Status::Fatal);
    assert_eq!(t.processes[0].error.as_deref(), Some("No such file"));
    assert_eq!(t.needs_spawn("*"), vec![true]);
    assert!(t.start("*", 10, &pids(77, 1)));
    assert_eq!(t.processes[0].status, Status::Starting);
    assert_eq!(t.processes[0].child, Some(77));
    assert_eq!(t.processes[0].retries, 1);
    assert_eq!(t.processes[0].error, None);
}

#[test]
fn operator_restart_retries_after_spawn_error() {
    let mut t = Task::new(cfg("/bin/true", 1), "x".to_string(), 0, None);
    t.launch(0, &vec![Err("denied".to_string())]);
    assert!(t.restart("0", 10, &pids(78, 1)));
    assert_eq!(t.processes[0].status, Status::Starting);
    assert_eq!(t.processes[0].child, Some(78));
}
