use taskmaster::config::{Autorestart, Config, Sigtype};
use taskmaster::process::{restarts_after_exit, Exit, Poll, Process, Status};

fn cfg(starttime: u32, stoptime: u32, startretries: u32) -> Config {
    Config {
        cmd: "/bin/sleep 60".to_string(),
        numprocs: 1,
        umask: 0o022,
        workingdir: ".".to_string(),
        autostart: true,
        autorestart: Autorestart::Unexpected,
        exitcodes: vec![0],
        startretries,
        starttime,
        stopsignal: Sigtype::TERM,
        stoptime,
        stdout: None,
        stderr: None,
        env: None,
    }
}

fn fresh() -> Process {
    Process::new(0, "web".to_string(), 0o022, Sigtype::TERM, None, 0)
}

#[test]
fn new_process_is_stopped() {
    let p = fresh();
    assert_eq!(p.status, Status::Stopped);
    assert_eq!(p.child, None);
    assert_eq!(p.retries, 0);
    assert!(p.will_spawn());
}

#[test]
fn start_spawns_and_counts_retry() {
    let mut p = fresh();
    p.start(5, Ok(100));
    assert_eq!(p.status, Status::Starting);
    assert_eq!(p.child, Some(100));
    assert_eq!(p.retries, 1);
    assert_eq!(p.timer, 5);
    p.start(6, Ok(200));
    assert_eq!(p.child, Some(100));
    assert_eq!(p.retries, 1);
}

#[test]
fn spawn_error_is_fatal() {
    let mut p = fresh();
    p.start(0, Err("No such file".to_string()));
    assert_eq!(p.status, Status::Fatal);
    assert_eq!(p.child, None);
    assert_eq!(p.error.as_deref(), Some("No such file"));
    assert!(!p.will_spawn());
    p.start(1, Ok(5));
    assert_eq!(p.status, Status::Fatal);
    assert_eq!(p.child, None);
}

#[test]
fn starting_promotes_after_starttime() {
    let c = cfg(1, 10, 3);
    let mut p = fresh();
    p.start(0, Ok(7));
    p.check_process_state(&c, 999, Err(String::new()));
    assert_eq!(p.status, Status::Starting);
    p.check_process_state(&c, 1000, Err(String::new()));
    assert_eq!(p.status, Status::Running);
    assert_eq!(p.retries, 0);
    assert_eq!(p.uptime, 1000);
    assert_eq!(p.uptime_hms(1000 + 3_723_000), (1, 2, 3));
}

#[test]
fn stop_needs_delivery() {
    let mut p = fresh();
    p.start(0, Ok(7));
    p.stop(10, false);
    assert_eq!(p.status, Status::Starting);
    p.stop(10, true);
    assert_eq!(p.status, Status::Stopping);
    assert_eq!(p.timer, 10);
}

#[test]
fn stopping_force_kills_after_stoptime() {
    let c = cfg(0, 2, 3);
    let mut p = fresh();
    p.start(0, Ok(7));
    p.stop(100, true);
    let e = p.plan(&c, Poll::Alive, 2099);
    assert!(!e.kill);
    p.check_process_state(&c, 2099, Err(String::new()));
    assert_eq!(p.status, Status::Stopping);
    let e = p.plan(&c, Poll::Alive, 2100);
    assert!(e.kill);
    assert!(!e.spawn);
    p.check_process_state(&c, 2100, Err(String::new()));
    assert_eq!(p.status, Status::Stopped);
    assert_eq!(p.child, None);
}

#[test]
fn restart_goes_through_restarting() {
    let c = cfg(0, 2, 3);
    let mut p = fresh();
    p.start(0, Ok(7));
    p.restart(50, Err(String::new()));
    assert_eq!(p.status, Status::Restarting);
    let e = p.plan(&c, Poll::Exited(Exit::Signal(15)), 60);
    assert!(e.spawn);
    p.reap(&c, Exit::Signal(15), 60, Ok(8));
    assert_eq!(p.status, Status::Starting);
    assert_eq!(p.child, Some(8));
}

#[test]
fn restart_without_child_starts() {
    let mut p = fresh();
    p.restart(3, Ok(11));
    assert_eq!(p.status, Status::Starting);
    assert_eq!(p.child, Some(11));
}

#[test]
fn kill_clears_child() {
    let mut p = fresh();
    p.start(0, Ok(7));
    p.kill();
    assert_eq!(p.status, Status::Stopped);
    assert_eq!(p.child, None);
}

#[test]
fn failed_wait_changes_nothing() {
    let c = cfg(0, 2, 3);
    let mut p = fresh();
    p.start(0, Ok(7));
    p.poll(&c, Poll::Failed, 10_000, Ok(9));
    assert_eq!(p.status, Status::Starting);
    assert_eq!(p.child, Some(7));
}

#[test]
fn restart_policy() {
    let codes = vec![0, 7];
    assert!(restarts_after_exit(Autorestart::Always, Exit::Code(0), &codes));
    assert!(!restarts_after_exit(Autorestart::Never, Exit::Code(1), &codes));
    assert!(!restarts_after_exit(Autorestart::Unexpected, Exit::Code(7), &codes));
    assert!(restarts_after_exit(Autorestart::Unexpected, Exit::Code(1), &codes));
    assert!(restarts_after_exit(Autorestart::Unexpected, Exit::Signal(9), &codes));
}
