use taskmaster::config::{Autorestart, Config, Sigtype};
use taskmaster::monitor::{create_task_and_processes, launch_spawns, program_and_args, Change, Monitor, Route};
use taskmaster::process::{Poll, Status};
use taskmaster::task::Task;
use taskmaster::terminal::ProcessArg;

fn cfg(cmd: &str, numprocs: u32) -> Config {
    Config {
        cmd: cmd.to_string(),
        numprocs,
        umask: 0o022,
        workingdir: ".".to_string(),
        autostart: true,
        autorestart: Autorestart::Unexpected,
        exitcodes: vec![0],
        startretries: 3,
        starttime: 0,
        stopsignal: Sigtype::TERM,
        stoptime: 10,
        stdout: None,
        stderr: None,
        env: None,
    }
}

fn started(name: &str, c: Config, first_pid: u32) -> Task {
    let n = c.numprocs as usize;
    let spawns: Vec<Result<u32, String>> = (0..n).map(|i| Ok(first_pid + i as u32)).collect();
    create_task_and_processes(name.to_string(), c, 0, None, &spawns)
}

fn arg(name: &str, id: &str) -> ProcessArg {
    ProcessArg { name: name.to_string(), id: id.to_string() }
}

#[test]
fn insert_rejects_duplicate_names() {
    let mut m = Monitor::new();
    assert!(m.insert_task(started("a", cfg("/bin/sleep 1", 1), 10)));
    assert!(!m.insert_task(started("a", cfg("/bin/sleep 2", 1), 20)));
    assert_eq!(m.tasks.len(), 1);
    assert_eq!(m.find_task("a"), Some(0));
    assert_eq!(m.find_task("b"), None);
}

#[test]
fn routes_arguments_by_task_name() {
    let mut m = Monitor::new();
    m.insert_task(started("web", cfg("/bin/sleep 1", 1), 10));
    m.insert_task(started("db", cfg("/bin/sleep 1", 1), 20));
    let r = m.route(&vec![arg("db", "*"), arg("nope", "1"), arg("web", "0")]);
    assert!(matches!(r[0], Route::Found(1)));
    assert!(matches!(r[1], Route::Missing));
    assert!(matches!(r[2], Route::Found(0)));
}

#[test]
fn reload_of_identical_config_changes_nothing() {
    let mut m = Monitor::new();
    m.insert_task(started("a", cfg("/bin/sleep 60", 1), 10));
    m.insert_task(started("b", cfg("/bin/sleep 60", 2), 20));
    let fresh = vec![("b".to_string(), cfg("/bin/sleep 60", 2)), ("a".to_string(), cfg("/bin/sleep 60", 1))];
    let plan = m.reload_plan(&fresh);
    assert_eq!(plan.live, vec![Change::Keep, Change::Keep]);
    assert!(plan.added.is_empty());
}

#[test]
fn reload_diff_replaces_adds_and_removes() {
    let mut m = Monitor::new();
    m.insert_task(started("a", cfg("/bin/sleep 60", 1), 10));
    m.insert_task(started("c", cfg("/bin/sleep 60", 1), 20));
    m.insert_task(started("keep", cfg("/bin/sleep 60", 1), 30));
    let fresh = vec![
        ("a".to_string(), cfg("/bin/sleep 60", 2)),
        ("b".to_string(), cfg("/bin/sleep 30", 1)),
        ("keep".to_string(), cfg("/bin/sleep 60", 1)),
    ];
    let plan = m.reload_plan(&fresh);
    assert_eq!(plan.live, vec![Change::Replace(0), Change::Remove, Change::Keep]);
    assert_eq!(plan.added, vec![1]);

    m.tasks[0].kill();
    m.tasks[1].kill();
    let (name, c) = fresh[0].clone_parts();
    let rebuilt = vec![Some(started(&name, c, 40)), None, None];
    let (name, c) = fresh[1].clone_parts();
    let added = vec![started(&name, c, 50)];
    let fresh_set: Vec<(String, Config)> = fresh.iter().map(|e| e.clone_parts()).collect();
    m.update(&fresh_set, &plan, rebuilt, added);
    let names: Vec<&str> = m.tasks.iter().map(|t| t.name.as_str()).collect();
    assert_eq!(names, vec!["a", "keep", "b"]);
    assert_eq!(m.tasks[0].processes.len(), 2);
    assert_eq!(m.tasks[1].processes[0].child, Some(30));
}

trait CloneParts {
    fn clone_parts(&self) -> (String, Config);
}

impl CloneParts for (String, Config) {
    fn clone_parts(&self) -> (String, Config) {
        let c = &self.1;
        (
            self.0.clone(),
            Config {
                cmd: c.cmd.clone(),
                numprocs: c.numprocs,
                umask: c.umask,
                workingdir: c.workingdir.clone(),
                autostart: c.autostart,
                autorestart: c.autorestart,
                exitcodes: c.exitcodes.clone(),
                startretries: c.startretries,
                starttime: c.starttime,
                stopsignal: c.stopsignal,
                stoptime: c.stoptime,
                stdout: c.stdout.clone(),
                stderr: c.stderr.clone(),
                env: c.env.clone(),
            },
        )
    }
}

#[test]
fn shutdown_drains_before_exit() {
    let mut m = Monitor::new();
    m.insert_task(started("web", cfg("/bin/sleep 60", 2), 10));
    m.insert_task(started("db", cfg("/bin/sleep 60", 1), 20));
    assert!(!m.should_exit());
    let delivered: Vec<Vec<bool>> = m.tasks.iter().map(|t| vec![true; t.processes.len()]).collect();
    m.shutdown(100, &delivered);
    assert!(m.shutdown);
    assert!(m.process_still_alive());
    assert!(m.tasks.iter().all(|t| t.processes.iter().all(|p| p.status == Status::Stopping && p.child.is_some())));
    assert!(!m.should_exit());
    for t in m.tasks.iter_mut() {
        let n = t.processes.len();
        let spawns: Vec<Result<u32, String>> = vec![Err(String::new()); n];
        t.try_wait(10_100, &vec![Poll::Alive; n], &spawns);
    }
    assert!(!m.process_still_alive());
    assert!(m.should_exit());
    assert!(m.tasks.iter().all(|t| t.processes.iter().all(|p| p.child.is_none() && p.status == Status::Stopped)));
}

#[test]
fn no_exit_without_shutdown() {
    let mut m = Monitor::new();
    let mut off = cfg("/bin/true", 1);
    off.autostart = false;
    m.insert_task(create_task_and_processes("idle".to_string(), off, 0, None, &vec![Ok(5)]));
    assert!(!m.process_still_alive());
    assert!(!m.should_exit());
}

#[test]
fn empty_command_is_a_setup_error() {
    assert!(!launch_spawns(&cfg("   ", 2), &None));
    let t = create_task_and_processes("e".to_string(), cfg("   ", 2), 0, Some("ignored".to_string()), &vec![Ok(1), Ok(2)]);
    assert_eq!(t.processes.len(), 2);
    assert_eq!(t.processes[0].error.as_deref(), Some("Command is empty"));
    assert_eq!(t.processes[0].status, Status::Fatal);
    assert_eq!(t.processes[1].child, None);
    assert!(!launch_spawns(&cfg("/bin/true", 1), &Some("no file".to_string())));
    let u = create_task_and_processes("f".to_string(), cfg("/bin/true", 1), 0, Some("no file".to_string()), &vec![Ok(3)]);
    assert_eq!(u.processes[0].error.as_deref(), Some("no file"));
    assert_eq!(u.processes[0].status, Status::Fatal);
    assert_eq!(u.processes[0].retries, 1);
    assert!(launch_spawns(&cfg("/bin/true", 1), &None));
    let v = create_task_and_processes("g".to_string(), cfg("/bin/true", 1), 0, None, &vec![Ok(4)]);
    assert_eq!(v.processes[0].error, None);
    assert_eq!(v.processes[0].status, Status::Starting);
    assert_eq!(v.processes[0].child, Some(4));
    assert_eq!(v.processes[0].retries, 1);
}

#[test]
fn construction_without_autostart_spawns_nothing() {
    let mut c = cfg("/bin/true", 2);
    c.autostart = false;
    assert!(!launch_spawns(&c, &None));
    let t = create_task_and_processes("n".to_string(), c, 0, Some("no file".to_string()), &vec![Ok(1), Ok(2)]);
    assert!(t.processes.iter().all(|p| p.status == Status::Stopped && p.child.is_none() && p.retries == 0));
    assert_eq!(t.processes[0].error.as_deref(), Some("no file"));
}

#[test]
fn construction_spawn_failure_is_fatal() {
    let t = create_task_and_processes("s".to_string(), cfg("/bin/nope", 1), 0, None, &vec![Err("No such file".to_string())]);
    assert_eq!(t.processes[0].status, Status::Fatal);
    assert_eq!(t.processes[0].error.as_deref(), Some("No such file"));
}

#[test]
fn command_line_splits_into_program_and_args() {
    let (prog, args) = program_and_args("  /bin/sh  -c   true ").unwrap();
    assert_eq!(prog, "/bin/sh");
    assert_eq!(args, vec!["-c", "true"]);
    assert!(program_and_args(" \t ").is_none());
}

#[test]
fn replace_and_remove_by_index() {
    let mut m = Monitor::new();
    m.insert_task(started("a", cfg("/bin/sleep 60", 1), 10));
    m.insert_task(started("b", cfg("/bin/sleep 60", 1), 20));
    m.replace_task(0, started("a", cfg("/bin/sleep 60", 3), 30));
    assert_eq!(m.tasks[0].processes.len(), 3);
    let gone = m.remove_task(1);
    assert_eq!(gone.name, "b");
    assert_eq!(m.tasks.len(), 1);
}

#[test]
fn kill_all_stops_every_child() {
    let mut m = Monitor::new();
    m.insert_task(started("web", cfg("/bin/sleep 60", 2), 10));
    m.insert_task(started("db", cfg("/bin/sleep 60", 1), 20));
    m.kill_all();
    assert!(!m.process_still_alive());
    assert!(m.tasks.iter().all(|t| t.processes.iter().all(|p| p.status == Status::Stopped && p.child.is_none())));
    assert!(!m.shutdown);
}

#[test]
fn shutdown_with_undelivered_signal_keeps_replica() {
    let mut m = Monitor::new();
    m.insert_task(started("web", cfg("/bin/sleep 60", 2), 10));
    m.shutdown(5, &vec![vec![true, false]]);
    assert_eq!(m.tasks[0].processes[0].status, Status::Stopping);
    assert_eq!(m.tasks[0].processes[1].status, Status::Starting);
}

#[test]
fn reload_keeps_config_of_new_file() {
    let mut m = Monitor::new();
    m.insert_task(started("a", cfg("/bin/sleep 60", 1), 10));
    let mut off = cfg("/bin/sleep 60", 2);
    off.autostart = false;
    let fresh = vec![("a".to_string(), off)];
    let plan = m.reload_plan(&fresh);
    assert_eq!(plan.live, vec![Change::Replace(0)]);
    m.tasks[0].kill();
    let (name, c) = fresh[0].clone_parts();
    let rebuilt = vec![Some(started(&name, c, 70))];
    m.update(&fresh, &plan, rebuilt, vec![]);
    assert_eq!(m.tasks.len(), 1);
    assert_eq!(m.tasks[0].processes.len(), 2);
    assert!(!m.tasks[0].config.autostart);
    assert!(m.tasks[0].processes.iter().all(|p| p.status == Status::Stopped));
}
