use vstd::prelude::*;
use crate::config::{has_code, Autorestart, Config, Sigtype};

verus! {

/// Where a replica stands in its life cycle.
#[derive(Debug, PartialEq, Eq, Structural, Clone, Copy)]
pub enum Status {
    Starting,
    Running,
    Stopping,
    Stopped,
    Restarting,
    Fatal,
}

/// The states in which a replica has a live child.
pub open spec fn is_alive(s: Status) -> bool {
    s is Starting || s is Running || s is Stopping || s is Restarting
}

/// How a reaped child ended.
#[derive(Debug, PartialEq, Eq, Structural, Clone, Copy)]
pub enum Exit {
    /// It exited with this code.
    Code(i32),
    /// It was terminated by the signal with this number.
    Signal(i32),
    /// The host reported neither.
    Unknown,
}

/// What a non-blocking wait on a live child reported.
#[derive(Debug, PartialEq, Eq, Structural, Clone, Copy)]
pub enum Poll {
    /// The child is still running.
    Alive,
    /// The child has terminated.
    Exited(Exit),
    /// The wait itself failed; nothing is known.
    Failed,
}

/// One supervised replica. Times are milliseconds on the caller's monotonic
/// clock; `child` holds the pid of the live child, if any.
pub struct Process {
    pub id: u32,
    pub task_name: String,
    pub umask: u32,
    pub stop_sig: Sigtype,
    pub child: Option<u32>,
    pub status: Status,
    pub retries: u32,
    pub timer: u64,
    pub uptime: u64,
    pub error: Option<String>,
}

/// What the caller must do on the host before a poll outcome is applied.
#[derive(Debug, PartialEq, Eq, Structural, Clone, Copy)]
pub struct Effect {
    /// Force-kill the live child.
    pub kill: bool,
    /// Spawn a new child and hand back the outcome.
    pub spawn: bool,
}

/// A child exists exactly when the status says one is alive.
pub open spec fn coherent(p: Process) -> bool {
    p.child is Some <==> is_alive(p.status)
}

/// Milliseconds since the last state entry.
pub open spec fn elapsed(p: Process, now: u64) -> int {
    if now >= p.timer {
        now - p.timer
    } else {
        0
    }
}

pub open spec fn secs_passed(p: Process, now: u64, secs: u32) -> bool {
    elapsed(p, now) >= secs as int * 1000
}

/// A start on `p` spawns a child (rather than doing nothing or failing at once).
pub open spec fn wants_spawn(p: Process) -> bool {
    p.child is None && p.error is None
}

pub open spec fn bump(r: u32) -> u32 {
    if r < u32::MAX {
        (r + 1) as u32
    } else {
        r
    }
}

/// `start`: with a live child nothing changes; with a recorded error the
/// replica is Fatal; otherwise the spawn's outcome decides Starting or Fatal.
/// Every attempt counts one retry.
pub open spec fn started(p: Process, now: u64, spawn: Result<u32, String>) -> Process {
    if p.child is Some {
        p
    } else if p.error is Some {
        Process { status: Status::Fatal, retries: bump(p.retries), timer: now, ..p }
    } else {
        match spawn {
            Ok(pid) => Process {
                status: Status::Starting,
                child: Some(pid),
                retries: bump(p.retries),
                timer: now,
                ..p
            },
            Err(e) => Process {
                status: Status::Fatal,
                error: Some(e),
                retries: bump(p.retries),
                timer: now,
                ..p
            },
        }
    }
}

/// `stop`: once the stop signal reached a live child, the replica is Stopping.
pub open spec fn stopped(p: Process, now: u64, delivered: bool) -> Process {
    if p.child is Some && delivered {
        Process { status: Status::Stopping, timer: now, ..p }
    } else {
        p
    }
}

/// `restart`: without a child it is a start; with one the replica is Restarting.
pub open spec fn restarted(p: Process, now: u64, spawn: Result<u32, String>) -> Process {
    if p.child is None {
        started(p, now, spawn)
    } else {
        Process { status: Status::Restarting, timer: now, ..p }
    }
}

/// `kill`: the live child is gone and the replica is Stopped.
pub open spec fn killed(p: Process) -> Process {
    if p.child is Some {
        Process { child: None, status: Status::Stopped, ..p }
    } else {
        p
    }
}

/// A tick on a live child: the timed transitions.
pub open spec fn ticked(
    p: Process,
    starttime: u32,
    stoptime: u32,
    now: u64,
    spawn: Result<u32, String>,
) -> Process {
    match p.status {
        Status::Starting => if secs_passed(p, now, starttime) {
            Process { status: Status::Running, retries: 0, uptime: now, timer: now, ..p }
        } else {
            p
        },
        Status::Stopping => if secs_passed(p, now, stoptime) {
            Process { timer: now, ..killed(p) }
        } else {
            p
        },
        Status::Restarting => if secs_passed(p, now, stoptime) {
            started(killed(p), now, spawn)
        } else {
            p
        },
        _ => p,
    }
}

/// Whether the restart policy starts the replica again after it exited while Running.
pub open spec fn restarts_after(policy: Autorestart, exit: Exit, codes: Seq<i32>) -> bool {
    match policy {
        Autorestart::Always => true,
        Autorestart::Never => false,
        Autorestart::Unexpected => match exit {
            Exit::Code(c) => !codes.contains(c),
            _ => true,
        },
    }
}

/// The reap of a terminated child.
pub open spec fn reaped(
    p: Process,
    startretries: u32,
    policy: Autorestart,
    codes: Seq<i32>,
    exit: Exit,
    now: u64,
    spawn: Result<u32, String>,
) -> Process {
    let q = Process { child: None, ..p };
    match p.status {
        Status::Starting => if p.retries < startretries {
            started(q, now, spawn)
        } else {
            Process { status: Status::Fatal, timer: now, ..q }
        },
        Status::Stopping => Process { status: Status::Stopped, timer: now, ..q },
        Status::Restarting => started(q, now, spawn),
        _ => if restarts_after(policy, exit, codes) {
            started(q, now, spawn)
        } else {
            Process { status: Status::Stopped, timer: now, ..q }
        },
    }
}

/// One poll of a replica: a reap when its child terminated, a tick while it
/// runs, nothing when it has no child or the wait failed.
pub open spec fn polled(p: Process, cfg: Config, poll: Poll, now: u64, spawn: Result<u32, String>) -> Process {
    if p.child is None {
        p
    } else {
        match poll {
            Poll::Alive => ticked(p, cfg.starttime, cfg.stoptime, now, spawn),
            Poll::Exited(e) => reaped(p, cfg.startretries, cfg.autorestart, cfg.exitcodes@, e, now, spawn),
            Poll::Failed => p,
        }
    }
}

/// Whether applying `poll` goes through a start of the replica.
pub open spec fn poll_starts(p: Process, cfg: Config, poll: Poll, now: u64) -> bool {
    p.child is Some && match poll {
        Poll::Alive => p.status is Restarting && secs_passed(p, now, cfg.stoptime),
        Poll::Exited(e) => match p.status {
            Status::Starting => p.retries < cfg.startretries,
            Status::Stopping => false,
            Status::Restarting => true,
            _ => restarts_after(cfg.autorestart, e, cfg.exitcodes@),
        },
        Poll::Failed => false,
    }
}

/// What the host must do before `poll` is applied to `p`.
pub open spec fn effect_of(p: Process, cfg: Config, poll: Poll, now: u64) -> Effect {
    Effect {
        kill: p.child is Some && poll is Alive && (p.status is Stopping || p.status is Restarting)
            && secs_passed(p, now, cfg.stoptime),
        spawn: poll_starts(p, cfg, poll, now) && p.error is None,
    }
}

/// When no spawn is called for, the spawn outcome handed in makes no difference.
pub proof fn lemma_spawn_outcome_unused(
    p: Process,
    cfg: Config,
    poll: Poll,
    now: u64,
    s1: Result<u32, String>,
    s2: Result<u32, String>,
)
    requires
        !effect_of(p, cfg, poll, now).spawn,
    ensures
        polled(p, cfg, poll, now, s1) == polled(p, cfg, poll, now, s2),
{
}

/// Every transition keeps a child present exactly while the replica is alive.
pub proof fn lemma_transitions_coherent(
    p: Process,
    cfg: Config,
    poll: Poll,
    now: u64,
    delivered: bool,
    spawn: Result<u32, String>,
)
    requires
        coherent(p),
    ensures
        coherent(started(p, now, spawn)),
        coherent(stopped(p, now, delivered)),
        coherent(restarted(p, now, spawn)),
        coherent(killed(p)),
        coherent(polled(p, cfg, poll, now, spawn)),
{
}


impl Process {
    /// A fresh replica: Stopped, no child, no retries. `error` records why it
    /// can never run (an empty command, an unopenable output file).
    pub fn new(
        id: u32,
        task_name: String,
        umask: u32,
        stop_sig: Sigtype,
        error: Option<String>,
        now: u64,
    ) -> (r: Process)
        ensures
            r.id == id,
            r.task_name == task_name,
            r.umask == umask,
            r.stop_sig == stop_sig,
            r.error == error,
            r.child is None,
            r.status == Status::Stopped,
            r.retries == 0,
            r.timer == now,
            r.uptime == now,
            coherent(r),
    {
        Process {
            id,
            task_name,
            umask,
            stop_sig,
            child: None,
            status: Status::Stopped,
            retries: 0,
            timer: now,
            uptime: now,
            error,
        }
    }

    /// Whether `start` would spawn a child, so that the caller knows to try.
    pub fn will_spawn(&self) -> (r: bool)
        ensures
            r == wants_spawn(*self),
    {
        self.child.is_none() && self.error.is_none()
    }

    /// Starts the replica; `spawn` is the outcome of spawning its command,
    /// consulted only where `will_spawn` held.
    pub fn start(&mut self, now: u64, spawn: Result<u32, String>)
        ensures
            *final(self) == started(*old(self), now, spawn),
    {
        if self.child.is_some() {
            return ;
        }
        let r = if self.retries < u32::MAX {
            self.retries + 1
        } else {
            self.retries
        };
        if self.error.is_some() {
            self.status = Status::Fatal;
        } else {
            match spawn {
                Ok(pid) => {
                    self.status = Status::Starting;
                    self.child = Some(pid);
                },
                Err(e) => {
                    self.status = Status::Fatal;
                    self.error = Some(e);
                },
            }
        }
        self.retries = r;
        self.timer = now;
    }

    /// Records a graceful stop; `delivered` tells whether the stop signal
    /// reached the live child.
    pub fn stop(&mut self, now: u64, delivered: bool)
        ensures
            *final(self) == stopped(*old(self), now, delivered),
    {
        if self.child.is_some() && delivered {
            self.status = Status::Stopping;
            self.timer = now;
        }
    }

    /// Restarts the replica: a start when it has no child, else Restarting
    /// (the caller sends the stop signal to the child).
    pub fn restart(&mut self, now: u64, spawn: Result<u32, String>)
        ensures
            *final(self) == restarted(*old(self), now, spawn),
    {
        if self.child.is_none() {
            self.start(now, spawn);
        } else {
            self.status = Status::Restarting;
            self.timer = now;
        }
    }

    /// Records a hard kill of the live child.
    pub fn kill(&mut self)
        ensures
            *final(self) == killed(*old(self)),
    {
        if self.child.is_some() {
            self.child = None;
            self.status = Status::Stopped;
        }
    }

    fn passed(&self, now: u64, secs: u32) -> (r: bool)
        ensures
            r == secs_passed(*self, now, secs),
    {
        let e: u64 = if now >= self.timer {
            now - self.timer
        } else {
            0
        };
        e >= secs as u64 * 1000
    }

    /// The timed transitions of a replica whose child still runs: Starting
    /// becomes Running once `starttime` has passed; Stopping and Restarting
    /// force-kill once `stoptime` has passed, and Restarting starts again.
    pub fn check_process_state(&mut self, config: &Config, now: u64, spawn: Result<u32, String>)
        ensures
            *final(self) == ticked(*old(self), config.starttime, config.stoptime, now, spawn),
    {
        match self.status {
            Status::Starting => {
                if self.passed(now, config.starttime) {
                    self.retries = 0;
                    self.status = Status::Running;
                    self.uptime = now;
                    self.timer = now;
                }
            },
            Status::Stopping => {
                if self.passed(now, config.stoptime) {
                    self.kill();
                    self.timer = now;
                }
            },
            Status::Restarting => {
                if self.passed(now, config.stoptime) {
                    self.kill();
                    self.start(now, spawn);
                }
            },
            _ => {},
        }
    }

    /// Applies the reap of the terminated child: a retry or Fatal while
    /// Starting, Stopped while Stopping, a start while Restarting, and the
    /// restart policy otherwise.
    pub fn reap(&mut self, config: &Config, exit: Exit, now: u64, spawn: Result<u32, String>)
        ensures
            *final(self) == reaped(
                *old(self),
                config.startretries,
                config.autorestart,
                config.exitcodes@,
                exit,
                now,
                spawn,
            ),
    {
        self.child = None;
        match self.status {
            Status::Starting => {
                if self.retries < config.startretries {
                    self.start(now, spawn);
                } else {
                    self.status = Status::Fatal;
                    self.timer = now;
                }
            },
            Status::Stopping => {
                self.status = Status::Stopped;
                self.timer = now;
            },
            Status::Restarting => {
                self.start(now, spawn);
            },
            _ => {
                if restarts_after_exit(config.autorestart, exit, &config.exitcodes) {
                    self.start(now, spawn);
                } else {
                    self.status = Status::Stopped;
                    self.timer = now;
                }
            },
        }
    }

    /// Applies what a non-blocking wait reported for this replica.
    pub fn poll(&mut self, config: &Config, poll: Poll, now: u64, spawn: Result<u32, String>)
        ensures
            *final(self) == polled(*old(self), *config, poll, now, spawn),
    {
        if self.child.is_none() {
            return ;
        }
        match poll {
            Poll::Alive => self.check_process_state(config, now, spawn),
            Poll::Exited(e) => self.reap(config, e, now, spawn),
            Poll::Failed => {},
        }
    }

    /// What the host must do before `poll` is applied.
    pub fn plan(&self, config: &Config, poll: Poll, now: u64) -> (r: Effect)
        ensures
            r == effect_of(*self, *config, poll, now),
    {
        let live = self.child.is_some();
        let timed_out = self.passed(now, config.stoptime);
        let kill = live && matches!(poll, Poll::Alive)
            && (matches!(self.status, Status::Stopping) || matches!(self.status, Status::Restarting))
            && timed_out;
        let starts = live && match poll {
            Poll::Alive => matches!(self.status, Status::Restarting) && timed_out,
            Poll::Exited(e) => match self.status {
                Status::Starting => self.retries < config.startretries,
                Status::Stopping => false,
                Status::Restarting => true,
                _ => restarts_after_exit(config.autorestart, e, &config.exitcodes),
            },
            Poll::Failed => false,
        };
        Effect { kill, spawn: starts && self.error.is_none() }
    }

    /// Hours, minutes and seconds since the replica entered Running.
    pub fn uptime_hms(&self, now: u64) -> (r: (u64, u64, u64))
        ensures
            ({
                let s: int = if now >= self.uptime { (now - self.uptime) / 1000 } else { 0 };
                r.0 == s / 3600 && r.1 == (s / 60) % 60 && r.2 == s % 60
            }),
    {
        let s: u64 = if now >= self.uptime {
            (now - self.uptime) / 1000
        } else {
            0
        };
        (s / 3600, (s / 60) % 60, s % 60)
    }
}

/// Whether the restart policy starts a replica again after `exit`.
pub fn restarts_after_exit(policy: Autorestart, exit: Exit, codes: &Vec<i32>) -> (r: bool)
    ensures
        r == restarts_after(policy, exit, codes@),
{
    match policy {
        Autorestart::Always => true,
        Autorestart::Never => false,
        Autorestart::Unexpected => match exit {
            Exit::Code(c) => !has_code(codes, c),
            _ => true,
        },
    }
}

} // verus!
