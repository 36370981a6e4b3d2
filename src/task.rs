use vstd::prelude::*;
use vstd::utf8::is_ascii_chars;
use crate::config::{has_code, Config, Sigtype, sig_of_code};
use crate::process::{
    coherent, effect_of, is_alive, polled, restarted, started, stopped, killed, Effect,
    Exit, Poll, Process, Status,
};

verus! {

/// A named group of identical replicas sharing one configuration.
pub struct Task {
    pub name: String,
    pub processes: Vec<Process>,
    pub config: Config,
}

/// The retry budget as the invariant can hold it: a first attempt always counts one.
pub open spec fn retry_bound(startretries: u32) -> u32 {
    if startretries == 0 {
        1
    } else {
        startretries
    }
}

/// Retries never exceed the budget while Starting, and are cleared once Running
/// and by an operator restart.
pub open spec fn within_budget(p: Process, startretries: u32) -> bool {
    &&& p.status is Starting ==> p.retries <= retry_bound(startretries)
    &&& (p.status is Running || p.status is Restarting) ==> p.retries == 0
}

/// Replica `i` of task `name` fits the task: its index, name, spawn settings
/// and invariants; a replica with a live child has no recorded error.
pub open spec fn replica_fits(p: Process, i: int, name: Seq<char>, cfg: Config) -> bool {
    &&& p.id == i
    &&& p.task_name@ == name
    &&& p.umask == cfg.umask
    &&& p.stop_sig == cfg.stopsignal
    &&& coherent(p)
    &&& within_budget(p, cfg.startretries)
    &&& p.child is Some ==> p.error is None
}

/// `c` is the decimal digit for `d`.
pub open spec fn is_digit_of(c: char, d: nat) -> bool {
    '0' <= c && c <= '9' && c as u8 == 48 + d
}

/// `n` written in decimal, without leading zeros.
pub open spec fn is_decimal_of(s: Seq<char>, n: nat) -> bool
    decreases s.len(),
{
    if s.len() == 0 {
        false
    } else if s.len() == 1 {
        n < 10 && is_digit_of(s[0], n)
    } else {
        n >= 10 && is_digit_of(s.last(), n % 10) && is_decimal_of(s.drop_last(), n / 10)
    }
}

/// An id selector: `*` for every replica, else the replica's id in decimal.
pub open spec fn selects(sel: Seq<char>, id: u32) -> bool {
    sel == seq!['*'] || is_decimal_of(sel, id as nat)
}

proof fn lemma_decimal_is_ascii(s: Seq<char>, n: nat)
    requires
        is_decimal_of(s, n),
    ensures
        is_ascii_chars(s),
    decreases s.len(),
{
    if s.len() > 1 {
        lemma_decimal_is_ascii(s.drop_last(), n / 10);
    }
    assert forall|i: int| 0 <= i < s.len() implies '\0' <= #[trigger] s[i] <= '\u{7f}' by {
        if i < s.len() - 1 {
            assert(s[i] == s.drop_last()[i]);
        }
    }
}

/// Whether the selector `sel` picks the replica with this id.
pub fn selects_id(sel: &str, id: u32) -> (r: bool)
    ensures
        r == selects(sel@, id),
{
    if !sel.is_ascii() {
        proof {
            if is_decimal_of(sel@, id as nat) {
                lemma_decimal_is_ascii(sel@, id as nat);
            }
        }
        return false;
    }
    let b = sel.as_bytes();
    proof {
        vstd::string::is_ascii_spec_bytes(sel);
    }
    let len = b.len();
    if len == 0 {
        return false;
    }
    if len == 1 && b[0] == 42 {
        assert(sel@ =~= seq!['*']);
        return true;
    }
    assert(sel@ != seq!['*']) by {
        if sel@ == seq!['*'] {
            assert(sel@[0] as u8 == 42);
        }
    }
    let mut n: u32 = id;
    let mut k: usize = len;
    assert(sel@.take(len as int) =~= sel@);
    while k > 1
        invariant
            len == b@.len(),
            len == sel@.len(),
            forall|j: int| 0 <= j < len ==> b@[j] == sel@[j] as u8,
            is_ascii_chars(sel@),
            1 <= k <= len,
            is_decimal_of(sel@, id as nat) == is_decimal_of(sel@.take(k as int), n as nat),
        decreases k,
    {
        let ghost t = sel@.take(k as int);
        assert(t.drop_last() =~= sel@.take(k - 1));
        assert(t.last() == sel@[k - 1]);
        if n < 10 || b[k - 1] as u32 != 48 + n % 10 {
            return false;
        }
        n = n / 10;
        k = k - 1;
    }
    n < 10 && b[0] as u32 == 48 + n
}

fn copy_text(o: &Option<String>) -> (r: Option<String>)
    ensures
        r == *o,
{
    match o {
        Some(s) => Some(s.clone()),
        None => None,
    }
}

fn copy_outcome(o: &Result<u32, String>) -> (r: Result<u32, String>)
    ensures
        r == *o,
{
    match o {
        Ok(pid) => Ok(*pid),
        Err(e) => Err(e.clone()),
    }
}

/// Every replica is Stopped with no child and no retries, as a new task's are.
pub open spec fn idle(t: Task) -> bool {
    forall|i: int|
        0 <= i < t.processes@.len() ==> {
            &&& (#[trigger] t.processes@[i]).status is Stopped
            &&& t.processes@[i].child is None
            &&& t.processes@[i].retries == 0
        }
}

/// A replica right after its task was launched: with autostart, one start
/// attempt was made (Starting, or Fatal when it failed); without, still Stopped.
pub open spec fn launched_replica(p: Process, autostart: bool) -> bool {
    if autostart {
        (p.status is Starting || p.status is Fatal) && p.retries == 1
    } else {
        p.status is Stopped && p.child is None && p.retries == 0
    }
}

/// A task right after its launch, honouring its configuration's autostart.
pub open spec fn launched(t: Task) -> bool {
    forall|i: int| 0 <= i < t.processes@.len() ==> launched_replica(#[trigger] t.processes@[i], t.config.autostart)
}

/// An operator start of one replica: its retries and any recorded error are
/// cleared first, so the spawn is tried again.
pub open spec fn start_one(p: Process, sel: Seq<char>, now: u64, spawn: Result<u32, String>) -> Process {
    if selects(sel, p.id) {
        started(Process { retries: 0, error: None, ..p }, now, spawn)
    } else {
        p
    }
}

pub open spec fn stop_one(p: Process, sel: Seq<char>, now: u64, delivered: bool) -> Process {
    if selects(sel, p.id) {
        stopped(p, now, delivered)
    } else {
        p
    }
}

/// An operator restart of one replica: its retries and any recorded error are
/// cleared first.
pub open spec fn restart_one(p: Process, sel: Seq<char>, now: u64, spawn: Result<u32, String>) -> Process {
    if selects(sel, p.id) {
        restarted(Process { retries: 0, error: None, ..p }, now, spawn)
    } else {
        p
    }
}

impl Task {
    /// Well-formed: one replica per configured process, each fitting the task.
    pub open spec fn wf(&self) -> bool {
        &&& self.config.wf()
        &&& self.processes@.len() == self.config.numprocs
        &&& forall|i: int|
            0 <= i < self.processes@.len() ==> replica_fits(
                #[trigger] self.processes@[i],
                i,
                self.name@,
                self.config,
            )
    }

    /// Whether any replica is picked by the selector.
    pub open spec fn selects_any(&self, sel: Seq<char>) -> bool {
        exists|i: int| 0 <= i < self.processes@.len() && selects(sel, #[trigger] self.processes@[i].id)
    }

    /// A task with `config.numprocs` Stopped replicas, ids `0..numprocs`.
    /// `error`, when present, is why no replica can run.
    pub fn new(config: Config, name: String, now: u64, error: Option<String>) -> (r: Task)
        requires
            config.wf(),
        ensures
            r.wf(),
            r.name == name,
            r.config == config,
            forall|i: int|
                0 <= i < r.processes@.len() ==> {
                    &&& (#[trigger] r.processes@[i]).status == Status::Stopped
                    &&& r.processes@[i].child is None
                    &&& r.processes@[i].retries == 0
                    &&& r.processes@[i].error == error
                },
    {
        let mut processes: Vec<Process> = Vec::new();
        let mut id: u32 = 0;
        while id < config.numprocs
            invariant
                processes@.len() == id,
                id <= config.numprocs,
                forall|i: int|
                    0 <= i < id ==> {
                        &&& replica_fits(#[trigger] processes@[i], i, name@, config)
                        &&& processes@[i].status == Status::Stopped
                        &&& processes@[i].child is None
                        &&& processes@[i].retries == 0
                        &&& processes@[i].error == error
                    },
            decreases config.numprocs - id,
        {
            let p = Process::new(id, name.clone(), config.umask, config.stopsignal, copy_text(&error), now);
            processes.push(p);
            id = id + 1;
        }
        Task { name, processes, config }
    }

    /// Operator start of the replicas picked by `id`, each with its retries
    /// cleared; `spawns[i]` is the outcome of spawning replica `i`, consulted
    /// where that replica `will_spawn`. Returns whether any replica was picked.
    pub fn start(&mut self, id: &str, now: u64, spawns: &Vec<Result<u32, String>>) -> (found: bool)
        requires
            old(self).wf(),
            spawns@.len() == old(self).processes@.len(),
        ensures
            final(self).wf(),
            final(self).name == old(self).name,
            final(self).config == old(self).config,
            final(self).processes@.len() == old(self).processes@.len(),
            forall|i: int|
                0 <= i < old(self).processes@.len() ==> #[trigger] final(self).processes@[i]
                    == start_one(old(self).processes@[i], id@, now, spawns@[i]),
            found == old(self).selects_any(id@),
    {
        let ghost pre = self.processes@;
        let mut found = false;
        let mut i: usize = 0;
        while i < self.processes.len()
            invariant
                self.name == old(self).name,
                self.config == old(self).config,
                pre == old(self).processes@,
                old(self).wf(),
                spawns@.len() == pre.len(),
                self.processes@.len() == pre.len(),
                0 <= i <= pre.len(),
                forall|j: int| 0 <= j < i ==> #[trigger] self.processes@[j] == start_one(pre[j], id@, now, spawns@[j]),
                forall|j: int| i <= j < pre.len() ==> #[trigger] self.processes@[j] == pre[j],
                found == exists|j: int| 0 <= j < i && selects(id@, #[trigger] pre[j].id),
            decreases pre.len() - i,
        {
            assert(replica_fits(pre[i as int], i as int, self.name@, self.config));
            if selects_id(id, self.processes[i].id) {
                self.processes[i].retries = 0;
                self.processes[i].error = None;
                self.processes[i].start(now, copy_outcome(&spawns[i]));
                found = true;
            }
            i = i + 1;
        }
        proof {
            assert forall|j: int| 0 <= j < pre.len() implies replica_fits(
                #[trigger] self.processes@[j],
                j,
                self.name@,
                self.config,
            ) by {
                assert(replica_fits(pre[j], j, self.name@, self.config));
            }
        }
        found
    }

    /// Graceful stop of the replicas picked by `id`; `delivered[i]` tells
    /// whether the stop signal reached replica `i`'s child.
    /// Returns whether any replica was picked.
    pub fn stop(&mut self, id: &str, now: u64, delivered: &Vec<bool>) -> (found: bool)
        requires
            old(self).wf(),
            delivered@.len() == old(self).processes@.len(),
        ensures
            final(self).wf(),
            final(self).name == old(self).name,
            final(self).config == old(self).config,
            final(self).processes@.len() == old(self).processes@.len(),
            forall|i: int|
                0 <= i < old(self).processes@.len() ==> #[trigger] final(self).processes@[i]
                    == stop_one(old(self).processes@[i], id@, now, delivered@[i]),
            found == old(self).selects_any(id@),
    {
        let ghost pre = self.processes@;
        let mut found = false;
        let mut i: usize = 0;
        while i < self.processes.len()
            invariant
                self.name == old(self).name,
                self.config == old(self).config,
                pre == old(self).processes@,
                old(self).wf(),
                delivered@.len() == pre.len(),
                self.processes@.len() == pre.len(),
                0 <= i <= pre.len(),
                forall|j: int| 0 <= j < i ==> #[trigger] self.processes@[j] == stop_one(pre[j], id@, now, delivered@[j]),
                forall|j: int| i <= j < pre.len() ==> #[trigger] self.processes@[j] == pre[j],
                found == exists|j: int| 0 <= j < i && selects(id@, #[trigger] pre[j].id),
            decreases pre.len() - i,
        {
            if selects_id(id, self.processes[i].id) {
                self.processes[i].stop(now, delivered[i]);
                found = true;
            }
            i = i + 1;
        }
        proof {
            assert forall|j: int| 0 <= j < pre.len() implies replica_fits(
                #[trigger] self.processes@[j],
                j,
                self.name@,
                self.config,
            ) by {
                assert(replica_fits(pre[j], j, self.name@, self.config));
            }
        }
        found
    }

    /// Operator restart of the replicas picked by `id`, each with its retries
    /// cleared; a replica with a child goes Restarting (the caller sends it the
    /// stop signal), one without is started with the outcome `spawns[i]`.
    /// Returns whether any replica was picked.
    pub fn restart(&mut self, id: &str, now: u64, spawns: &Vec<Result<u32, String>>) -> (found: bool)
        requires
            old(self).wf(),
            spawns@.len() == old(self).processes@.len(),
        ensures
            final(self).wf(),
            final(self).name == old(self).name,
            final(self).config == old(self).config,
            final(self).processes@.len() == old(self).processes@.len(),
            forall|i: int|
                0 <= i < old(self).processes@.len() ==> #[trigger] final(self).processes@[i]
                    == restart_one(old(self).processes@[i], id@, now, spawns@[i]),
            found == old(self).selects_any(id@),
    {
        let ghost pre = self.processes@;
        let mut found = false;
        let mut i: usize = 0;
        while i < self.processes.len()
            invariant
                self.name == old(self).name,
                self.config == old(self).config,
                pre == old(self).processes@,
                old(self).wf(),
                spawns@.len() == pre.len(),
                self.processes@.len() == pre.len(),
                0 <= i <= pre.len(),
                forall|j: int| 0 <= j < i ==> #[trigger] self.processes@[j] == restart_one(pre[j], id@, now, spawns@[j]),
                forall|j: int| i <= j < pre.len() ==> #[trigger] self.processes@[j] == pre[j],
                found == exists|j: int| 0 <= j < i && selects(id@, #[trigger] pre[j].id),
            decreases pre.len() - i,
        {
            if selects_id(id, self.processes[i].id) {
                self.processes[i].retries = 0;
                self.processes[i].error = None;
                self.processes[i].restart(now, copy_outcome(&spawns[i]));
                found = true;
            }
            i = i + 1;
        }
        proof {
            assert forall|j: int| 0 <= j < pre.len() implies replica_fits(
                #[trigger] self.processes@[j],
                j,
                self.name@,
                self.config,
            ) by {
                assert(replica_fits(pre[j], j, self.name@, self.config));
            }
        }
        found
    }

    /// Hard kill of every replica's live child.
    pub fn kill(&mut self)
        requires
            old(self).wf(),
        ensures
            final(self).wf(),
            final(self).name == old(self).name,
            final(self).config == old(self).config,
            final(self).processes@.len() == old(self).processes@.len(),
            forall|i: int|
                0 <= i < old(self).processes@.len() ==> #[trigger] final(self).processes@[i]
                    == killed(old(self).processes@[i]),
    {
        let ghost pre = self.processes@;
        let mut i: usize = 0;
        while i < self.processes.len()
            invariant
                self.name == old(self).name,
                self.config == old(self).config,
                pre == old(self).processes@,
                old(self).wf(),
                self.processes@.len() == pre.len(),
                0 <= i <= pre.len(),
                forall|j: int| 0 <= j < i ==> #[trigger] self.processes@[j] == killed(pre[j]),
                forall|j: int| i <= j < pre.len() ==> #[trigger] self.processes@[j] == pre[j],
            decreases pre.len() - i,
        {
            self.processes[i].kill();
            i = i + 1;
        }
        proof {
            assert forall|j: int| 0 <= j < pre.len() implies replica_fits(
                #[trigger] self.processes@[j],
                j,
                self.name@,
                self.config,
            ) by {
                assert(replica_fits(pre[j], j, self.name@, self.config));
            }
        }
    }

    /// Starts every replica when the configuration asks for autostart, each
    /// as it is: a replica with a recorded error turns Fatal and keeps it, with
    /// no spawn. `spawns[i]` is the outcome of spawning replica `i`, consulted
    /// where that replica `will_spawn`.
    pub fn launch(&mut self, now: u64, spawns: &Vec<Result<u32, String>>)
        requires
            old(self).wf(),
            idle(*old(self)),
            spawns@.len() == old(self).processes@.len(),
        ensures
            final(self).wf(),
            final(self).name == old(self).name,
            final(self).config == old(self).config,
            final(self).processes@.len() == old(self).processes@.len(),
            forall|i: int|
                0 <= i < old(self).processes@.len() ==> #[trigger] final(self).processes@[i]
                    == if old(self).config.autostart {
                    started(old(self).processes@[i], now, spawns@[i])
                } else {
                    old(self).processes@[i]
                },
            launched(*final(self)),
    {
        let ghost pre = self.processes@;
        if self.config.autostart {
            let mut i: usize = 0;
            while i < self.processes.len()
                invariant
                    self.name == old(self).name,
                    self.config == old(self).config,
                    self.config.autostart,
                    pre == old(self).processes@,
                    old(self).wf(),
                    idle(*old(self)),
                    spawns@.len() == pre.len(),
                    self.processes@.len() == pre.len(),
                    0 <= i <= pre.len(),
                    forall|j: int| 0 <= j < i ==> #[trigger] self.processes@[j] == started(pre[j], now, spawns@[j]),
                    forall|j: int| i <= j < pre.len() ==> #[trigger] self.processes@[j] == pre[j],
                decreases pre.len() - i,
            {
                self.processes[i].start(now, copy_outcome(&spawns[i]));
                i = i + 1;
            }
        }
        proof {
            assert forall|j: int| 0 <= j < pre.len() implies replica_fits(
                #[trigger] self.processes@[j],
                j,
                self.name@,
                self.config,
            ) by {
                assert(replica_fits(pre[j], j, self.name@, self.config));
                assert(pre[j].status is Stopped && pre[j].retries == 0);
            }
            assert forall|j: int| 0 <= j < pre.len() implies launched_replica(
                #[trigger] self.processes@[j],
                self.config.autostart,
            ) by {
                assert(pre[j].status is Stopped && pre[j].retries == 0 && pre[j].child is None);
            }
        }
    }

    /// What the host must do for each replica before `polls` is applied by `try_wait`.
    pub fn plan(&self, now: u64, polls: &Vec<Poll>) -> (r: Vec<Effect>)
        requires
            polls@.len() == self.processes@.len(),
        ensures
            r@.len() == self.processes@.len(),
            forall|i: int|
                0 <= i < r@.len() ==> #[trigger] r@[i] == effect_of(
                    self.processes@[i],
                    self.config,
                    polls@[i],
                    now,
                ),
    {
        let mut r: Vec<Effect> = Vec::new();
        let mut i: usize = 0;
        while i < self.processes.len()
            invariant
                polls@.len() == self.processes@.len(),
                r@.len() == i,
                0 <= i <= self.processes@.len(),
                forall|j: int|
                    0 <= j < i ==> #[trigger] r@[j] == effect_of(self.processes@[j], self.config, polls@[j], now),
            decreases self.processes@.len() - i,
        {
            r.push(self.processes[i].plan(&self.config, polls[i], now));
            i = i + 1;
        }
        r
    }

    /// Applies one round of non-blocking waits: `polls[i]` is what the wait on
    /// replica `i`'s child reported, `spawns[i]` the outcome of the spawn that
    /// `plan` called for. A terminated child is reaped, a running one ticked.
    pub fn try_wait(&mut self, now: u64, polls: &Vec<Poll>, spawns: &Vec<Result<u32, String>>)
        requires
            old(self).wf(),
            polls@.len() == old(self).processes@.len(),
            spawns@.len() == old(self).processes@.len(),
        ensures
            final(self).wf(),
            final(self).name == old(self).name,
            final(self).config == old(self).config,
            final(self).processes@.len() == old(self).processes@.len(),
            forall|i: int|
                0 <= i < old(self).processes@.len() ==> #[trigger] final(self).processes@[i]
                    == polled(old(self).processes@[i], old(self).config, polls@[i], now, spawns@[i]),
    {
        let ghost pre = self.processes@;
        let mut i: usize = 0;
        while i < self.processes.len()
            invariant
                self.name == old(self).name,
                self.config == old(self).config,
                pre == old(self).processes@,
                old(self).wf(),
                polls@.len() == pre.len(),
                spawns@.len() == pre.len(),
                self.processes@.len() == pre.len(),
                0 <= i <= pre.len(),
                forall|j: int|
                    0 <= j < i ==> #[trigger] self.processes@[j] == polled(pre[j], self.config, polls@[j], now, spawns@[j]),
                forall|j: int| i <= j < pre.len() ==> #[trigger] self.processes@[j] == pre[j],
            decreases pre.len() - i,
        {
            self.processes[i].poll(&self.config, polls[i], now, copy_outcome(&spawns[i]));
            i = i + 1;
        }
        proof {
            assert forall|j: int| 0 <= j < pre.len() implies replica_fits(
                #[trigger] self.processes@[j],
                j,
                self.name@,
                self.config,
            ) by {
                assert(replica_fits(pre[j], j, self.name@, self.config));
            }
        }
    }

    /// For each replica, whether `id` picks it and an operator start (which
    /// clears any recorded error) would spawn a child for it.
    pub fn needs_spawn(&self, id: &str) -> (r: Vec<bool>)
        ensures
            r@.len() == self.processes@.len(),
            forall|i: int|
                0 <= i < r@.len() ==> #[trigger] r@[i] == (selects(id@, self.processes@[i].id)
                    && self.processes@[i].child is None),
    {
        let mut r: Vec<bool> = Vec::new();
        let mut i: usize = 0;
        while i < self.processes.len()
            invariant
                0 <= i <= self.processes@.len(),
                r@.len() == i,
                forall|j: int|
                    0 <= j < i ==> #[trigger] r@[j] == (selects(id@, self.processes@[j].id)
                        && self.processes@[j].child is None),
            decreases self.processes@.len() - i,
        {
            let p = &self.processes[i];
            r.push(selects_id(id, p.id) && p.child.is_none());
            i = i + 1;
        }
        r
    }

    /// For each replica, whether `id` picks it and it has a live child to signal.
    pub fn needs_signal(&self, id: &str) -> (r: Vec<bool>)
        ensures
            r@.len() == self.processes@.len(),
            forall|i: int|
                0 <= i < r@.len() ==> #[trigger] r@[i] == (selects(id@, self.processes@[i].id)
                    && self.processes@[i].child is Some),
    {
        let mut r: Vec<bool> = Vec::new();
        let mut i: usize = 0;
        while i < self.processes.len()
            invariant
                0 <= i <= self.processes@.len(),
                r@.len() == i,
                forall|j: int|
                    0 <= j < i ==> #[trigger] r@[j] == (selects(id@, self.processes@[j].id)
                        && self.processes@[j].child is Some),
            decreases self.processes@.len() - i,
        {
            let p = &self.processes[i];
            r.push(selects_id(id, p.id) && p.child.is_some());
            i = i + 1;
        }
        r
    }

    /// For each replica, whether a restart picked by `id` sends its child the
    /// stop signal: only a child not already being stopped gets one.
    pub fn needs_restart_signal(&self, id: &str) -> (r: Vec<bool>)
        ensures
            r@.len() == self.processes@.len(),
            forall|i: int|
                0 <= i < r@.len() ==> #[trigger] r@[i] == (selects(id@, self.processes@[i].id)
                    && self.processes@[i].child is Some && !(self.processes@[i].status is Stopping)
                    && !(self.processes@[i].status is Restarting)),
    {
        let mut r: Vec<bool> = Vec::new();
        let mut i: usize = 0;
        while i < self.processes.len()
            invariant
                0 <= i <= self.processes@.len(),
                r@.len() == i,
                forall|j: int|
                    0 <= j < i ==> #[trigger] r@[j] == (selects(id@, self.processes@[j].id)
                        && self.processes@[j].child is Some && !(self.processes@[j].status is Stopping)
                        && !(self.processes@[j].status is Restarting)),
            decreases self.processes@.len() - i,
        {
            let p = &self.processes[i];
            let quiet = matches!(p.status, Status::Stopping) || matches!(p.status, Status::Restarting);
            r.push(selects_id(id, p.id) && p.child.is_some() && !quiet);
            i = i + 1;
        }
        r
    }

    /// Whether any replica still has a live child.
    pub open spec fn has_alive(&self) -> bool {
        exists|i: int| 0 <= i < self.processes@.len() && is_alive(#[trigger] self.processes@[i].status)
    }

    /// Whether any replica is Starting, Running, Stopping or Restarting.
    pub fn any_alive(&self) -> (r: bool)
        ensures
            r == self.has_alive(),
    {
        let mut i: usize = 0;
        while i < self.processes.len()
            invariant
                0 <= i <= self.processes@.len(),
                forall|j: int| 0 <= j < i ==> !is_alive(#[trigger] self.processes@[j].status),
            decreases self.processes@.len() - i,
        {
            match self.processes[i].status {
                Status::Stopped | Status::Fatal => {},
                _ => {
                    return true;
                },
            }
            i = i + 1;
        }
        false
    }
}

/// The third column of a status line.
pub enum Info {
    /// Why the replica cannot run.
    Error(String),
    /// The pid of its live child.
    Pid(u32),
    Nothing,
}

/// One line of the status table: the replica's label (its id shown only when
/// the task has several), status, error or pid, and uptime while Running.
pub struct StatusLine {
    pub name: String,
    pub id: Option<u32>,
    pub status: Status,
    pub info: Info,
    pub uptime: Option<(u64, u64, u64)>,
}

/// Hours, minutes and seconds since `p` entered Running.
pub open spec fn hms(p: Process, now: u64) -> (u64, u64, u64) {
    let s: int = if now >= p.uptime { (now - p.uptime) / 1000 } else { 0 };
    ((s / 3600) as u64, ((s / 60) % 60) as u64, (s % 60) as u64)
}

pub open spec fn line_of(t: Task, p: Process, now: u64) -> StatusLine {
    StatusLine {
        name: t.name,
        id: if t.config.numprocs > 1 { Some(p.id) } else { None },
        status: p.status,
        info: match p.error {
            Some(e) => Info::Error(e),
            None => match p.child {
                Some(pid) => Info::Pid(pid),
                None => Info::Nothing,
            },
        },
        uptime: if p.error is None && p.child is Some && p.status is Running {
            Some(hms(p, now))
        } else {
            None
        },
    }
}

/// The status lines of the first `k` replicas that `sel` picks, in order.
pub open spec fn lines_upto(t: Task, sel: Seq<char>, now: u64, k: int) -> Seq<StatusLine>
    decreases k,
{
    if k <= 0 {
        Seq::empty()
    } else {
        let rest = lines_upto(t, sel, now, k - 1);
        if selects(sel, t.processes@[k - 1].id) {
            rest.push(line_of(t, t.processes@[k - 1], now))
        } else {
            rest
        }
    }
}

/// How the log reports a reaped child.
#[derive(Debug, PartialEq, Eq, Structural, Clone, Copy)]
pub enum ExitReport {
    /// "exited ... (exit status N; expected|not expected)"
    Exited { code: i32, expected: bool },
    /// "stopped ... (exit status N)"
    Stopped { code: i32 },
    /// "exited ... (terminated by SIG<name>; not expected)"
    Signalled { sig: Sigtype },
    /// "stopped ... (terminated by SIG<name>)"
    StoppedBySignal { sig: Sigtype },
    /// "exited ... (unknown reason)"
    Unknown,
}

pub open spec fn report_of(exit: Exit, codes: Seq<i32>, status: Status) -> ExitReport {
    match exit {
        Exit::Code(c) => match status {
            Status::Starting => ExitReport::Exited { code: c, expected: false },
            Status::Running => ExitReport::Exited { code: c, expected: codes.contains(c) },
            _ => ExitReport::Stopped { code: c },
        },
        Exit::Signal(n) => match status {
            Status::Starting | Status::Running => ExitReport::Signalled { sig: sig_of_code(n) },
            _ => ExitReport::StoppedBySignal { sig: sig_of_code(n) },
        },
        Exit::Unknown => ExitReport::Unknown,
    }
}

/// How to report the exit of a child whose replica was in `status`: an exit
/// while Starting is never expected, one while Running is expected when its
/// code is among `codes`, and any other is a stop.
pub fn exit_report(exit: Exit, codes: &Vec<i32>, status: Status) -> (r: ExitReport)
    ensures
        r == report_of(exit, codes@, status),
{
    match exit {
        Exit::Code(c) => match status {
            Status::Starting => ExitReport::Exited { code: c, expected: false },
            Status::Running => ExitReport::Exited { code: c, expected: has_code(codes, c) },
            _ => ExitReport::Stopped { code: c },
        },
        Exit::Signal(n) => match status {
            Status::Starting | Status::Running => ExitReport::Signalled { sig: Sigtype::from(n) },
            _ => ExitReport::StoppedBySignal { sig: Sigtype::from(n) },
        },
        Exit::Unknown => ExitReport::Unknown,
    }
}

pub open spec fn status_text(s: Status) -> Seq<char> {
    match s {
        Status::Running => "\x1B[32mRunning\x1B[0m"@,
        Status::Stopping => "\x1B[31mStopping\x1B[0m"@,
        Status::Stopped => "\x1B[30mStopped\x1B[0m"@,
        Status::Restarting => "\x1B[33mRestarting\x1B[0m"@,
        Status::Fatal => "\x1B[31mFatal\x1B[0m"@,
        Status::Starting => "\x1B[33mStarting\x1B[0m"@,
    }
}

/// The status word as the table shows it, in its terminal colour.
pub fn status_label(s: Status) -> (r: &'static str)
    ensures
        r@ == status_text(s),
{
    match s {
        Status::Running => "\x1B[32mRunning\x1B[0m",
        Status::Stopping => "\x1B[31mStopping\x1B[0m",
        Status::Stopped => "\x1B[30mStopped\x1B[0m",
        Status::Restarting => "\x1B[33mRestarting\x1B[0m",
        Status::Fatal => "\x1B[31mFatal\x1B[0m",
        Status::Starting => "\x1B[33mStarting\x1B[0m",
    }
}

impl Task {
    fn line(&self, i: usize, now: u64) -> (r: StatusLine)
        requires
            i < self.processes@.len(),
        ensures
            r == line_of(*self, self.processes@[i as int], now),
    {
        let p = &self.processes[i];
        let info = match &p.error {
            Some(e) => Info::Error(e.clone()),
            None => match p.child {
                Some(pid) => Info::Pid(pid),
                None => Info::Nothing,
            },
        };
        let uptime = if p.error.is_none() && p.child.is_some() && matches!(p.status, Status::Running) {
            Some(p.uptime_hms(now))
        } else {
            None
        };
        StatusLine {
            name: self.name.clone(),
            id: if self.config.numprocs > 1 { Some(p.id) } else { None },
            status: p.status,
            info,
            uptime,
        }
    }

    /// The status table lines of the replicas that `id` picks, in replica order.
    pub fn print_processes(&self, id: &str, now: u64) -> (r: Vec<StatusLine>)
        ensures
            r@ == lines_upto(*self, id@, now, self.processes@.len() as int),
    {
        let mut r: Vec<StatusLine> = Vec::new();
        let mut i: usize = 0;
        while i < self.processes.len()
            invariant
                0 <= i <= self.processes@.len(),
                r@ == lines_upto(*self, id@, now, i as int),
            decreases self.processes@.len() - i,
        {
            if selects_id(id, self.processes[i].id) {
                r.push(self.line(i, now));
            }
            i = i + 1;
        }
        r
    }
}

/// Every replica keeps `|processes| = numprocs`.
pub proof fn lemma_replica_count(t: Task)
    requires
        t.wf(),
    ensures
        t.processes@.len() == t.config.numprocs,
        forall|i: int| 0 <= i < t.processes@.len() ==> (#[trigger] t.processes@[i]).id == i,
{
}

/// With a budget of at least one retry, no Starting replica has used more
/// than `startretries` attempts.
pub proof fn lemma_retry_budget(t: Task)
    requires
        t.wf(),
        t.config.startretries >= 1,
    ensures
        forall|i: int|
            0 <= i < t.processes@.len() && (#[trigger] t.processes@[i]).status is Starting
                ==> t.processes@[i].retries <= t.config.startretries,
{
    assert forall|i: int|
        0 <= i < t.processes@.len() && (#[trigger] t.processes@[i]).status is Starting
            implies t.processes@[i].retries <= t.config.startretries by {
        assert(replica_fits(t.processes@[i], i, t.name@, t.config));
    }
}

/// A child of a well-formed task that dies while Starting is retried while
/// attempts remain (a spawn is called for and, when it succeeds, counts one
/// more retry), and the replica turns Fatal exactly when the budget is used up.
pub proof fn lemma_fatal_on_exhausted_budget(
    t: Task,
    i: int,
    e: Exit,
    now: u64,
    spawn: Result<u32, String>,
)
    requires
        t.wf(),
        0 <= i < t.processes@.len(),
        t.processes@[i].child is Some,
        t.processes@[i].status is Starting,
    ensures
        ({
            let p = t.processes@[i];
            let q = polled(p, t.config, Poll::Exited(e), now, spawn);
            &&& p.retries >= t.config.startretries ==> q.status is Fatal && q.child is None && q.retries
                == p.retries && !effect_of(p, t.config, Poll::Exited(e), now).spawn
            &&& p.retries < t.config.startretries ==> effect_of(p, t.config, Poll::Exited(e), now).spawn
            &&& p.retries < t.config.startretries && spawn is Ok ==> q.status is Starting && q.retries
                == p.retries + 1
        }),
{
    assert(replica_fits(t.processes@[i], i, t.name@, t.config));
}

/// After `stop("*")` reached every live child at `t_stop`, one round of polls
/// at least `stoptime` seconds later (none of whose waits failed) leaves no
/// replica alive: each one that was alive is Stopped.
pub proof fn lemma_stop_converges(
    t0: Task,
    t1: Task,
    t2: Task,
    t_stop: u64,
    delivered: Seq<bool>,
    now: u64,
    polls: Seq<Poll>,
    spawns: Seq<Result<u32, String>>,
)
    requires
        t0.wf(),
        delivered.len() == t0.processes@.len(),
        polls.len() == t0.processes@.len(),
        spawns.len() == t0.processes@.len(),
        forall|i: int| 0 <= i < delivered.len() ==> #[trigger] delivered[i],
        forall|i: int| 0 <= i < polls.len() ==> !(#[trigger] polls[i] is Failed),
        t1.config == t0.config,
        t1.processes@.len() == t0.processes@.len(),
        forall|i: int|
            0 <= i < t0.processes@.len() ==> #[trigger] t1.processes@[i]
                == stop_one(t0.processes@[i], seq!['*'], t_stop, delivered[i]),
        t2.processes@.len() == t0.processes@.len(),
        forall|i: int|
            0 <= i < t0.processes@.len() ==> #[trigger] t2.processes@[i]
                == polled(t1.processes@[i], t1.config, polls[i], now, spawns[i]),
        now as int >= t_stop as int + t0.config.stoptime as int * 1000,
    ensures
        forall|i: int| 0 <= i < t2.processes@.len() ==> !is_alive((#[trigger] t2.processes@[i]).status),
        forall|i: int|
            0 <= i < t0.processes@.len() && is_alive((#[trigger] t0.processes@[i]).status)
                ==> t2.processes@[i].status is Stopped,
{
    assert forall|i: int| 0 <= i < t2.processes@.len() implies !is_alive((#[trigger] t2.processes@[i]).status)
        && (is_alive(t0.processes@[i].status) ==> t2.processes@[i].status is Stopped) by {
        assert(replica_fits(t0.processes@[i], i, t0.name@, t0.config));
        assert(t1.processes@[i] == stop_one(t0.processes@[i], seq!['*'], t_stop, delivered[i]));
        assert(t2.processes@[i] == polled(t1.processes@[i], t1.config, polls[i], now, spawns[i]));
    }
}

/// Every replica of `t` is either not alive or Stopping since `t_stop`.
pub open spec fn draining(t: Task, t_stop: u64) -> bool {
    forall|i: int|
        0 <= i < t.processes@.len() ==> !is_alive((#[trigger] t.processes@[i]).status) || (
        t.processes@[i].status is Stopping && t.processes@[i].timer == t_stop)
}

/// `stop("*")` at `t_stop` whose signals all reached their children leaves the task draining.
pub proof fn lemma_stop_starts_draining(t0: Task, t1: Task, t_stop: u64, delivered: Seq<bool>)
    requires
        t0.wf(),
        delivered.len() == t0.processes@.len(),
        forall|i: int| 0 <= i < delivered.len() ==> #[trigger] delivered[i],
        t1.processes@.len() == t0.processes@.len(),
        forall|i: int|
            0 <= i < t0.processes@.len() ==> #[trigger] t1.processes@[i]
                == stop_one(t0.processes@[i], seq!['*'], t_stop, delivered[i]),
    ensures
        draining(t1, t_stop),
{
    assert forall|i: int| 0 <= i < t1.processes@.len() implies !is_alive((#[trigger] t1.processes@[i]).status)
        || (t1.processes@[i].status is Stopping && t1.processes@[i].timer == t_stop) by {
        assert(replica_fits(t0.processes@[i], i, t0.name@, t0.config));
        assert(delivered[i]);
    }
}

/// Any round of polls keeps a draining task draining; a round taken at least
/// `stoptime` after `t_stop`, with no failed wait, leaves no replica alive.
/// Chained over rounds, a task that was stopped converges to no live replica.
pub proof fn lemma_draining_round(
    t1: Task,
    t2: Task,
    t_stop: u64,
    now: u64,
    polls: Seq<Poll>,
    spawns: Seq<Result<u32, String>>,
)
    requires
        t1.wf(),
        draining(t1, t_stop),
        polls.len() == t1.processes@.len(),
        spawns.len() == t1.processes@.len(),
        t2.processes@.len() == t1.processes@.len(),
        forall|i: int|
            0 <= i < t1.processes@.len() ==> #[trigger] t2.processes@[i]
                == polled(t1.processes@[i], t1.config, polls[i], now, spawns[i]),
    ensures
        draining(t2, t_stop),
        now as int >= t_stop as int + t1.config.stoptime as int * 1000 && (forall|i: int|
            0 <= i < polls.len() ==> !(#[trigger] polls[i] is Failed)) ==> forall|i: int|
            0 <= i < t2.processes@.len() ==> !is_alive((#[trigger] t2.processes@[i]).status),
{
    assert forall|i: int| 0 <= i < t2.processes@.len() implies !is_alive((#[trigger] t2.processes@[i]).status)
        || (t2.processes@[i].status is Stopping && t2.processes@[i].timer == t_stop) by {
        assert(replica_fits(t1.processes@[i], i, t1.name@, t1.config));
        assert(t2.processes@[i] == polled(t1.processes@[i], t1.config, polls[i], now, spawns[i]));
    }
    if now as int >= t_stop as int + t1.config.stoptime as int * 1000 && (forall|i: int|
        0 <= i < polls.len() ==> !(#[trigger] polls[i] is Failed)) {
        assert forall|i: int| 0 <= i < t2.processes@.len() implies !is_alive((#[trigger] t2.processes@[i]).status) by {
            assert(replica_fits(t1.processes@[i], i, t1.name@, t1.config));
            assert(t2.processes@[i] == polled(t1.processes@[i], t1.config, polls[i], now, spawns[i]));
            assert(!(polls[i] is Failed));
        }
    }
}

} // verus!
