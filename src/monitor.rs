use vstd::prelude::*;
use crate::config::{same_config, Config};
use crate::process::{is_alive, killed, polled, Poll, Process};
use crate::task::{idle, launched, lemma_stop_converges, replica_fits, stop_one, Task};
use crate::terminal::ProcessArg;
use crate::text::{words, words_of};

verus! {

/// The operator verbs.
#[derive(Debug, PartialEq, Eq, Structural, Clone, Copy)]
pub enum CommandName {
    START,
    STOP,
    RESTART,
    UPDATE,
    STATUS,
    SHUTDOWN,
    KILL,
}

/// The control plane's state: the task table, keyed by name, and the shutdown flag.
pub struct Monitor {
    pub tasks: Vec<Task>,
    pub shutdown: bool,
}

/// Where one (task, selector) pair of an operator command goes.
pub enum Route {
    /// No task has this name.
    Missing,
    /// The task at this index of the table.
    Found(usize),
}

/// What reload does to one live task.
#[derive(Debug, PartialEq, Eq, Structural, Clone, Copy)]
pub enum Change {
    /// Its configuration is unchanged: leave it alone.
    Keep,
    /// Its configuration changed: stop it, wait, and rebuild it from the fresh entry at this index.
    Replace(usize),
    /// Its name is gone from the configuration: stop it, wait, and remove it.
    Remove,
}

/// The diff between the live table and a fresh configuration set.
pub struct ReloadPlan {
    /// One change per live task, in table order.
    pub live: Vec<Change>,
    /// The entries of the fresh set whose names no live task has, in order.
    pub added: Vec<usize>,
}

/// Names of a configuration set are unique, as in a map.
pub open spec fn unique_names(fresh: Seq<(String, Config)>) -> bool {
    forall|a: int, b: int|
        0 <= a < fresh.len() && 0 <= b < fresh.len() && a != b ==> fresh[a].0@ != fresh[b].0@
}

/// The index of a task named `name` in `tasks`, if any.
pub open spec fn task_named(tasks: Seq<Task>, name: Seq<char>) -> Option<int> {
    if exists|i: int| 0 <= i < tasks.len() && tasks[i].name@ == name {
        Some(choose|i: int| 0 <= i < tasks.len() && tasks[i].name@ == name)
    } else {
        None
    }
}

/// The index of the entry named `name` in a configuration set, if any.
pub open spec fn entry_named(fresh: Seq<(String, Config)>, name: Seq<char>) -> Option<int> {
    if exists|j: int| 0 <= j < fresh.len() && fresh[j].0@ == name {
        Some(choose|j: int| 0 <= j < fresh.len() && fresh[j].0@ == name)
    } else {
        None
    }
}

proof fn lemma_task_named_unique(tasks: Seq<Task>, name: Seq<char>, t: int)
    requires
        0 <= t < tasks.len(),
        tasks[t].name@ == name,
        forall|a: int, b: int|
            0 <= a < tasks.len() && 0 <= b < tasks.len() && a != b ==> tasks[a].name@ != tasks[b].name@,
    ensures
        task_named(tasks, name) == Some(t),
{
}

/// Where an argument naming `name` goes: the task of that name, else `Missing`.
pub open spec fn route_of(name: Seq<char>, tasks: Seq<Task>) -> Route {
    match task_named(tasks, name) {
        Some(t) => Route::Found(t as usize),
        None => Route::Missing,
    }
}


/// The change that reload makes to live task `t`.
pub open spec fn change_of(t: Task, fresh: Seq<(String, Config)>) -> Change {
    match entry_named(fresh, t.name@) {
        Some(j) => if same_config(t.config, fresh[j].1) {
            Change::Keep
        } else {
            Change::Replace(j as usize)
        },
        None => Change::Remove,
    }
}

/// The entries among the first `k` of `fresh` that name no live task.
pub open spec fn added_upto(tasks: Seq<Task>, fresh: Seq<(String, Config)>, k: int) -> Seq<usize>
    decreases k,
{
    if k <= 0 {
        Seq::empty()
    } else {
        let rest = added_upto(tasks, fresh, k - 1);
        if task_named(tasks, fresh[k - 1].0@) is None {
            rest.push((k - 1) as usize)
        } else {
            rest
        }
    }
}

impl Monitor {
    /// Every task is well formed and no two share a name.
    pub open spec fn wf(&self) -> bool {
        &&& forall|i: int| 0 <= i < self.tasks@.len() ==> (#[trigger] self.tasks@[i]).wf()
        &&& forall|a: int, b: int|
            0 <= a < self.tasks@.len() && 0 <= b < self.tasks@.len() && a != b
                ==> self.tasks@[a].name@ != self.tasks@[b].name@
    }

    /// Whether some replica of some task is alive.
    pub open spec fn has_alive(&self) -> bool {
        exists|i: int| 0 <= i < self.tasks@.len() && (#[trigger] self.tasks@[i]).has_alive()
    }

    /// An empty table, not shutting down.
    pub fn new() -> (r: Monitor)
        ensures
            r.wf(),
            r.tasks@.len() == 0,
            !r.shutdown,
    {
        Monitor { tasks: Vec::new(), shutdown: false }
    }

    /// The index of the task called `name`.
    pub fn find_task(&self, name: &str) -> (r: Option<usize>)
        ensures
            r is None <==> task_named(self.tasks@, name@) is None,
            r is Some ==> r->0 < self.tasks@.len() && self.tasks@[r->0 as int].name@ == name@,
    {
        let wanted = name.to_owned();
        let mut i: usize = 0;
        while i < self.tasks.len()
            invariant
                wanted@ == name@,
                0 <= i <= self.tasks@.len(),
                forall|j: int| 0 <= j < i ==> self.tasks@[j].name@ != name@,
            decreases self.tasks@.len() - i,
        {
            if self.tasks[i].name == wanted {
                return Some(i);
            }
            i = i + 1;
        }
        None
    }

    /// Adds a task unless one of that name exists; returns whether it was added.
    pub fn insert_task(&mut self, task: Task) -> (added: bool)
        requires
            old(self).wf(),
            task.wf(),
        ensures
            final(self).wf(),
            final(self).shutdown == old(self).shutdown,
            added == (task_named(old(self).tasks@, task.name@) is None),
            added ==> final(self).tasks@ == old(self).tasks@.push(task),
            !added ==> final(self).tasks@ == old(self).tasks@,
    {
        if self.find_task(task.name.as_str()).is_some() {
            return false;
        }
        self.tasks.push(task);
        true
    }

    /// Puts `task` in the place of the task of the same name at index `i`.
    pub fn replace_task(&mut self, i: usize, task: Task)
        requires
            old(self).wf(),
            task.wf(),
            i < old(self).tasks@.len(),
            task.name@ == old(self).tasks@[i as int].name@,
        ensures
            final(self).wf(),
            final(self).shutdown == old(self).shutdown,
            final(self).tasks@ == old(self).tasks@.update(i as int, task),
    {
        self.tasks.set(i, task);
    }

    /// Removes the task at index `i` from the table.
    pub fn remove_task(&mut self, i: usize) -> (r: Task)
        requires
            old(self).wf(),
            i < old(self).tasks@.len(),
        ensures
            final(self).wf(),
            final(self).shutdown == old(self).shutdown,
            r == old(self).tasks@[i as int],
            final(self).tasks@ == old(self).tasks@.remove(i as int),
    {
        self.tasks.remove(i)
    }

    /// Whether any replica of any task is Starting, Running, Stopping or Restarting.
    pub fn process_still_alive(&self) -> (r: bool)
        ensures
            r == self.has_alive(),
    {
        let mut i: usize = 0;
        while i < self.tasks.len()
            invariant
                0 <= i <= self.tasks@.len(),
                forall|j: int| 0 <= j < i ==> !(#[trigger] self.tasks@[j]).has_alive(),
            decreases self.tasks@.len() - i,
        {
            if self.tasks[i].any_alive() {
                return true;
            }
            i = i + 1;
        }
        false
    }

    /// SHUTDOWN: sets the shutdown flag and stops every replica of every task;
    /// `delivered[k][i]` tells whether the stop signal reached replica `i` of
    /// task `k`. Nothing is spawned.
    pub fn shutdown(&mut self, now: u64, delivered: &Vec<Vec<bool>>)
        requires
            old(self).wf(),
            delivered@.len() == old(self).tasks@.len(),
            forall|k: int|
                0 <= k < delivered@.len() ==> (#[trigger] delivered@[k])@.len()
                    == old(self).tasks@[k].processes@.len(),
        ensures
            final(self).wf(),
            final(self).shutdown,
            final(self).tasks@.len() == old(self).tasks@.len(),
            forall|k: int|
                0 <= k < old(self).tasks@.len() ==> {
                    &&& (#[trigger] final(self).tasks@[k]).name == old(self).tasks@[k].name
                    &&& final(self).tasks@[k].config == old(self).tasks@[k].config
                    &&& final(self).tasks@[k].processes@.len() == old(self).tasks@[k].processes@.len()
                },
            forall|k: int, i: int|
                0 <= k < old(self).tasks@.len() && 0 <= i < old(self).tasks@[k].processes@.len()
                    ==> #[trigger] final(self).tasks@[k].processes@[i] == stop_one(
                    old(self).tasks@[k].processes@[i],
                    seq!['*'],
                    now,
                    delivered@[k]@[i],
                ),
    {
        self.shutdown = true;
        let all = "*";
        proof {
            reveal_strlit("*");
            assert(all@ =~= seq!['*']);
        }
        let ghost pre = self.tasks@;
        let mut k: usize = 0;
        while k < self.tasks.len()
            invariant
                self.shutdown,
                all@ == seq!['*'],
                pre == old(self).tasks@,
                old(self).wf(),
                delivered@.len() == pre.len(),
                forall|j: int| 0 <= j < delivered@.len() ==> (#[trigger] delivered@[j])@.len() == pre[j].processes@.len(),
                self.tasks@.len() == pre.len(),
                0 <= k <= pre.len(),
                forall|j: int| k <= j < pre.len() ==> #[trigger] self.tasks@[j] == pre[j],
                forall|j: int|
                    0 <= j < k ==> {
                        &&& (#[trigger] self.tasks@[j]).wf()
                        &&& self.tasks@[j].name == pre[j].name
                        &&& self.tasks@[j].config == pre[j].config
                        &&& self.tasks@[j].processes@.len() == pre[j].processes@.len()
                        &&& forall|i: int|
                            0 <= i < pre[j].processes@.len() ==> #[trigger] self.tasks@[j].processes@[i]
                                == stop_one(pre[j].processes@[i], seq!['*'], now, delivered@[j]@[i])
                    },
            decreases pre.len() - k,
        {
            assert(pre[k as int].wf());
            self.tasks[k].stop(all, now, &delivered[k]);
            k = k + 1;
        }
    }

    /// KILL: every live child of every task is hard-killed and its replica Stopped.
    pub fn kill_all(&mut self)
        requires
            old(self).wf(),
        ensures
            final(self).wf(),
            final(self).shutdown == old(self).shutdown,
            final(self).tasks@.len() == old(self).tasks@.len(),
            forall|k: int|
                0 <= k < old(self).tasks@.len() ==> {
                    &&& (#[trigger] final(self).tasks@[k]).name == old(self).tasks@[k].name
                    &&& final(self).tasks@[k].config == old(self).tasks@[k].config
                    &&& final(self).tasks@[k].processes@.len() == old(self).tasks@[k].processes@.len()
                },
            forall|k: int, i: int|
                0 <= k < old(self).tasks@.len() && 0 <= i < old(self).tasks@[k].processes@.len()
                    ==> #[trigger] final(self).tasks@[k].processes@[i] == killed(old(self).tasks@[k].processes@[i]),
    {
        let ghost pre = self.tasks@;
        let mut k: usize = 0;
        while k < self.tasks.len()
            invariant
                self.shutdown == old(self).shutdown,
                pre == old(self).tasks@,
                old(self).wf(),
                self.tasks@.len() == pre.len(),
                0 <= k <= pre.len(),
                forall|j: int| k <= j < pre.len() ==> #[trigger] self.tasks@[j] == pre[j],
                forall|j: int|
                    0 <= j < k ==> {
                        &&& (#[trigger] self.tasks@[j]).wf()
                        &&& self.tasks@[j].name == pre[j].name
                        &&& self.tasks@[j].config == pre[j].config
                        &&& self.tasks@[j].processes@.len() == pre[j].processes@.len()
                        &&& forall|i: int|
                            0 <= i < pre[j].processes@.len() ==> #[trigger] self.tasks@[j].processes@[i]
                                == killed(pre[j].processes@[i])
                    },
            decreases pre.len() - k,
        {
            assert(pre[k as int].wf());
            self.tasks[k].kill();
            k = k + 1;
        }
    }

    /// Whether the daemon may exit: shutting down and nothing alive, so that
    /// no child survives.
    pub fn should_exit(&self) -> (r: bool)
        requires
            self.wf(),
        ensures
            r == (self.shutdown && !self.has_alive()),
            r ==> forall|i: int, k: int|
                0 <= i < self.tasks@.len() && 0 <= k < self.tasks@[i].processes@.len()
                    ==> (#[trigger] self.tasks@[i].processes@[k]).child is None,
    {
        let r = self.shutdown && !self.process_still_alive();
        proof {
            if r {
                assert forall|i: int, k: int|
                    0 <= i < self.tasks@.len() && 0 <= k < self.tasks@[i].processes@.len()
                        implies (#[trigger] self.tasks@[i].processes@[k]).child is None by {
                    let t = self.tasks@[i];
                    assert(t.wf());
                    assert(replica_fits(t.processes@[k], k, t.name@, t.config));
                    assert(!t.has_alive());
                    assert(!is_alive(t.processes@[k].status));
                }
            }
        }
        r
    }

    /// Where each argument of an operator command goes: the task of that
    /// name, or `Missing` when there is none.
    pub fn route(&self, list: &Vec<ProcessArg>) -> (r: Vec<Route>)
        requires
            self.wf(),
        ensures
            r@.len() == list@.len(),
            forall|i: int|
                0 <= i < r@.len() ==> #[trigger] r@[i] == route_of(list@[i].name@, self.tasks@),
    {
        let mut r: Vec<Route> = Vec::new();
        let mut i: usize = 0;
        while i < list.len()
            invariant
                self.wf(),
                0 <= i <= list@.len(),
                r@.len() == i,
                forall|k: int|
                    0 <= k < i ==> #[trigger] r@[k] == route_of(list@[k].name@, self.tasks@),
            decreases list@.len() - i,
        {
            let found = match self.find_task(list[i].name.as_str()) {
                Some(t) => {
                    proof {
                        lemma_task_named_unique(self.tasks@, list@[i as int].name@, t as int);
                    }
                    Route::Found(t)
                },
                None => Route::Missing,
            };
            r.push(found);
            i = i + 1;
        }
        r
    }

    /// Applies the reload plan against `fresh` once the replaced and removed
    /// tasks have no live replica: kept tasks stay as they are, replaced ones
    /// give way to their rebuilt task, removed ones leave, and the added tasks
    /// join at the end. Afterwards the table holds exactly the tasks that
    /// `fresh` names, each with its entry's configuration.
    pub fn update(
        &mut self,
        fresh: &Vec<(String, Config)>,
        plan: &ReloadPlan,
        rebuilt: Vec<Option<Task>>,
        added: Vec<Task>,
    )
        requires
            old(self).wf(),
            update_ready(old(self).tasks@, fresh@, plan.live@, plan.added@, rebuilt@, added@),
        ensures
            final(self).wf(),
            final(self).shutdown == old(self).shutdown,
            final(self).tasks@ == reloaded_upto(old(self).tasks@, plan.live@, rebuilt@, plan.live@.len() as int)
                + added@,
            matches_fresh(final(self).tasks@, fresh@),
    {
        let ghost tasks0 = self.tasks@;
        let ghost rebuilt0 = rebuilt@;
        let ghost live = plan.live@;
        let ghost fr = fresh@;
        let flen = fresh.len();
        let mut old_tasks: Vec<Task> = Vec::new();
        std::mem::swap(&mut self.tasks, &mut old_tasks);
        let mut rebuilt = rebuilt;
        let mut kept: Vec<Task> = Vec::new();
        let ghost mut origin: Seq<int> = Seq::empty();
        let n = plan.live.len();
        let mut i: usize = 0;
        while i < n
            invariant
                n == live.len(),
                n == tasks0.len(),
                live == plan.live@,
                fr.len() == flen,
                update_ready(tasks0, fr, live, plan.added@, rebuilt0, added@),
                forall|a: int, b: int|
                    0 <= a < tasks0.len() && 0 <= b < tasks0.len() && a != b ==> tasks0[a].name@ != tasks0[b].name@,
                forall|a: int| 0 <= a < tasks0.len() ==> (#[trigger] tasks0[a]).wf(),
                0 <= i <= n,
                old_tasks@ == tasks0.skip(i as int),
                rebuilt@ == rebuilt0.skip(i as int),
                kept@ == reloaded_upto(tasks0, live, rebuilt0, i as int),
                origin.len() == kept@.len(),
                forall|a: int| 0 <= a < origin.len() ==> 0 <= #[trigger] origin[a] < i,
                forall|a: int, b: int| 0 <= a < b < origin.len() ==> origin[a] < origin[b],
                forall|a: int| 0 <= a < origin.len() ==> (#[trigger] kept@[a]).name@ == tasks0[origin[a]].name@,
                forall|a: int| 0 <= a < kept@.len() ==> (#[trigger] kept@[a]).wf(),
                forall|a: int| 0 <= a < kept@.len() ==> fits_fresh(#[trigger] kept@[a], fr),
                forall|c: int|
                    0 <= c < i && !(#[trigger] live[c] is Remove) ==> exists|a: int| 0 <= a < origin.len() && origin[a] == c,
                self.shutdown == old(self).shutdown,
                self.tasks@.len() == 0,
            decreases n - i,
        {
            let ghost prev = origin;
            let t = old_tasks.remove(0);
            let r = rebuilt.remove(0);
            proof {
                assert(t == tasks0[i as int]);
                assert(r == rebuilt0[i as int]);
                assert(old_tasks@ =~= tasks0.skip(i + 1));
                assert(rebuilt@ =~= rebuilt0.skip(i + 1));
                assert(live[i as int] == change_of(tasks0[i as int], fr));
                assert(rebuilt_fits(live[i as int], rebuilt0[i as int], fr));
            }
            match plan.live[i] {
                Change::Keep => {
                    proof {
                        let j = entry_named(fr, t.name@)->0;
                        assert(fr[j].0@ == t.name@ && same_config(t.config, fr[j].1));
                        origin = origin.push(i as int);
                        assert(origin[origin.len() - 1] == i as int);
                    }
                    kept.push(t);
                },
                Change::Replace(j) => {
                    match r {
                        Some(fresh_task) => {
                            proof {
                                assert(fr[j as int].0@ == fresh_task.name@);
                                assert(entry_named(fr, t.name@) is Some);
                                let e = entry_named(fr, t.name@)->0;
                                assert(j as int == e);
                                assert(fresh_task.name@ == t.name@);
                                origin = origin.push(i as int);
                                assert(origin[origin.len() - 1] == i as int);
                            }
                            kept.push(fresh_task);
                        },
                        None => {
                            assert(false);
                        },
                    }
                },
                Change::Remove => {},
            }
            proof {
                assert forall|c: int|
                    0 <= c < i + 1 && !(#[trigger] live[c] is Remove) implies exists|a: int|
                        0 <= a < origin.len() && origin[a] == c by {
                    if c == i as int {
                        assert(origin[origin.len() - 1] == c);
                    } else {
                        let a = choose|a: int| 0 <= a < prev.len() && prev[a] == c;
                        assert(origin[a] == prev[a]);
                    }
                }
            }
            i = i + 1;
        }
        let ghost base = kept@;
        let mut added = added;
        let ghost added0 = added@;
        let mut j: usize = 0;
        let m = added.len();
        while j < m
            invariant
                m == added0.len(),
                0 <= j <= m,
                added@ == added0.skip(j as int),
                kept@ == base + added0.take(j as int),
            decreases m - j,
        {
            let t = added.remove(0);
            proof {
                assert(t == added0[j as int]);
                assert(added@ =~= added0.skip(j + 1));
                assert(base + added0.take(j + 1) =~= (base + added0.take(j as int)).push(t));
            }
            kept.push(t);
            j = j + 1;
        }
        proof {
            let aidx = plan.added@;
            lemma_added_upto(tasks0, fr, fr.len() as int);
            assert(added0.take(m as int) =~= added0);
            let fin = kept@;
            assert forall|a: int| 0 <= a < fin.len() implies (#[trigger] fin[a]).wf() && fits_fresh(fin[a], fr) by {
                if a >= base.len() {
                    let b = a - base.len();
                    assert(fin[a] == added0[b]);
                    assert(built_from(added0[b], fr, aidx[b] as int));
                    assert(aidx[b] < fr.len());
                }
            }
            assert forall|a: int, b: int|
                0 <= a < fin.len() && 0 <= b < fin.len() && a != b implies fin[a].name@ != fin[b].name@ by {
                if a < base.len() && b < base.len() {
                    if origin[a] == origin[b] {
                        if a < b {
                            assert(origin[a] < origin[b]);
                        } else {
                            assert(origin[b] < origin[a]);
                        }
                    }
                } else if a >= base.len() && b >= base.len() {
                    let x = a - base.len();
                    let y = b - base.len();
                    assert(fin[a] == added0[x] && fin[b] == added0[y]);
                    assert(built_from(added0[x], fr, aidx[x] as int));
                    assert(built_from(added0[y], fr, aidx[y] as int));
                    if x < y {
                        assert(aidx[x] < aidx[y]);
                    } else {
                        assert(aidx[y] < aidx[x]);
                    }
                } else if a < base.len() {
                    let y = b - base.len();
                    assert(fin[b] == added0[y]);
                    assert(built_from(added0[y], fr, aidx[y] as int));
                    assert(task_named(tasks0, fr[aidx[y] as int].0@) is None);
                    assert(tasks0[origin[a]].name@ == fin[a].name@);
                } else {
                    let x = a - base.len();
                    assert(fin[a] == added0[x]);
                    assert(built_from(added0[x], fr, aidx[x] as int));
                    assert(task_named(tasks0, fr[aidx[x] as int].0@) is None);
                    assert(tasks0[origin[b]].name@ == fin[b].name@);
                }
            }
            assert forall|k: int| 0 <= k < fr.len() implies task_named(fin, (#[trigger] fr[k]).0@) is Some by {
                let nm = fr[k].0@;
                if task_named(tasks0, nm) is Some {
                    let c = task_named(tasks0, nm)->0;
                    assert(tasks0[c].name@ == nm);
                    assert(entry_named(fr, nm) is Some);
                    assert(live[c] == change_of(tasks0[c], fr));
                    assert(!(live[c] is Remove));
                    let a = choose|a: int| 0 <= a < origin.len() && origin[a] == c;
                    assert(fin[a] == base[a]);
                    assert(fin[a].name@ == nm);
                } else {
                    let b = choose|b: int| 0 <= b < aidx.len() && aidx[b] == k;
                    assert(fin[base.len() + b] == added0[b]);
                    assert(built_from(added0[b], fr, aidx[b] as int));
                    assert(fin[base.len() + b].name@ == nm);
                }
            }
        }
        self.tasks = kept;
    }

    /// The reload diff against a fresh configuration set, by task name: a
    /// live task with an equal configuration is kept, one with a different
    /// configuration replaced, one whose name is gone removed; entries naming
    /// no live task are added.
    pub fn reload_plan(&self, fresh: &Vec<(String, Config)>) -> (r: ReloadPlan)
        requires
            unique_names(fresh@),
        ensures
            r.live@.len() == self.tasks@.len(),
            forall|i: int| 0 <= i < self.tasks@.len() ==> #[trigger] r.live@[i] == change_of(self.tasks@[i], fresh@),
            r.added@ == added_upto(self.tasks@, fresh@, fresh@.len() as int),
    {
        let mut live: Vec<Change> = Vec::new();
        let mut i: usize = 0;
        while i < self.tasks.len()
            invariant
                unique_names(fresh@),
                0 <= i <= self.tasks@.len(),
                live@.len() == i,
                forall|k: int| 0 <= k < i ==> #[trigger] live@[k] == change_of(self.tasks@[k], fresh@),
            decreases self.tasks@.len() - i,
        {
            let t = &self.tasks[i];
            let mut found: Option<usize> = None;
            let mut j: usize = 0;
            while j < fresh.len()
                invariant
                    0 <= j <= fresh@.len(),
                    found is None ==> forall|k: int| 0 <= k < j ==> fresh@[k].0@ != t.name@,
                    found is Some ==> found->0 < fresh@.len() && fresh@[found->0 as int].0@ == t.name@,
                decreases fresh@.len() - j,
            {
                if found.is_none() && fresh[j].0 == t.name {
                    found = Some(j);
                }
                j = j + 1;
            }
            let c = match found {
                Some(j) => {
                    proof {
                        let k = choose|k: int| 0 <= k < fresh@.len() && fresh@[k].0@ == t.name@;
                        assert(k == j as int);
                    }
                    if t.config.same_as(&fresh[j].1) {
                        Change::Keep
                    } else {
                        Change::Replace(j)
                    }
                },
                None => Change::Remove,
            };
            live.push(c);
            i = i + 1;
        }
        let mut added: Vec<usize> = Vec::new();
        let mut j: usize = 0;
        while j < fresh.len()
            invariant
                0 <= j <= fresh@.len(),
                added@ == added_upto(self.tasks@, fresh@, j as int),
            decreases fresh@.len() - j,
        {
            if self.find_task(fresh[j].0.as_str()).is_none() {
                added.push(j);
            }
            j = j + 1;
        }
        ReloadPlan { live, added }
    }
}

/// The first `k` live tasks after a reload: kept ones as they are, replaced
/// ones by their rebuilt task, removed ones dropped.
pub open spec fn reloaded_upto(tasks: Seq<Task>, live: Seq<Change>, rebuilt: Seq<Option<Task>>, k: int) -> Seq<Task>
    decreases k,
{
    if k <= 0 {
        Seq::empty()
    } else {
        let rest = reloaded_upto(tasks, live, rebuilt, k - 1);
        match live[k - 1] {
            Change::Keep => rest.push(tasks[k - 1]),
            Change::Replace(_) => rest.push(rebuilt[k - 1]->0),
            Change::Remove => rest,
        }
    }
}

/// A rebuilt task for slot `i` fits the plan: for a replacement by entry
/// `j`, a well-formed, freshly launched task named and configured as `fresh[j]`.
pub open spec fn rebuilt_fits(change: Change, slot: Option<Task>, fresh: Seq<(String, Config)>) -> bool {
    match change {
        Change::Replace(j) => slot is Some && slot->0.wf() && launched(slot->0) && slot->0.name@ == fresh[j as int].0@
            && same_config(slot->0.config, fresh[j as int].1),
        _ => true,
    }
}

/// An added task built from fresh entry `j`: well formed, freshly launched,
/// named and configured as that entry.
pub open spec fn built_from(t: Task, fresh: Seq<(String, Config)>, j: int) -> bool {
    t.wf() && launched(t) && t.name@ == fresh[j].0@ && same_config(t.config, fresh[j].1)
}

/// What `update` needs: `live` and `added_idx` are the reload plan against
/// `fresh`; each replaced or removed task has no live replica left; each
/// replacement and each added task is built from its fresh entry.
pub open spec fn update_ready(
    tasks: Seq<Task>,
    fresh: Seq<(String, Config)>,
    live: Seq<Change>,
    added_idx: Seq<usize>,
    rebuilt: Seq<Option<Task>>,
    added: Seq<Task>,
) -> bool {
    &&& unique_names(fresh)
    &&& live.len() == tasks.len()
    &&& rebuilt.len() == tasks.len()
    &&& forall|i: int| 0 <= i < tasks.len() ==> #[trigger] live[i] == change_of(tasks[i], fresh)
    &&& added_idx == added_upto(tasks, fresh, fresh.len() as int)
    &&& forall|i: int| 0 <= i < tasks.len() ==> rebuilt_fits(live[i], #[trigger] rebuilt[i], fresh)
    &&& forall|i: int| 0 <= i < tasks.len() && !(#[trigger] live[i] is Keep) ==> !tasks[i].has_alive()
    &&& added.len() == added_idx.len()
    &&& forall|a: int| 0 <= a < added.len() ==> built_from(#[trigger] added[a], fresh, added_idx[a] as int)
}

/// Task `t` has an entry of its name in `fresh`, with the same configuration.
pub open spec fn fits_fresh(t: Task, fresh: Seq<(String, Config)>) -> bool {
    exists|j: int| 0 <= j < fresh.len() && fresh[j].0@ == t.name@ && same_config(t.config, fresh[j].1)
}

/// The table holds exactly the tasks that `fresh` names, each with its entry's configuration.
pub open spec fn matches_fresh(tasks: Seq<Task>, fresh: Seq<(String, Config)>) -> bool {
    &&& forall|a: int| 0 <= a < tasks.len() ==> fits_fresh(#[trigger] tasks[a], fresh)
    &&& forall|j: int| 0 <= j < fresh.len() ==> task_named(tasks, (#[trigger] fresh[j]).0@) is Some
}

proof fn lemma_added_upto(tasks: Seq<Task>, fresh: Seq<(String, Config)>, k: int)
    requires
        0 <= k <= fresh.len(),
        fresh.len() <= usize::MAX,
    ensures
        forall|a: int|
            0 <= a < added_upto(tasks, fresh, k).len() ==> (#[trigger] added_upto(tasks, fresh, k)[a]) < k
                && task_named(tasks, fresh[added_upto(tasks, fresh, k)[a] as int].0@) is None,
        forall|a: int, b: int|
            0 <= a < b < added_upto(tasks, fresh, k).len() ==> added_upto(tasks, fresh, k)[a]
                < added_upto(tasks, fresh, k)[b],
        forall|j: int|
            0 <= j < k && task_named(tasks, (#[trigger] fresh[j]).0@) is None ==> exists|a: int|
                0 <= a < added_upto(tasks, fresh, k).len() && added_upto(tasks, fresh, k)[a] == j,
    decreases k,
{
    if k > 0 {
        lemma_added_upto(tasks, fresh, k - 1);
        let rest = added_upto(tasks, fresh, k - 1);
        let cur = added_upto(tasks, fresh, k);
        assert forall|j: int|
            0 <= j < k && task_named(tasks, (#[trigger] fresh[j]).0@) is None implies exists|a: int|
                0 <= a < cur.len() && cur[a] == j by {
            if j < k - 1 {
                let a = choose|a: int| 0 <= a < rest.len() && rest[a] == j;
                assert(cur[a] == rest[a]);
            } else {
                assert(cur == rest.push((k - 1) as usize));
                assert(cur[rest.len() as int] == j);
            }
        }
    }
}

/// Reloading a configuration set that names exactly the live tasks, each with
/// an equal configuration, keeps every task and adds none: no task is stopped
/// and nothing is spawned.
pub proof fn lemma_reload_unchanged_is_noop(m: Monitor, fresh: Seq<(String, Config)>)
    requires
        unique_names(fresh),
        forall|i: int|
            0 <= i < m.tasks@.len() ==> exists|j: int|
                0 <= j < fresh.len() && #[trigger] fresh[j].0@ == (#[trigger] m.tasks@[i]).name@
                    && same_config(m.tasks@[i].config, fresh[j].1),
        forall|j: int| 0 <= j < fresh.len() ==> task_named(m.tasks@, (#[trigger] fresh[j]).0@) is Some,
    ensures
        forall|i: int| 0 <= i < m.tasks@.len() ==> change_of(#[trigger] m.tasks@[i], fresh) == Change::Keep,
        added_upto(m.tasks@, fresh, fresh.len() as int).len() == 0,
{
    assert forall|i: int| 0 <= i < m.tasks@.len() implies change_of(#[trigger] m.tasks@[i], fresh) == Change::Keep by {
        let t = m.tasks@[i];
        let j = choose|j: int|
            0 <= j < fresh.len() && #[trigger] fresh[j].0@ == t.name@ && same_config(t.config, fresh[j].1);
        let e = entry_named(fresh, t.name@);
        assert(e is Some);
        assert(e->0 == j);
    }
    lemma_nothing_added(m, fresh, fresh.len() as int);
}

proof fn lemma_all_kept(tasks: Seq<Task>, live: Seq<Change>, rebuilt: Seq<Option<Task>>, k: int)
    requires
        0 <= k <= tasks.len(),
        live.len() == tasks.len(),
        forall|i: int| 0 <= i < tasks.len() ==> #[trigger] live[i] == Change::Keep,
    ensures
        reloaded_upto(tasks, live, rebuilt, k) == tasks.take(k),
    decreases k,
{
    if k > 0 {
        lemma_all_kept(tasks, live, rebuilt, k - 1);
        assert(live[k - 1] == Change::Keep);
        assert(tasks.take(k) =~= tasks.take(k - 1).push(tasks[k - 1]));
    }
}

/// Reloading a configuration set that names exactly the live tasks, each
/// with an equal configuration, through `update` with the plan that
/// `reload_plan` gives, no rebuilt and no added task: every input is ready
/// (nothing needs stopping first), and the table comes out unchanged.
pub proof fn lemma_unchanged_reload_keeps_table(
    m: Monitor,
    fresh: Seq<(String, Config)>,
    live: Seq<Change>,
    added_idx: Seq<usize>,
    rebuilt: Seq<Option<Task>>,
)
    requires
        m.wf(),
        unique_names(fresh),
        forall|i: int|
            0 <= i < m.tasks@.len() ==> exists|j: int|
                0 <= j < fresh.len() && #[trigger] fresh[j].0@ == (#[trigger] m.tasks@[i]).name@
                    && same_config(m.tasks@[i].config, fresh[j].1),
        forall|j: int| 0 <= j < fresh.len() ==> task_named(m.tasks@, (#[trigger] fresh[j]).0@) is Some,
        live.len() == m.tasks@.len(),
        forall|i: int| 0 <= i < m.tasks@.len() ==> #[trigger] live[i] == change_of(m.tasks@[i], fresh),
        added_idx == added_upto(m.tasks@, fresh, fresh.len() as int),
        rebuilt.len() == m.tasks@.len(),
    ensures
        update_ready(m.tasks@, fresh, live, added_idx, rebuilt, Seq::empty()),
        reloaded_upto(m.tasks@, live, rebuilt, live.len() as int) + Seq::<Task>::empty() == m.tasks@,
{
    lemma_reload_unchanged_is_noop(m, fresh);
    assert forall|i: int| 0 <= i < m.tasks@.len() implies #[trigger] live[i] == Change::Keep by {
        assert(change_of(m.tasks@[i], fresh) == Change::Keep);
    }
    lemma_all_kept(m.tasks@, live, rebuilt, live.len() as int);
    assert(m.tasks@.take(live.len() as int) =~= m.tasks@);
    assert(reloaded_upto(m.tasks@, live, rebuilt, live.len() as int) + Seq::<Task>::empty() =~= m.tasks@);
}

proof fn lemma_nothing_added(m: Monitor, fresh: Seq<(String, Config)>, k: int)
    requires
        0 <= k <= fresh.len(),
        forall|j: int| 0 <= j < fresh.len() ==> task_named(m.tasks@, (#[trigger] fresh[j]).0@) is Some,
    ensures
        added_upto(m.tasks@, fresh, k).len() == 0,
    decreases k,
{
    if k > 0 {
        lemma_nothing_added(m, fresh, k - 1);
        assert(task_named(m.tasks@, fresh[k - 1].0@) is Some);
    }
}

/// Why a task built from `cmd` cannot run: an empty command line first, else
/// the failure to open its output files, if any.
pub open spec fn setup_error_of(cmd: Seq<char>, stdio_error: Option<String>, empty_msg: Seq<char>) -> Option<Seq<char>> {
    if words_of(cmd).len() == 0 {
        Some(empty_msg)
    } else {
        match stdio_error {
            Some(e) => Some(e@),
            None => None,
        }
    }
}

/// The program (first word) and arguments (further words) of a command line;
/// `None` when it has no word.
pub fn program_and_args<'a>(cmd: &'a str) -> (r: Option<(&'a str, Vec<&'a str>)>)
    ensures
        r is None <==> words_of(cmd@).len() == 0,
        match r {
            Some((prog, args)) => prog@ == words_of(cmd@)[0]
                && args@.map_values(|w: &str| w@) == words_of(cmd@).drop_first(),
            None => true,
        },
{
    let w = words(cmd);
    let ghost ws = w@.map_values(|x: &str| x@);
    if w.len() == 0 {
        return None;
    }
    let mut args: Vec<&str> = Vec::new();
    let mut i: usize = 1;
    while i < w.len()
        invariant
            ws == w@.map_values(|x: &str| x@),
            1 <= i <= w@.len(),
            args@.map_values(|x: &str| x@) == ws.subrange(1, i as int),
        decreases w@.len() - i,
    {
        proof {
            assert(args@.push(w@[i as int]).map_values(|x: &str| x@) =~= args@.map_values(|x: &str| x@).push(ws[i as int]));
            assert(ws.subrange(1, i + 1) =~= ws.subrange(1, i as int).push(ws[i as int]));
        }
        args.push(w[i]);
        i = i + 1;
    }
    assert(ws.subrange(1, w@.len() as int) =~= ws.drop_first());
    Some((w[0], args))
}

/// Replica `p` as construction leaves it: with a setup error `setup` it keeps
/// that error and, under autostart, is Fatal with no child; without one, under
/// autostart the spawn outcome decides Starting (with that child) or Fatal
/// (with that error), and without autostart it stays Stopped with no error.
pub open spec fn built_replica(
    p: Process,
    setup: Option<Seq<char>>,
    autostart: bool,
    spawn: Result<u32, String>,
) -> bool {
    match setup {
        Some(e) => {
            &&& p.error is Some && p.error->0@ == e
            &&& autostart ==> p.status is Fatal && p.child is None
        },
        None => if autostart {
            match spawn {
                Ok(pid) => p.status is Starting && p.child == Some(pid) && p.error is None,
                Err(e) => p.status is Fatal && p.child is None && p.error == Some(e),
            }
        } else {
            p.error is None
        },
    }
}

/// Whether building a task from `config` spawns its replicas: it autostarts
/// and has no setup error (an empty command or an unopenable output file).
pub fn launch_spawns(config: &Config, stdio_error: &Option<String>) -> (r: bool)
    ensures
        r == (config.autostart && setup_error_of(config.cmd@, *stdio_error, "Command is empty"@) is None),
{
    config.autostart && stdio_error.is_none() && program_and_args(config.cmd.as_str()).is_some()
}

/// Builds the task `name` and launches it as its configuration says.
/// `stdio_error` is the failure, if any, to open the configured output files;
/// an empty command line is an error of its own. `spawns[i]` is the outcome of
/// spawning replica `i`, consulted only where `launch_spawns` holds.
/// With autostart every replica has had one start attempt (Starting, or Fatal
/// when it has a setup error or its spawn failed); without, all are Stopped.
pub fn create_task_and_processes(
    name: String,
    config: Config,
    now: u64,
    stdio_error: Option<String>,
    spawns: &Vec<Result<u32, String>>,
) -> (r: Task)
    requires
        config.wf(),
        spawns@.len() == config.numprocs,
    ensures
        r.wf(),
        r.name == name,
        r.config == config,
        launched(r),
        !config.autostart ==> idle(r),
        forall|i: int|
            0 <= i < r.processes@.len() ==> built_replica(
                #[trigger] r.processes@[i],
                setup_error_of(config.cmd@, stdio_error, "Command is empty"@),
                config.autostart,
                spawns@[i],
            ),
{
    let empty = program_and_args(config.cmd.as_str()).is_none();
    let ghost setup = setup_error_of(config.cmd@, stdio_error, "Command is empty"@);
    let error = if empty {
        Some("Command is empty".to_owned())
    } else {
        stdio_error
    };
    let mut task = Task::new(config, name, now, error);
    let ghost fresh = task;
    task.launch(now, spawns);
    proof {
        assert forall|i: int| 0 <= i < task.processes@.len() implies built_replica(
            #[trigger] task.processes@[i],
            setup,
            task.config.autostart,
            spawns@[i],
        ) by {
            assert(fresh.processes@[i].error == error);
            assert(fresh.processes@[i].child is None);
        }
    }
    task
}

/// Once shutting down with no replica alive anywhere, the daemon exits: its
/// `should_exit` holds.
pub proof fn lemma_drained_monitor_exits(m: Monitor)
    requires
        m.wf(),
        m.shutdown,
        forall|i: int, k: int|
            0 <= i < m.tasks@.len() && 0 <= k < m.tasks@[i].processes@.len()
                ==> !is_alive((#[trigger] m.tasks@[i].processes@[k]).status),
    ensures
        m.shutdown && !m.has_alive(),
{
    assert forall|i: int| 0 <= i < m.tasks@.len() implies !(#[trigger] m.tasks@[i]).has_alive() by {
        let t = m.tasks@[i];
        assert forall|k: int| 0 <= k < t.processes@.len() implies !is_alive(#[trigger] t.processes@[k].status) by {
            assert(!is_alive(m.tasks@[i].processes@[k].status));
        }
    }
}

/// Shutdown drains: after SHUTDOWN stopped every task at `t_stop` (each stop
/// signal delivered), one round of polls at least the largest `stoptime`
/// later (no wait failing) leaves no replica alive, so the daemon exits and
/// no child survives.
pub proof fn lemma_shutdown_drains(
    m0: Monitor,
    m1: Monitor,
    m2: Monitor,
    t_stop: u64,
    now: u64,
    polls: Seq<Seq<Poll>>,
    spawns: Seq<Seq<Result<u32, String>>>,
)
    requires
        m0.wf(),
        m2.wf(),
        m2.shutdown,
        m1.tasks@.len() == m0.tasks@.len(),
        m2.tasks@.len() == m0.tasks@.len(),
        polls.len() == m0.tasks@.len(),
        spawns.len() == m0.tasks@.len(),
        forall|k: int|
            0 <= k < m0.tasks@.len() ==> {
                let (t0, t1, t2) = (m0.tasks@[k], m1.tasks@[k], #[trigger] m2.tasks@[k]);
                &&& t1.config == t0.config
                &&& t1.processes@.len() == t0.processes@.len()
                &&& t2.processes@.len() == t0.processes@.len()
                &&& polls[k].len() == t0.processes@.len()
                &&& spawns[k].len() == t0.processes@.len()
                &&& now as int >= t_stop as int + t0.config.stoptime as int * 1000
                &&& forall|i: int|
                    0 <= i < t0.processes@.len() ==> #[trigger] t1.processes@[i] == stop_one(
                        t0.processes@[i],
                        seq!['*'],
                        t_stop,
                        true,
                    )
                &&& forall|i: int| 0 <= i < t0.processes@.len() ==> !(#[trigger] polls[k][i] is Failed)
                &&& forall|i: int|
                    0 <= i < t0.processes@.len() ==> #[trigger] t2.processes@[i] == polled(
                        t1.processes@[i],
                        t1.config,
                        polls[k][i],
                        now,
                        spawns[k][i],
                    )
            },
    ensures
        m2.shutdown && !m2.has_alive(),
        forall|k: int, i: int|
            0 <= k < m2.tasks@.len() && 0 <= i < m2.tasks@[k].processes@.len()
                ==> (#[trigger] m2.tasks@[k].processes@[i]).child is None,
{
    assert forall|k: int, i: int|
        0 <= k < m2.tasks@.len() && 0 <= i < m2.tasks@[k].processes@.len()
            implies !is_alive((#[trigger] m2.tasks@[k].processes@[i]).status) by {
        let t0 = m0.tasks@[k];
        let t1 = m1.tasks@[k];
        let t2 = m2.tasks@[k];
        let n = t0.processes@.len();
        let delivered = Seq::new(n, |j: int| true);
        assert(t0.wf());
        assert forall|j: int| 0 <= j < n implies #[trigger] t1.processes@[j] == stop_one(
            t0.processes@[j],
            seq!['*'],
            t_stop,
            delivered[j],
        ) by {
            assert(delivered[j]);
        }
        lemma_stop_converges(t0, t1, t2, t_stop, delivered, now, polls[k], spawns[k]);
    }
    lemma_drained_monitor_exits(m2);
    assert forall|k: int, i: int|
        0 <= k < m2.tasks@.len() && 0 <= i < m2.tasks@[k].processes@.len()
            implies (#[trigger] m2.tasks@[k].processes@[i]).child is None by {
        let t = m2.tasks@[k];
        assert(t.wf());
        assert(replica_fits(t.processes@[i], i, t.name@, t.config));
        assert(!is_alive(m2.tasks@[k].processes@[i].status));
    }
}

} // verus!
