use vstd::prelude::*;

verus! {

/// The recurring jobs of the daemon.
#[derive(Debug, Clone, Copy, PartialEq, Eq, Structural)]
pub enum JobKind {
    /// Change the wallpaper.
    Trigger,
    /// Rescan the playlists' files and directories.
    Refresh,
    /// Credit display time to the image shown now.
    UpdateStats,
}

impl JobKind {
    /// The job's name in messages.
    pub fn name(&self) -> (r: &'static str)
        ensures
            r@ == match self {
                JobKind::Trigger => "trigger"@,
                JobKind::Refresh => "refresh"@,
                JobKind::UpdateStats => "update_stats"@,
            },
    {
        match self {
            JobKind::Trigger => "trigger",
            JobKind::Refresh => "refresh",
            JobKind::UpdateStats => "update_stats",
        }
    }
}

/// The timing state of one registered job. Timestamps and intervals are in seconds.
#[derive(Debug, Clone, Copy, PartialEq, Eq, Structural)]
pub struct Job {
    /// When the job last ran; `None` while it never did, which counts as
    /// the distant past.
    pub last_execution_timestamp: Option<i64>,
    /// The interval it runs at; `None` while it is not scheduled.
    pub trigger_duration: Option<i64>,
}

/// Whether a job is due at `now`: it is scheduled, and its interval has
/// elapsed since it last ran.
pub open spec fn is_due(j: Job, now: i64) -> bool {
    match j.trigger_duration {
        None => false,
        Some(t) => match j.last_execution_timestamp {
            None => true,
            Some(last) => now - last >= t,
        },
    }
}

/// A job after a tick at `now`: if it was due, it has just run.
pub open spec fn after_tick(j: Job, now: i64) -> Job {
    if is_due(j, now) {
        Job { last_execution_timestamp: Some(now), ..j }
    } else {
        j
    }
}

pub open spec fn due_in(jobs: Map<JobKind, Job>, k: JobKind, now: i64) -> Seq<JobKind> {
    if jobs.contains_key(k) && is_due(jobs[k], now) {
        seq![k]
    } else {
        Seq::empty()
    }
}

/// The jobs due at `now`, in the fixed order trigger, refresh, update-stats.
pub open spec fn due_jobs_of(jobs: Map<JobKind, Job>, now: i64) -> Seq<JobKind> {
    due_in(jobs, JobKind::Trigger, now) + due_in(jobs, JobKind::Refresh, now) + due_in(
        jobs,
        JobKind::UpdateStats,
        now,
    )
}

pub open spec fn opt_entry(m: Map<JobKind, Job>, k: JobKind, j: Option<Job>) -> Map<JobKind, Job> {
    match j {
        Some(j) => m.insert(k, j),
        None => m,
    }
}

/// The jobs after a tick at `now`.
pub open spec fn ticked(jobs: Map<JobKind, Job>, now: i64) -> Map<JobKind, Job> {
    Map::new(|k: JobKind| jobs.contains_key(k), |k: JobKind| after_tick(jobs[k], now))
}

/// The jobs after `schedule(k, interval)`.
pub open spec fn scheduled(jobs: Map<JobKind, Job>, k: JobKind, interval: i64) -> Map<JobKind, Job> {
    if jobs.contains_key(k) {
        jobs.insert(k, Job { trigger_duration: Some(interval), ..jobs[k] })
    } else {
        jobs
    }
}

/// The jobs after `simulate(k, now)`.
pub open spec fn simulated(jobs: Map<JobKind, Job>, k: JobKind, now: i64) -> Map<JobKind, Job> {
    if jobs.contains_key(k) {
        jobs.insert(k, Job { last_execution_timestamp: Some(now), ..jobs[k] })
    } else {
        jobs
    }
}

/// A timer over the daemon's named jobs. It decides which jobs are due; the
/// caller runs them.
pub struct Scheduler {
    trigger: Option<Job>,
    refresh: Option<Job>,
    update_stats: Option<Job>,
    terminated: bool,
}

fn is_due_exec(j: &Job, now: i64) -> (r: bool)
    ensures
        r == is_due(*j, now),
{
    match j.trigger_duration {
        None => false,
        Some(t) => match j.last_execution_timestamp {
            None => true,
            Some(last) => (now as i128) - (last as i128) >= (t as i128),
        },
    }
}

fn tick_slot(slot: &mut Option<Job>, k: JobKind, now: i64, due: &mut Vec<JobKind>)
    ensures
        *final(slot) == match *old(slot) {
            Some(j) => Some(after_tick(j, now)),
            None => None,
        },
        final(due)@ == old(due)@ + match *old(slot) {
            Some(j) => if is_due(j, now) {
                seq![k]
            } else {
                Seq::empty()
            },
            None => Seq::empty(),
        },
{
    match slot {
        Some(j) => {
            if is_due_exec(j, now) {
                j.last_execution_timestamp = Some(now);
                due.push(k);
                assert(due@ =~= old(due)@ + seq![k]);
            } else {
                assert(due@ =~= old(due)@ + Seq::<JobKind>::empty());
            }
        },
        None => {
            assert(due@ =~= old(due)@ + Seq::<JobKind>::empty());
        },
    }
}

impl View for Scheduler {
    type V = Map<JobKind, Job>;

    closed spec fn view(&self) -> Map<JobKind, Job> {
        opt_entry(
            opt_entry(
                opt_entry(Map::empty(), JobKind::Trigger, self.trigger),
                JobKind::Refresh,
                self.refresh,
            ),
            JobKind::UpdateStats,
            self.update_stats,
        )
    }
}

impl Scheduler {
    /// Whether `stop` was called.
    pub closed spec fn stopped(&self) -> bool {
        self.terminated
    }

    closed spec fn slot(&self, k: JobKind) -> Option<Job> {
        match k {
            JobKind::Trigger => self.trigger,
            JobKind::Refresh => self.refresh,
            JobKind::UpdateStats => self.update_stats,
        }
    }

    proof fn lemma_view(&self)
        ensures
            forall|k: JobKind| #[trigger] self@.contains_key(k) == self.slot(k) is Some,
            forall|k: JobKind| self@.contains_key(k) ==> #[trigger] self@[k] == self.slot(k)->0,
    {
        assert forall|k: JobKind| #[trigger] self@.contains_key(k) == self.slot(k) is Some by {
            match k {
                JobKind::Trigger => {},
                JobKind::Refresh => {},
                JobKind::UpdateStats => {},
            }
        }
    }

    fn slot_mut(&mut self, k: JobKind) -> (r: &mut Option<Job>)
        ensures
            *r == old(self).slot(k),
            final(self).terminated == old(self).terminated,
            forall|o: JobKind| o != k ==> final(self).slot(o) == old(self).slot(o),
            final(self).slot(k) == *final(r),
    {
        match k {
            JobKind::Trigger => &mut self.trigger,
            JobKind::Refresh => &mut self.refresh,
            JobKind::UpdateStats => &mut self.update_stats,
        }
    }

    /// A scheduler with no jobs.
    pub fn new() -> (r: Scheduler)
        ensures
            r@ == Map::<JobKind, Job>::empty(),
            !r.stopped(),
    {
        let r = Scheduler { trigger: None, refresh: None, update_stats: None, terminated: false };
        assert(r@ =~= Map::<JobKind, Job>::empty());
        r
    }

    /// Registers a job. It does not run until it is scheduled.
    pub fn prepare(&mut self, job: JobKind)
        ensures
            final(self)@ == old(self)@.insert(
                job,
                Job { last_execution_timestamp: None, trigger_duration: None },
            ),
            final(self).stopped() == old(self).stopped(),
    {
        let slot = self.slot_mut(job);
        *slot = Some(Job { last_execution_timestamp: None, trigger_duration: None });
        proof {
            self.lemma_view();
            old(self).lemma_view();
        }
        assert(self@ =~= old(self)@.insert(
            job,
            Job { last_execution_timestamp: None, trigger_duration: None },
        ));
    }

    /// Sets the interval of a registered job, in seconds; false, with nothing
    /// changed, when the job is not registered.
    pub fn schedule(&mut self, job: JobKind, interval: i64) -> (r: bool)
        ensures
            r == old(self)@.contains_key(job),
            r ==> final(self)@ == old(self)@.insert(
                job,
                Job { trigger_duration: Some(interval), ..old(self)@[job] },
            ),
            !r ==> final(self)@ == old(self)@,
            final(self).stopped() == old(self).stopped(),
    {
        proof {
            old(self).lemma_view();
        }
        let slot = self.slot_mut(job);
        let r = match slot {
            Some(j) => {
                j.trigger_duration = Some(interval);
                true
            },
            None => false,
        };
        proof {
            self.lemma_view();
        }
        if r {
            assert(self@ =~= old(self)@.insert(
                job,
                Job { trigger_duration: Some(interval), ..old(self)@[job] },
            ));
        } else {
            assert(self@ =~= old(self)@);
        }
        r
    }

    /// Records that a registered job has just run at `now`, without running
    /// it; false, with nothing changed, when the job is not registered.
    pub fn simulate(&mut self, job: JobKind, now: i64) -> (r: bool)
        ensures
            r == old(self)@.contains_key(job),
            r ==> final(self)@ == old(self)@.insert(
                job,
                Job { last_execution_timestamp: Some(now), ..old(self)@[job] },
            ),
            !r ==> final(self)@ == old(self)@,
            final(self).stopped() == old(self).stopped(),
    {
        proof {
            old(self).lemma_view();
        }
        let slot = self.slot_mut(job);
        let r = match slot {
            Some(j) => {
                j.last_execution_timestamp = Some(now);
                true
            },
            None => false,
        };
        proof {
            self.lemma_view();
        }
        if r {
            assert(self@ =~= old(self)@.insert(
                job,
                Job { last_execution_timestamp: Some(now), ..old(self)@[job] },
            ));
        } else {
            assert(self@ =~= old(self)@);
        }
        r
    }

    /// When a job last ran: `None` when it is not registered or never ran.
    pub fn get_last_execution_timestamp(&self, job: JobKind) -> (r: Option<i64>)
        ensures
            r == if self@.contains_key(job) {
                self@[job].last_execution_timestamp
            } else {
                None
            },
    {
        proof {
            self.lemma_view();
        }
        let slot = match job {
            JobKind::Trigger => &self.trigger,
            JobKind::Refresh => &self.refresh,
            JobKind::UpdateStats => &self.update_stats,
        };
        match slot {
            Some(j) => j.last_execution_timestamp,
            None => None,
        }
    }

    /// One tick of the timer at `now`: every due job is marked as run at
    /// `now`, before it runs, and returned so that the caller runs it.
    pub fn due_jobs(&mut self, now: i64) -> (r: Vec<JobKind>)
        ensures
            r@ == due_jobs_of(old(self)@, now),
            final(self)@ == ticked(old(self)@, now),
            final(self).stopped() == old(self).stopped(),
    {
        proof {
            old(self).lemma_view();
        }
        let mut due: Vec<JobKind> = Vec::new();
        tick_slot(&mut self.trigger, JobKind::Trigger, now, &mut due);
        tick_slot(&mut self.refresh, JobKind::Refresh, now, &mut due);
        tick_slot(&mut self.update_stats, JobKind::UpdateStats, now, &mut due);
        proof {
            self.lemma_view();
            assert(self@ =~= ticked(old(self)@, now));
            assert(due@ =~= due_jobs_of(old(self)@, now));
        }
        due
    }

    /// Asks the timer loop to end at its next tick.
    pub fn stop(&mut self)
        ensures
            final(self)@ == old(self)@,
            final(self).stopped(),
    {
        self.terminated = true;
    }

    pub fn is_stopped(&self) -> (r: bool)
        ensures
            r == self.stopped(),
    {
        self.terminated
    }
}

/// Scheduler timing: once a job with interval `t` has run at `now`, whether
/// fired by a tick or marked by `simulate`, a later tick leaves it alone
/// until `t` seconds have passed and fires it at the first tick after that.
pub proof fn lemma_scheduler_timing(jobs: Map<JobKind, Job>, k: JobKind, t: i64, now: i64, later: i64)
    requires
        jobs.contains_key(k),
        jobs[k].trigger_duration == Some(t),
    ensures
        is_due(jobs[k], now) ==> (due_jobs_of(ticked(jobs, now), later).contains(k) <==> later - now
            >= t),
        due_jobs_of(simulated(jobs, k, now), later).contains(k) <==> later - now >= t,
{
    assert forall|m: Map<JobKind, Job>|
        m.contains_key(k) implies #[trigger] due_jobs_of(m, later).contains(k) == is_due(m[k], later) by {
        let d = due_jobs_of(m, later);
        if is_due(m[k], later) {
            match k {
                JobKind::Trigger => assert(d[0] == k),
                JobKind::Refresh => assert(d[due_in(m, JobKind::Trigger, later).len() as int] == k),
                JobKind::UpdateStats => assert(d[d.len() - 1] == k),
            }
        }
        if d.contains(k) {
            let i = choose|i: int| 0 <= i < d.len() && d[i] == k;
            assert(due_in(m, k, later).len() > 0);
        }
    }
    assert(ticked(jobs, now).contains_key(k));
    assert(simulated(jobs, k, now).contains_key(k));
}

} // verus!
