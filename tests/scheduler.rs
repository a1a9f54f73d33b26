use wcd::scheduler::{JobKind, Scheduler};

#[test]
fn unscheduled_job_never_fires() {
    let mut s = Scheduler::new();
    s.prepare(JobKind::Trigger);
    assert!(s.due_jobs(1_000).is_empty());
    assert_eq!(s.get_last_execution_timestamp(JobKind::Trigger), None);
}

#[test]
fn job_fires_once_interval_elapses() {
    let mut s = Scheduler::new();
    s.prepare(JobKind::Trigger);
    assert!(s.schedule(JobKind::Trigger, 10));
    assert_eq!(s.due_jobs(100), vec![JobKind::Trigger]);
    assert_eq!(s.get_last_execution_timestamp(JobKind::Trigger), Some(100));
    assert!(s.due_jobs(105).is_empty());
    assert!(s.due_jobs(109).is_empty());
    assert_eq!(s.due_jobs(110), vec![JobKind::Trigger]);
    assert_eq!(s.get_last_execution_timestamp(JobKind::Trigger), Some(110));
}

#[test]
fn simulate_restarts_the_interval() {
    let mut s = Scheduler::new();
    s.prepare(JobKind::Refresh);
    s.schedule(JobKind::Refresh, 30);
    assert!(s.simulate(JobKind::Refresh, 50));
    assert_eq!(s.get_last_execution_timestamp(JobKind::Refresh), Some(50));
    assert!(s.due_jobs(79).is_empty());
    assert_eq!(s.due_jobs(80), vec![JobKind::Refresh]);
}

#[test]
fn unknown_jobs_are_reported() {
    let mut s = Scheduler::new();
    assert!(!s.schedule(JobKind::UpdateStats, 5));
    assert!(!s.simulate(JobKind::UpdateStats, 5));
    assert_eq!(s.get_last_execution_timestamp(JobKind::UpdateStats), None);
}

#[test]
fn due_jobs_come_in_fixed_order() {
    let mut s = Scheduler::new();
    for k in [JobKind::UpdateStats, JobKind::Refresh, JobKind::Trigger] {
        s.prepare(k);
        s.schedule(k, 5);
    }
    assert_eq!(s.due_jobs(0), vec![JobKind::Trigger, JobKind::Refresh, JobKind::UpdateStats]);
    s.simulate(JobKind::Refresh, 3);
    assert_eq!(s.due_jobs(5), vec![JobKind::Trigger, JobKind::UpdateStats]);
}

#[test]
fn stop_is_observed() {
    let mut s = Scheduler::new();
    assert!(!s.is_stopped());
    s.stop();
    assert!(s.is_stopped());
}

#[test]
fn job_names() {
    assert_eq!(JobKind::Trigger.name(), "trigger");
    assert_eq!(JobKind::Refresh.name(), "refresh");
    assert_eq!(JobKind::UpdateStats.name(), "update_stats");
}
