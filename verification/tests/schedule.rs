use crabclaw::schedule::{
    agent_failure_text, check_add, job_row, reminder_text, removed_reply, schedule_description,
    scheduled_reply, JobMode,
};

#[test]
fn job_mode_labels_and_arguments() {
    assert_eq!(JobMode::Reminder.label(), "reminder");
    assert_eq!(JobMode::Agent.label(), "agent");
    assert_eq!(JobMode::from_arg(Some("agent")), JobMode::Agent);
    assert_eq!(JobMode::from_arg(Some("Agent")), JobMode::Reminder);
    assert_eq!(JobMode::from_arg(None), JobMode::Reminder);
}

#[test]
fn schedule_descriptions() {
    assert_eq!(schedule_description(Some(60), None, 0, 0), "once in 60s");
    assert_eq!(schedule_description(Some(60), None, 10, 5), "once in 49s");
    assert_eq!(schedule_description(Some(60), None, 60, 0), "once in 0s");
    assert_eq!(schedule_description(Some(60), None, 61, 0), "once in 0s");
    assert_eq!(schedule_description(None, Some(300), 7, 3), "every 300s");
    assert_eq!(schedule_description(None, None, 0, 0), "unknown");
}

#[test]
fn adding_needs_timing_and_agent_runner() {
    let missing = check_add(None, None, JobMode::Reminder, false).unwrap();
    assert!(missing.starts_with("Error:"));
    assert!(missing.contains("after_seconds"));
    let agent = check_add(Some(5), None, JobMode::Agent, false).unwrap();
    assert!(agent.contains("agent runner"));
    assert!(check_add(Some(5), None, JobMode::Agent, true).is_none());
    assert!(check_add(None, Some(5), JobMode::Reminder, false).is_none());
}

#[test]
fn job_messages() {
    assert_eq!(scheduled_reply("ab12", "once in 60s"), "scheduled: ab12 fires=once in 60s");
    assert_eq!(removed_reply("ab12", true), "removed: ab12");
    assert_eq!(removed_reply("fake_id", false), "Error: job not found: fake_id");
    assert_eq!(
        job_row("ab12", JobMode::Agent, "every 5s", "check"),
        "ab12 mode=agent schedule=every 5s msg=check"
    );
    assert_eq!(reminder_text("ab12", "drink water"), "\u{23f0} [Reminder: ab12] drink water");
    assert_eq!(
        agent_failure_text("ab12", "boom"),
        "\u{26a0} [Schedule ab12] Agent job failed: boom"
    );
}

use crabclaw::schedule::SchedulerService;

const T0: (u64, u32) = (100, 0);

#[test]
fn add_requires_timing_parameter() {
    let mut svc = SchedulerService::new();
    let result = svc.add_job("j1", "no timing", None, None, JobMode::Reminder, false, T0, T0);
    assert!(result.starts_with("Error:"), "got: {result}");
    assert_eq!(svc.active_count(), 0);
}

#[test]
fn list_empty() {
    let svc = SchedulerService::new();
    assert_eq!(svc.list_jobs(T0), "(no scheduled jobs)");
}

#[test]
fn remove_nonexistent_returns_error() {
    let mut svc = SchedulerService::new();
    let result = svc.remove_job("fake_id");
    assert!(result.starts_with("Error:"), "got: {result}");
}

#[test]
fn scheduled_jobs_are_listed_and_removed() {
    let mut svc = SchedulerService::new();
    let a = svc.add_job("bb", "reminder 1", Some(60), None, JobMode::Reminder, false, T0, T0);
    assert_eq!(a, "scheduled: bb fires=once in 60s");
    let b = svc.add_job("aa", "reminder 2", None, Some(120), JobMode::Reminder, false, T0, (100, 5));
    assert_eq!(b, "scheduled: aa fires=every 120s");
    assert_eq!(svc.active_count(), 2);
    let listing = svc.list_jobs((110, 1));
    assert_eq!(
        listing,
        "aa mode=reminder schedule=every 120s msg=reminder 2\nbb mode=reminder schedule=once in 49s msg=reminder 1"
    );
    assert!(svc.is_active("bb"));
    assert_eq!(svc.remove_job("bb"), "removed: bb");
    assert!(!svc.is_active("bb"));
    assert_eq!(svc.active_count(), 1);
}

#[test]
fn same_id_replaces_job_and_agent_needs_runner() {
    let mut svc = SchedulerService::new();
    svc.add_job("x", "one", Some(5), None, JobMode::Reminder, false, T0, T0);
    svc.add_job("x", "two", Some(5), None, JobMode::Reminder, false, T0, T0);
    assert_eq!(svc.active_count(), 1);
    assert!(svc.list_jobs(T0).ends_with("msg=two"));
    let refused = svc.add_job("y", "run", Some(5), None, JobMode::Agent, false, T0, T0);
    assert!(refused.contains("agent runner"));
    assert_eq!(svc.active_count(), 1);
}
