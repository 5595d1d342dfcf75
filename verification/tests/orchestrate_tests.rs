use shipcat::helm::{choose_version, HelmError, UpgradeMode};
use shipcat::manifest::Manifest;
use shipcat::orchestrate::{Orchestrator, RolloutPhase, UpgradeData};
use shipcat::structs::{RollingUpdate, UpgradeBound};

fn job(name: &str, mode: UpgradeMode) -> UpgradeData {
    UpgradeData {
        name: name.to_string(),
        version: "1.2.3".to_string(),
        namespace: "dev".to_string(),
        mode,
        waittime: 300,
        phase: RolloutPhase::Pending,
    }
}

#[test]
fn pool_bound_holds_and_timeouts_do_not_block_siblings() {
    let jobs = vec![
        job("alpha", UpgradeMode::UpgradeWait),
        job("beta", UpgradeMode::UpgradeWait),
        job("gamma", UpgradeMode::UpgradeWait),
    ];
    let mut o = Orchestrator::new(jobs, 2);
    // With pool size 2, only two jobs go out.
    assert_eq!(o.next_dispatch(), Some(0));
    assert_eq!(o.next_dispatch(), Some(1));
    assert_eq!(o.next_dispatch(), None);
    assert_eq!(o.count_active(), 2);
    // One job timing out frees its slot and leaves the other running.
    o.complete(0, RolloutPhase::TimedOut);
    assert_eq!(o.jobs[0].phase, RolloutPhase::TimedOut);
    assert_eq!(o.jobs[1].phase, RolloutPhase::Dispatched);
    assert_eq!(o.jobs[2].phase, RolloutPhase::Pending);
    assert_eq!(o.next_dispatch(), Some(2));
    assert_eq!(o.count_active(), 2);
    // Remaining jobs run to their own outcomes.
    o.complete(1, RolloutPhase::Succeeded);
    o.complete(2, RolloutPhase::Succeeded);
    let report = o.report();
    assert_eq!(report.succeeded, 2);
    assert_eq!(report.timed_out, 1);
    assert_eq!(report.failed, 0);
    assert_eq!(report.pending, 0);
}

#[test]
fn rollback_marking_requires_the_rollback_mode() {
    let jobs = vec![job("alpha", UpgradeMode::UpgradeWaitMaybeRollback)];
    let mut o = Orchestrator::new(jobs, 1);
    assert_eq!(o.next_dispatch(), Some(0));
    o.start_waiting(0);
    assert_eq!(o.jobs[0].phase, RolloutPhase::WaitingForRollout);
    o.complete(0, RolloutPhase::Failed);
    o.mark_rolled_back(0);
    assert_eq!(o.jobs[0].phase, RolloutPhase::RolledBack);
    assert_eq!(o.report().rolled_back, 1);
}

#[test]
fn nothing_pending_means_no_dispatch() {
    let mut o = Orchestrator::new(vec![], 4);
    assert_eq!(o.next_dispatch(), None);
}

#[test]
fn choose_version_prefers_declared_then_installed() {
    let declared = Some("2.0.0".to_string());
    let installed = Some("1.9.0".to_string());
    let svc = "webapp".to_string();
    assert_eq!(choose_version(&declared, &installed, &svc).unwrap(), "2.0.0");
    assert_eq!(choose_version(&None, &installed, &svc).unwrap(), "1.9.0");
    let r = choose_version(&None, &None, &svc);
    assert!(matches!(r, Err(HelmError::MissingRollingVersion(n)) if n == "webapp"));
}

#[test]
fn upgrade_mode_properties() {
    assert!(!UpgradeMode::Diff.is_mutating());
    assert!(UpgradeMode::Upgrade.is_mutating());
    assert!(UpgradeMode::UpgradeWait.is_waiting());
    assert!(!UpgradeMode::Upgrade.is_waiting());
    assert!(UpgradeMode::UpgradeWaitMaybeRollback.is_rollback_on_failure());
    assert!(!UpgradeMode::UpgradeWait.is_rollback_on_failure());
    assert!(!UpgradeMode::Rollback.is_needs_version());
}

#[test]
fn wait_estimate_from_image_size_and_replicas() {
    let mut m = Manifest::default();
    m.imageSize = Some(512);
    m.replicaCount = Some(2);
    // pull = 512/4 + 30 = 158; surge quarter of 2 is 0, so 1; two cycles.
    assert_eq!(m.estimate_wait_time(), (158 + 60) * 2);
    // A 50% surge over 4 replicas halves the cycle count.
    m.replicaCount = Some(4);
    m.rollingUpdate = Some(RollingUpdate {
        maxUnavailable: None,
        maxSurge: Some(UpgradeBound::Percent(50)),
    });
    assert_eq!(m.estimate_wait_time(), (158 + 60) * 2);
}

#[test]
fn helm_error_messages_name_the_service() {
    let e = HelmError::MissingRollingVersion("webapp".to_string());
    assert!(e.describe().contains("webapp"));
    let t = HelmError::UpgradeTimeout("webapp".to_string(), 300);
    assert_eq!(
        t.describe(),
        "webapp upgrade timed out waiting300s for deployment(s) to come online"
    );
    let z = HelmError::UpgradeTimeout("webapp".to_string(), 1047);
    assert!(z.describe().contains("waiting1047s"));
}
