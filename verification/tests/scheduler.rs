use blast::error::BlastError;
use blast::package::{OperationPriority, OperationType, SchedulerConfig};
use blast::package_state::PackageOperation;
use blast::scheduler::{OperationScheduler, OperationStatus};

fn uninstall(name: &str) -> PackageOperation {
    PackageOperation::Uninstall { name: name.to_string() }
}

fn install(name: &str) -> PackageOperation {
    PackageOperation::Install { name: name.to_string(), version: None, dependencies: Vec::new() }
}

fn queued(s: &OperationScheduler, id: &str) -> (usize, i64) {
    match s.get_operation_status(id) {
        Some(OperationStatus::Queued { position, estimated_start }) => (*position, estimated_start.secs),
        other => panic!("expected a queued status, got {:?}", other),
    }
}

#[test]
fn queued_operations_get_positions_and_estimates() {
    let mut s = OperationScheduler::new(SchedulerConfig::default());
    let a = s.queue_operation(install("a"), None, Vec::new()).unwrap();
    let b = s.queue_operation(install("b"), None, Vec::new()).unwrap();
    let c = s.queue_operation(install("c"), None, Vec::new()).unwrap();
    let d = s.queue_operation(uninstall("d"), None, Vec::new()).unwrap();
    assert_eq!(a.len(), 36);
    let (pa, ea) = queued(&s, &a);
    let (pb, _) = queued(&s, &b);
    let (pc, ec) = queued(&s, &c);
    let (pd, ed) = queued(&s, &d);
    assert_eq!((pa, pb, pc, pd), (1, 2, 3, 4));
    // Three run at a time: the first three start at once, the fourth one
    // uninstall timeout (180 s) later.
    assert!(ec - ea <= 1);
    assert!(ed - ea >= 180 && ed - ea <= 181);
}

#[test]
fn full_queue_is_refused() {
    let mut config = SchedulerConfig::default();
    config.max_queue_size = 1;
    let mut s = OperationScheduler::new(config);
    assert!(s.queue_operation(install("a"), None, Vec::new()).is_ok());
    match s.queue_operation(install("b"), None, Vec::new()) {
        Err(BlastError::Package(m)) => assert_eq!(m, "Operation queue is full"),
        _ => panic!("a full queue must refuse"),
    }
    assert_eq!(s.get_queue_stats().queued_operations, 1);
}

#[test]
fn stats_count_by_priority_and_kind() {
    let mut config = SchedulerConfig::default();
    let _ = config.priority_overrides.insert("numpy".to_string(), OperationPriority::Critical);
    let mut s = OperationScheduler::new(config);
    s.queue_operation(install("numpy"), Some(OperationPriority::Low), Vec::new()).unwrap();
    s.queue_operation(install("b"), Some(OperationPriority::Low), Vec::new()).unwrap();
    s.queue_operation(uninstall("c"), None, Vec::new()).unwrap();
    let st = s.get_queue_stats();
    assert_eq!(st.queued_operations, 3);
    assert_eq!(st.active_operations, 0);
    assert_eq!(
        st.operations_by_priority,
        vec![(OperationPriority::Critical, 1), (OperationPriority::Normal, 1), (OperationPriority::Low, 1)]
    );
    assert_eq!(st.operations_by_type, vec![(OperationType::Install, 2), (OperationType::Uninstall, 1)]);
}

#[test]
fn dependencies_must_complete_first() {
    let mut s = OperationScheduler::new(SchedulerConfig::default());
    let a = s.queue_operation(install("a"), None, Vec::new()).unwrap();
    s.queue_operation(install("b"), None, vec![a.clone()]).unwrap();
    let next = s.get_next_processable_operation();
    assert!(next.is_some());
    assert!(format!("{:?}", next.unwrap()).contains(&a));
    assert!(s.cancel_operation(&a).is_ok());
    // The remaining operation waits for one that never completed.
    assert!(s.get_next_processable_operation().is_none());
    assert!(s.take_next_operation().is_none());
}

#[test]
fn rate_limit_holds_back_starts() {
    let mut config = SchedulerConfig::default();
    config.ops_per_minute = 1;
    let mut s = OperationScheduler::new(config);
    s.queue_operation(install("a"), None, Vec::new()).unwrap();
    s.queue_operation(install("b"), None, Vec::new()).unwrap();
    let first = s.take_next_operation();
    assert!(first.is_some());
    assert_eq!(s.get_queue_stats().queued_operations, 1);
    assert!(s.take_next_operation().is_none());
    assert_eq!(s.get_queue_stats().queued_operations, 1);
}

#[test]
fn running_and_cancelled_statuses() {
    let mut s = OperationScheduler::new(SchedulerConfig::default());
    let a = s.queue_operation(install("a"), None, Vec::new()).unwrap();
    let op = s.take_next_operation().unwrap();
    s.mark_running(op);
    match s.get_operation_status(&a) {
        Some(OperationStatus::Running { started_at, estimated_completion }) => {
            assert_eq!(estimated_completion.secs - started_at.secs, 300);
        },
        other => panic!("expected a running status, got {:?}", other),
    }
    assert_eq!(s.get_queue_stats().active_operations, 1);
    assert!(s.cancel_operation(&a).is_ok());
    assert_eq!(s.get_queue_stats().active_operations, 0);
    match s.get_operation_status(&a) {
        Some(OperationStatus::Failed { error, .. }) => assert_eq!(error, "Operation cancelled"),
        other => panic!("expected a failed status, got {:?}", other),
    }
    assert!(s.get_operation_status("unknown").is_none());
}

#[test]
fn the_operation_handed_out_is_the_one_removed() {
    let mut s = OperationScheduler::new(SchedulerConfig::default());
    let a = s.queue_operation(install("a"), Some(OperationPriority::Critical), vec!["missing".to_string()]).unwrap();
    let b = s.queue_operation(install("b"), Some(OperationPriority::Low), Vec::new()).unwrap();
    let op = s.take_next_operation().unwrap();
    assert!(format!("{:?}", op).contains(&b));
    assert_eq!(s.get_queue_stats().queued_operations, 1);
    assert!(s.get_next_processable_operation().is_none());
    assert!(s.cancel_operation(&a).is_ok());
    assert_eq!(s.get_queue_stats().queued_operations, 0);
}
