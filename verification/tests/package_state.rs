use blast::error::BlastError;
use blast::package::{Dependency, StateChange};
use blast::package_state::{parse_package_metadata, PackageInfo, PackageOperation, PackageState, StateManager, Version};
use blast::package_layer::{process_operation, DependencyGraph, PackageLayerState, PackageLayerStatus};
use blast::time::Timestamp;

fn dep(name: &str, optional: bool) -> Dependency {
    Dependency {
        name: name.to_string(),
        version_constraint: String::new(),
        optional,
        markers: None,
    }
}

fn version(v: &str, deps: Vec<Dependency>) -> Version {
    Version {
        version: v.to_string(),
        released: Timestamp { secs: 0, nanos: 0 },
        python_requires: None,
        dependencies: deps,
    }
}

fn install(name: &str, v: &str, deps: Vec<Dependency>) -> PackageOperation {
    PackageOperation::Install {
        name: name.to_string(),
        version: Some(version(v, deps)),
        dependencies: Vec::new(),
    }
}

fn state_with(ops: Vec<PackageOperation>) -> PackageState {
    let mut s = PackageState::new();
    for op in ops.iter() {
        assert!(s.update_from_operation(op).is_ok());
    }
    s
}

fn added(name: &str, v: &str, deps: &[&str]) -> StateChange {
    StateChange::PackageAdded {
        name: name.to_string(),
        version: v.to_string(),
        dependencies: deps.iter().map(|d| d.to_string()).collect(),
    }
}

#[test]
fn new_state_is_empty() {
    let s = PackageState::new();
    assert!(!s.is_installed("requests"));
    assert!(s.get_all_packages().is_empty());
    assert!(s.get_package("requests").is_none());
}

#[test]
fn install_operation_records_direct_package() {
    let s = state_with(vec![install("requests", "2.31.0", vec![dep("urllib3", false)])]);
    assert!(s.is_installed("requests"));
    let info = s.get_package("requests").unwrap();
    assert!(info.direct);
    assert_eq!(info.size, 0);
    assert_eq!(info.source, "");
    assert_eq!(info.installed_at, s.last_modified());
    assert_eq!(s.get_installed_version("requests").unwrap().version, "2.31.0");
    assert_eq!(s.get_dependencies("requests"), vec!["urllib3".to_string()]);
    assert!(s.get_dependencies("flask").is_empty());
}

#[test]
fn install_without_version_changes_nothing() {
    let op = PackageOperation::Install { name: "numpy".to_string(), version: None, dependencies: Vec::new() };
    let s = state_with(vec![op]);
    assert!(!s.is_installed("numpy"));
}

#[test]
fn uninstall_and_update_operations() {
    let mut s = state_with(vec![install("a", "1.0", vec![]), install("b", "1.0", vec![])]);
    let up = PackageOperation::Update {
        name: "a".to_string(),
        from_version: version("1.0", vec![]),
        to_version: version("2.0", vec![dep("b", false)]),
    };
    assert!(s.update_from_operation(&up).is_ok());
    assert_eq!(s.get_installed_version("a").unwrap().version, "2.0");
    let missing = PackageOperation::Update {
        name: "zzz".to_string(),
        from_version: version("1.0", vec![]),
        to_version: version("2.0", vec![]),
    };
    assert!(s.update_from_operation(&missing).is_ok());
    assert!(!s.is_installed("zzz"));
    let un = PackageOperation::Uninstall { name: "b".to_string() };
    assert!(s.update_from_operation(&un).is_ok());
    assert!(!s.is_installed("b"));
    assert!(s.is_installed("a"));
}

#[test]
fn reverse_dependencies_and_removal() {
    let s = state_with(vec![
        install("app", "1.0", vec![dep("requests", false), dep("colorama", true)]),
        install("tool", "1.0", vec![dep("colorama", true)]),
        install("requests", "2.0", vec![]),
        install("colorama", "0.4", vec![]),
    ]);
    assert_eq!(s.get_reverse_dependencies("requests"), vec!["app".to_string()]);
    assert_eq!(s.get_reverse_dependencies("colorama"), vec!["app".to_string(), "tool".to_string()]);
    assert!(s.get_reverse_dependencies("app").is_empty());
    assert!(!s.can_remove("requests"));
    assert!(s.can_remove("colorama"));
    assert!(s.can_remove("app"));
    assert!(s.can_remove("not-installed"));
}

#[test]
fn can_remove_reads_first_dependency_of_that_name() {
    let s = state_with(vec![install("app", "1.0", vec![dep("x", true), dep("x", false)])]);
    assert!(s.can_remove("x"));
    let t = state_with(vec![install("app", "1.0", vec![dep("x", false), dep("x", true)])]);
    assert!(!t.can_remove("x"));
}

#[test]
fn direct_dependencies_are_listed_in_order() {
    let mut s = state_with(vec![install("a", "1.0", vec![]), install("b", "1.0", vec![])]);
    let info = PackageInfo {
        version: version("3.0", vec![]),
        installed_at: Timestamp { secs: 1, nanos: 0 },
        updated_at: Timestamp { secs: 1, nanos: 0 },
        direct: false,
        hash: None,
        size: 10,
        source: "pypi".to_string(),
    };
    assert!(s.update_package_metadata(&info).is_ok());
    // The record is keyed by the text of its version.
    assert!(s.is_installed("3.0"));
    let all: Vec<String> = s.get_all_packages().iter().map(|p| p.version.version.clone()).collect();
    assert_eq!(all.len(), 3);
    let direct = s.get_direct_dependencies();
    assert_eq!(direct.len(), 2);
    assert!(direct.iter().all(|p| p.direct));
}

#[test]
fn remove_package_drops_record() {
    let mut s = state_with(vec![install("a", "1.0", vec![])]);
    assert!(s.remove_package("a").is_ok());
    assert!(!s.is_installed("a"));
    assert!(s.remove_package("a").is_ok());
}

#[test]
fn transaction_commit_applies_changes_in_order() {
    let mut m = StateManager::new("/tmp/state.json".to_string(), "/tmp/backups".to_string());
    let id = m.begin_transaction().unwrap();
    assert_eq!(id.len(), 36);
    m.add_state_change(added("flask", "3.0", &["werkzeug", "jinja2"])).unwrap();
    m.add_state_change(added("old", "1.0", &[])).unwrap();
    m.add_state_change(StateChange::PackageRemoved { name: "old".to_string() }).unwrap();
    m.add_state_change(StateChange::PackageUpdated {
        name: "flask".to_string(),
        old_version: "3.0".to_string(),
        new_version: "3.1".to_string(),
        dependencies: vec!["werkzeug".to_string()],
    })
    .unwrap();
    assert!(!m.get_current_state().is_installed("flask"));
    m.commit_transaction().unwrap();
    let s = m.get_current_state();
    assert!(s.is_installed("flask"));
    assert!(!s.is_installed("old"));
    let v = s.get_installed_version("flask").unwrap();
    assert_eq!(v.version, "3.1");
    assert_eq!(s.get_dependencies("flask"), vec!["werkzeug".to_string()]);
    assert!(!s.get_package("flask").unwrap().direct);
    let history = m.get_transaction_history();
    assert_eq!(history.len(), 1);
    assert!(format!("{:?}", history[0]).contains("Committed"));
}

#[test]
fn transaction_rollback_keeps_packages() {
    let mut m = StateManager::new("state.json".to_string(), "backups".to_string());
    m.begin_transaction().unwrap();
    m.add_state_change(added("a", "1.0", &[])).unwrap();
    m.commit_transaction().unwrap();
    m.begin_transaction().unwrap();
    m.add_state_change(StateChange::PackageRemoved { name: "a".to_string() }).unwrap();
    m.add_state_change(added("b", "1.0", &[])).unwrap();
    m.rollback_transaction().unwrap();
    let s = m.get_current_state();
    assert!(s.is_installed("a"));
    assert!(!s.is_installed("b"));
    let history = m.get_transaction_history();
    assert_eq!(history.len(), 2);
    assert!(format!("{:?}", history[1]).contains("RolledBack"));
}

#[test]
fn transaction_errors() {
    let mut m = StateManager::new("s".to_string(), "b".to_string());
    match m.commit_transaction() {
        Err(BlastError::State(msg)) => assert_eq!(msg, "No transaction in progress"),
        _ => panic!("commit without a transaction must fail"),
    }
    match m.rollback_transaction() {
        Err(BlastError::State(msg)) => assert_eq!(msg, "No transaction in progress"),
        _ => panic!("rollback without a transaction must fail"),
    }
    match m.add_state_change(added("a", "1", &[])) {
        Err(BlastError::State(msg)) => assert_eq!(msg, "No transaction in progress"),
        _ => panic!("a change without a transaction must fail"),
    }
    m.begin_transaction().unwrap();
    match m.begin_transaction() {
        Err(BlastError::State(msg)) => assert_eq!(msg, "Transaction already in progress"),
        _ => panic!("a second transaction must be refused"),
    }
}

#[test]
fn commit_keeps_bounded_history() {
    let mut m = StateManager::new("s".to_string(), "b".to_string());
    for _ in 0..105 {
        m.begin_transaction().unwrap();
        m.commit_transaction().unwrap();
    }
    // A commit keeps at most 100 earlier transactions and appends its own.
    assert_eq!(m.get_transaction_history().len(), 101);
}

#[test]
fn package_metadata_is_read_line_by_line() {
    let now = Timestamp { secs: 10, nanos: 0 };
    let text = "Metadata-Version: 2.1\nName: requests\nVersion:  2.31.0 \nRequires-Python: >=3.7\r\nRequires-Dist: idna (<4,>=2.5)\nRequires-Dist: solo\nRequires-Dist: urllib3 <3,>=1.21.1\n";
    let info = parse_package_metadata(text, now);
    assert_eq!(info.version.version, "2.31.0");
    assert_eq!(info.version.python_requires.as_deref(), Some(">=3.7"));
    assert_eq!(info.version.dependencies.len(), 2);
    assert_eq!(info.version.dependencies[0].name, "idna");
    assert_eq!(info.version.dependencies[0].version_constraint, "(<4,>=2.5)");
    assert!(!info.version.dependencies[0].optional);
    assert_eq!(info.version.dependencies[1].name, "urllib3");
    assert_eq!(info.version.dependencies[1].version_constraint, "<3,>=1.21.1");
    assert_eq!(info.installed_at, now);
    assert!(!info.direct);
    assert_eq!(info.size, 0);
    let empty = parse_package_metadata("", now);
    assert_eq!(empty.version.version, "");
    assert!(empty.version.python_requires.is_none());
}

#[test]
fn package_layer_applies_operations() {
    let mut state = PackageLayerState::default();
    let mut graph = DependencyGraph::default();
    let t = Timestamp { secs: 5, nanos: 0 };
    let op = PackageOperation::Install { name: "numpy".to_string(), version: None, dependencies: vec![dep("numpy", false), dep("six", false)] };
    assert!(process_operation(op, &mut state, &mut graph, t).is_ok());
    assert_eq!(state.installed.get("numpy").unwrap().version, "0.1.0");
    assert_eq!(graph.direct_dependencies().get("numpy").unwrap(), "0.1.0");
    assert_eq!(graph.dependencies_for("numpy").unwrap().len(), 2);
    assert_eq!(graph.constraint_for("numpy").unwrap(), "*");
    assert_eq!(state.last_operation, Some(t));
    assert_eq!(state.status, PackageLayerStatus::Idle);

    let t2 = Timestamp { secs: 6, nanos: 0 };
    let up = PackageOperation::Update { name: "numpy".to_string(), from_version: version("0.1.0", Vec::new()), to_version: version("2.0", Vec::new()) };
    assert!(process_operation(up, &mut state, &mut graph, t2).is_ok());
    assert_eq!(state.installed.get("numpy").unwrap().version, "2.0");
    assert_eq!(state.installed.get("numpy").unwrap().dependencies, vec!["numpy".to_string(), "six".to_string()]);
    assert_eq!(graph.direct_dependencies().get("numpy").unwrap(), "0.1.0");
    assert_eq!(state.last_operation, Some(t2));

    let missing = PackageOperation::Update { name: "pandas".to_string(), from_version: version("1", Vec::new()), to_version: version("2", Vec::new()) };
    assert!(process_operation(missing, &mut state, &mut graph, Timestamp { secs: 9, nanos: 0 }).is_ok());
    assert!(state.installed.get("pandas").is_none());
    assert_eq!(state.last_operation, Some(t2));

    let installed = install("flask", "3.0", vec![dep("click", false)]);
    assert!(process_operation(installed, &mut state, &mut graph, t).is_ok());
    assert_eq!(state.installed.get("flask").unwrap().version, "3.0");
    assert!(graph.constraint_for("flask").is_none());

    let un = PackageOperation::Uninstall { name: "numpy".to_string() };
    assert!(process_operation(un, &mut state, &mut graph, t2).is_ok());
    assert!(state.installed.get("numpy").is_none());
    assert!(graph.dependencies_for("numpy").is_none());
    assert!(graph.direct_dependencies().get("numpy").is_none());
    assert!(graph.constraint_for("numpy").is_none());
    assert_eq!(state.installed.len(), 1);
}
