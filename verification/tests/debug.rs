use blast::debug::{DebugCollector, EnvironmentState, OperationRecord, OperationStatus, PackageInfo, SystemInfo};
use blast::strmap::StrMap;
use blast::time::Timestamp;

fn system() -> SystemInfo {
    let mut env_vars = StrMap::new();
    env_vars.insert("HOME".to_string(), "/home/me".to_string());
    SystemInfo {
        os: "linux".to_string(),
        arch: "x86_64".to_string(),
        python_version: String::new(),
        memory: 0,
        env_vars,
        blast_version: "0.1.0".to_string(),
    }
}

fn package(name: &str, deps: &[&str]) -> PackageInfo {
    PackageInfo {
        name: name.to_string(),
        version: "1.0".to_string(),
        installed_at: Timestamp { secs: 0, nanos: 0 },
        dependencies: deps.iter().map(|d| d.to_string()).collect(),
        is_direct: true,
    }
}

fn environment(packages: Vec<PackageInfo>) -> EnvironmentState {
    EnvironmentState {
        packages,
        python_version: "3.11".to_string(),
        env_vars: StrMap::new(),
        venv_path: "/envs/demo".to_string(),
        last_modified: Timestamp { secs: 5, nanos: 0 },
    }
}

#[test]
fn debug_report_without_environment() {
    let mut collector = DebugCollector::new(system());
    collector.record_operation(OperationRecord {
        id: "op-1".to_string(),
        operation_type: "install".to_string(),
        timestamp: Timestamp { secs: 1, nanos: 2 },
        duration_secs: 3,
        duration_nanos: 0,
        status: OperationStatus::Failed,
        error: Some("boom".to_string()),
        stack_trace: None,
    });
    let report = collector.generate_report();
    assert_eq!(report.system_info.os, "linux");
    assert_eq!(report.system_info.env_vars.get("HOME").unwrap(), "/home/me");
    assert_eq!(report.operation_history.len(), 1);
    assert_eq!(report.operation_history[0].id, "op-1");
    assert_eq!(report.operation_history[0].status, OperationStatus::Failed);
    assert_eq!(report.operation_history[0].error.as_deref(), Some("boom"));
    assert!(report.environment_state.is_none());
    assert!(report.dependency_graph.is_none());
}

#[test]
fn debug_report_renders_the_dependency_graph() {
    let mut collector = DebugCollector::new(system());
    collector.capture_environment(environment(vec![package("a", &["b"]), package("b", &[])]));
    let report = collector.generate_report();
    let env = report.environment_state.unwrap();
    assert_eq!(env.packages.len(), 2);
    assert_eq!(env.packages[0].dependencies, vec!["b".to_string()]);
    assert_eq!(env.venv_path, "/envs/demo");
    let expected = "digraph {\n    0 [ label = \"\\\"a\\\"\" ]\n    1 [ label = \"\\\"b\\\"\" ]\n    0 -> 1 [ ]\n}\n";
    assert_eq!(report.dependency_graph.unwrap(), expected);
}

#[test]
fn debug_graph_adds_each_name_once() {
    let mut collector = DebugCollector::new(system());
    collector.capture_environment(environment(vec![
        package("x", &["y", "z"]),
        package("y", &["z"]),
        package("z", &[]),
    ]));
    let dot = collector.generate_report().dependency_graph.unwrap();
    let nodes = dot.lines().filter(|l| l.contains("label")).count();
    let edges = dot.lines().filter(|l| l.contains("->")).count();
    assert_eq!(nodes, 3);
    assert_eq!(edges, 3);
    assert!(dot.contains("    1 -> 2 [ ]"));
}
