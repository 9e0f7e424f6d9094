use blast::error::BlastError;
use blast::isolation::config::{CGroupConfig, IoLimits, IsolationConfig, IsolationLevel, NamespaceConfig};
use blast::isolation::container::{
    cgroup_writes, memory_limit_of, namespaces_to_create, network_setup_plan, parse_stats, Container, ContainerConfig,
    ContainerState, NamespaceKind, ResourceUsage, SetupStep,
};
use blast::isolation::filesystem::{
    comma_join, AccessPattern, FilesystemPolicy, FilesystemState, MountConfig, MountType, SecurityViolation,
};
use blast::isolation::network::{ConnectionInfo, ConnectionState, NetworkPolicy, NetworkState, Protocol};
use blast::isolation::process::{ProcessConfig, ProcessManager, ProcessState};
use blast::isolation::{EnhancedIsolation, IsolationManager};
use std::time::SystemTime;

fn bind(source: &str, options: &[&str]) -> MountConfig {
    MountConfig {
        source: source.to_string(),
        options: options.iter().map(|s| s.to_string()).collect(),
        mount_type: MountType::Bind,
        readonly: false,
    }
}

#[test]
fn default_filesystem_policy_paths() {
    let fs = FilesystemState::new(FilesystemPolicy::default());
    assert!(fs.is_path_allowed("/tmp/work"));
    assert!(fs.is_path_allowed("/var/lib/blast/environments/demo"));
    assert!(!fs.is_path_allowed("/etc/shadow"));
    assert!(!fs.is_path_allowed("/home/user"));
    assert!(fs.is_path_readonly("/usr/lib/python3"));
    assert!(!fs.is_path_readonly("/usrlocal"));
    assert!(fs.should_hide_path("/proc/1/status"));
    assert!(!fs.should_hide_path("/tmp"));
}

#[test]
fn denied_paths_win_over_allowed() {
    let mut policy = FilesystemPolicy::default();
    policy.allowed_paths.push("/root".to_string());
    let fs = FilesystemState::new(policy);
    assert!(!fs.is_path_allowed("/root/.ssh"));
}

#[test]
fn mount_checks_in_order() {
    let mut fs = FilesystemState::new(FilesystemPolicy::default());
    let err = |r: Result<(), BlastError>| match r {
        Err(BlastError::Security(m)) => m,
        _ => panic!("expected a security error"),
    };
    assert_eq!(
        err(fs.validate_mount_config("/tmp/../etc", &bind("/src", &[]), true)),
        "Path traversal detected in mount point"
    );
    assert_eq!(err(fs.validate_mount_config("/tmp/m", &bind("/src", &[]), false)), "Mount source does not exist");
    assert_eq!(err(fs.validate_mount_config("/tmp/m", &bind("/a/../b", &[]), true)), "Path traversal detected in source");
    assert_eq!(
        err(fs.validate_mount_config("/tmp/m", &bind("/src", &["ro", "nosuid"]), true)),
        "Forbidden mount option detected: nosuid"
    );
    assert!(fs.validate_mount_config("/tmp/m", &bind("/src", &["ro"]), true).is_ok());
    fs.record_mount("/tmp/m", bind("/src", &["ro"]), SystemTime::now());
    assert_eq!(err(fs.validate_mount_config("/tmp/m/inner", &bind("/src", &[]), true)), "Recursive mount detected");
    assert_eq!(err(fs.validate_mount_config("/tmp", &bind("/src", &[]), true)), "Recursive mount detected");
    assert_eq!(err(fs.check_mount("/home/x", &bind("/src", &[]), true)), "Mount point not allowed: /home/x");
    let tmpfs = MountConfig { source: String::new(), options: vec![], mount_type: MountType::Tmpfs, readonly: true };
    assert!(fs.check_mount("/tmp/other", &tmpfs, false).is_ok());
    assert_eq!(fs.get_mount_points(), vec!["/tmp/m".to_string()]);
    assert!(fs.get_mount_info("/tmp/m").is_some());
    assert!(fs.unmount("/tmp/m"));
    assert!(!fs.unmount("/tmp/m"));
    assert!(fs.get_mount_points().is_empty());
}

#[test]
fn mount_call_arguments() {
    assert_eq!(MountType::Bind.fstype(), "none");
    assert_eq!(MountType::Tmpfs.fstype(), "tmpfs");
    assert_eq!(MountType::Overlay.fstype(), "overlay");
    assert_eq!(bind("/s", &["ro", "noexec"]).mount_data(), "ro,noexec");
    assert_eq!(comma_join(&vec![]), "");
}

#[test]
fn access_tracking_counts_and_flags() {
    let mut fs = FilesystemState::new(FilesystemPolicy::default());
    let now = SystemTime::now();
    fs.record_access("/tmp/a", false, 10, false, now, false).unwrap();
    fs.record_access("/tmp/a", true, 2 * 1048576, false, now, true).unwrap();
    let info = fs.get_access_info("/tmp/a").unwrap();
    assert_eq!(info.read_count, 1);
    assert_eq!(info.write_count, 1);
    assert_eq!(info.size, 2 * 1048576);
    assert_eq!(info.permissions, 0o644);
    assert_eq!(
        fs.get_access_patterns("/tmp/a"),
        vec![
            AccessPattern::RapidAccess { count: 1, interval: 1 },
            AccessPattern::LargeTransfer { bytes: 2 * 1048576, duration: 1 }
        ]
    );
    assert!(fs.get_security_violations("/tmp/a").is_empty());
    assert!(fs.get_access_patterns("/nowhere").is_empty());
}

#[test]
fn oversized_write_is_refused_and_recorded() {
    let mut fs = FilesystemState::new(FilesystemPolicy::default());
    let now = SystemTime::now();
    match fs.record_access("/tmp/big", true, 104857601, false, now, false) {
        Err(BlastError::Security(m)) => assert_eq!(m, "File size limit exceeded"),
        _ => panic!("expected a security error"),
    }
    let info = fs.get_access_info("/tmp/big").unwrap();
    assert_eq!(info.write_count, 1);
    assert_eq!(info.size, 0);
    let v = fs.get_security_violations("/tmp/big");
    assert_eq!(v.len(), 1);
    assert!(matches!(v[0], SecurityViolation::SizeLimitExceeded { size: 104857601, limit: 104857600 }));
}

#[test]
fn many_patterns_raise_a_note() {
    let mut fs = FilesystemState::new(FilesystemPolicy::default());
    let now = SystemTime::now();
    for _ in 0..11 {
        fs.record_access("/tmp/hot", false, 1, false, now, true).unwrap();
    }
    let v = fs.get_security_violations("/tmp/hot");
    assert_eq!(v.len(), 1);
    match &v[0] {
        SecurityViolation::SuspiciousPattern { pattern, details } => {
            assert_eq!(pattern, "High frequency access");
            assert_eq!(details, "Access count: 11");
        }
        _ => panic!("expected a suspicious pattern"),
    }
    fs.track_access("/tmp/hot", false, 1, false).unwrap();
    assert_eq!(fs.get_access_info("/tmp/hot").unwrap().read_count, 12);
}

#[test]
fn container_state_steps() {
    let mut s = ContainerState::default();
    s.complete(SetupStep::CGroups);
    s.complete(SetupStep::Network);
    assert!(s.cgroups_configured && s.network_configured);
    assert!(!s.initialized && !s.cleaned_up && !s.namespaces_created);
}

#[test]
fn container_new_has_uuid_id() {
    let c = Container::new(ContainerConfig::default()).unwrap();
    assert_eq!(c.id().len(), 36);
    assert_eq!(c.root_dir(), "/var/lib/blast/containers");
    assert_eq!(c.runtime_state(), ContainerState::default());
    assert_eq!(c.cgroup_dir(), format!("/sys/fs/cgroup/blast/{}", c.id()));
    let other = Container::new(ContainerConfig::default()).unwrap();
    assert_ne!(c.id(), other.id());
}

#[test]
fn namespaces_follow_config() {
    let all = NamespaceConfig::default();
    assert_eq!(namespaces_to_create(&all).len(), 7);
    let some = NamespaceConfig { mnt: false, pid: true, net: false, ipc: false, uts: true, user: false, cgroup: false };
    assert_eq!(namespaces_to_create(&some), vec![NamespaceKind::Pid, NamespaceKind::Uts]);
}

#[test]
fn cgroup_plan_with_defaults() {
    let c = CGroupConfig::default();
    assert_eq!(memory_limit_of(&c), 536870912);
    let w = cgroup_writes(&c, 42, 483183820);
    let triples: Vec<(String, String, String)> =
        w.into_iter().map(|x| (x.controller, x.file, x.value)).collect();
    let t = |a: &str, b: &str, c: &str| (a.to_string(), b.to_string(), c.to_string());
    assert_eq!(
        triples,
        vec![
            t("memory", "tasks", "42"),
            t("memory", "memory.limit_in_bytes", "536870912"),
            t("memory", "memory.swappiness", "0"),
            t("memory", "memory.soft_limit_in_bytes", "483183820"),
            t("cpu", "tasks", "42"),
            t("cpu", "cpu.cfs_quota_us", "100000"),
            t("cpu", "cpu.cfs_period_us", "100000"),
            t("cpu", "cpu.shares", "1024"),
            t("io", "tasks", "42"),
            t("io", "io.weight", "100"),
            t("pids", "tasks", "42"),
            t("pids", "pids.max", "100"),
        ]
    );
}

#[test]
fn cgroup_plan_with_io_limits() {
    let mut c = CGroupConfig::default();
    c.controllers = vec!["io".to_string(), "unknown".to_string()];
    c.io_weight = Some(500);
    c.io_limits = Some(IoLimits { read_bps_limit: Some(1000), write_bps_limit: Some(2000) });
    let w = cgroup_writes(&c, 1, 0);
    let files: Vec<(String, String)> = w.into_iter().map(|x| (x.file, x.value)).collect();
    assert_eq!(
        files,
        vec![
            ("tasks".to_string(), "1".to_string()),
            ("io.weight".to_string(), "500".to_string()),
            ("io.max".to_string(), "rbps=1000".to_string()),
            ("io.max".to_string(), "wbps=2000".to_string()),
            ("tasks".to_string(), "1".to_string()),
        ]
    );
}

#[test]
fn network_plan_with_defaults() {
    let policy = NetworkPolicy::default();
    let plan = network_setup_plan("c1", &policy);
    let commands: Vec<String> = plan.iter().map(|s| s.command.join(" ")).collect();
    assert_eq!(
        commands,
        vec![
            "ip netns add c1",
            "ip link add blast0 type veth peer name blast0_h",
            "ip link set blast0 netns c1",
            "ip netns exec c1 ip link set blast0 up",
            "tc qdisc add dev blast0 root tbf rate 83886080bit latency 50ms burst 1540",
        ]
    );
    assert!(plan[0].on_failure.is_empty());
    assert_eq!(plan[2].on_failure, vec![vec!["ip", "link", "del", "blast0"], vec!["ip", "netns", "del", "c1"]]);
    assert!(!plan[4].required);
    assert_eq!(plan[1].failure_message, "Failed to create veth pair");
}

#[test]
fn network_plan_with_address() {
    let mut policy = NetworkPolicy::default();
    policy.interface_config.ip_address = Some("10.0.0.2/24".to_string());
    policy.bandwidth_limit = None;
    let plan = network_setup_plan("c2", &policy);
    assert_eq!(plan.len(), 5);
    assert_eq!(plan[3].command.join(" "), "ip netns exec c2 ip addr add 10.0.0.2/24 dev blast0");
}

#[test]
fn connection_rules() {
    let mut policy = NetworkPolicy::default();
    assert!(!NetworkState::new(policy.clone()).is_connection_allowed("a", "pypi.org:443", Protocol::TCP));
    policy.allow_outbound = true;
    let state = NetworkState::new(policy.clone());
    assert!(state.is_connection_allowed("a", "files.pythonhosted.org", Protocol::TCP));
    assert!(!state.is_connection_allowed("a", "example.com", Protocol::TCP));
    assert!(!state.is_connection_allowed("a", "pypi.org", Protocol::ICMP));
    policy.allowed_ips.push("10.0.0.".to_string());
    let state = NetworkState::new(policy);
    assert!(state.is_connection_allowed("a", "10.0.0.5:80", Protocol::UDP));
    assert!(!state.is_connection_allowed("a", "10.0.0.5:22", Protocol::UDP));
    assert!(state.is_connection_allowed("a", "10.0.0.5:http", Protocol::TCP));
}

#[test]
fn tracked_connections_and_traffic() {
    let mut state = NetworkState::new(NetworkPolicy::default());
    let mut c = ConnectionInfo::default();
    assert_eq!(c.protocol, Protocol::TCP);
    assert_eq!(c.state, ConnectionState::New);
    c.source = "10.0.0.2".to_string();
    c.destination = "pypi.org:443".to_string();
    assert!(state.track_connection(c.clone()).is_ok());
    c.bytes_sent = 5;
    assert!(state.track_connection(c.clone()).is_ok());
    let mut d = ConnectionInfo::default();
    d.source = "10.0.0.2".to_string();
    d.destination = "files.pythonhosted.org:443".to_string();
    assert!(state.track_connection(d).is_ok());
    let active = state.get_active_connections().unwrap();
    assert_eq!(active.len(), 2);
    assert_eq!(active.iter().filter(|x| x.destination == "pypi.org:443").count(), 1);
    assert_eq!(active.iter().find(|x| x.destination == "pypi.org:443").unwrap().bytes_sent, 5);
    assert!(state.update_bandwidth(100, 200).is_ok());
    assert!(state.update_bandwidth(1, 2).is_ok());
}

#[test]
fn resource_usage_from_counter_files() {
    let u = ResourceUsage::from_stats("1024", "2048", "usage_usec 10\nuser_usec 7\nbad\n", "8:0 rbytes=1\n", "3", SystemTime::now())
        .unwrap();
    assert_eq!(u.memory_current, 1024);
    assert_eq!(u.memory_peak, 2048);
    assert_eq!(u.process_count, 3);
    assert_eq!(u.cpu_usage.get("usage_usec"), Some(&10));
    assert_eq!(u.cpu_usage.get("user_usec"), Some(&7));
    assert_eq!(u.cpu_usage.len(), 2);
    assert_eq!(u.io_usage.len(), 0);
    match ResourceUsage::from_stats("1024\n", "2048", "", "", "3", SystemTime::now()) {
        Err(BlastError::ParseError(m)) => assert_eq!(m, "invalid number in memory.current"),
        _ => panic!("expected a parse error"),
    }
    match ResourceUsage::from_stats("1", "2", "", "", "x", SystemTime::now()) {
        Err(BlastError::ParseError(m)) => assert_eq!(m, "invalid number in pids.current"),
        _ => panic!("expected a parse error"),
    }
}

#[test]
fn stats_later_lines_override() {
    let m = parse_stats("a 1\na 2\n b   3 extra\n");
    assert_eq!(m.get("a"), Some(&2));
    assert_eq!(m.get("b"), Some(&3));
}

#[test]
fn isolation_config_defaults_and_access() {
    let config = IsolationConfig::default();
    assert_eq!(config.level, IsolationLevel::Process);
    let iso = EnhancedIsolation::new(config).unwrap();
    assert_eq!(iso.level(), IsolationLevel::Process);
    assert!(iso.namespace_config().net);
    assert_eq!(iso.cgroup_config().controllers, vec!["memory", "cpu", "io", "pids"]);
    assert!(!iso.network_policy().allow_outbound);
    assert_eq!(iso.filesystem_policy().max_file_size, 104857600);
}

#[test]
fn process_defaults() {
    let c = ProcessConfig::default();
    assert_eq!(c.working_dir, ".");
    assert!(c.command.is_empty());
    let mut s = ProcessState::started(SystemTime::now());
    assert!(s.running);
    s.mark_killed();
    assert!(!s.running);
    assert_eq!(s.exit_code, Some(-1));
    assert!(!ProcessState::default().running);
}

#[test]
fn process_manager_tracks_started_processes() {
    let mut m = ProcessManager::new();
    let t = SystemTime::now();
    let h = m.track_spawned(4242, t);
    assert_eq!(h.pid(), 4242);
    let s = m.get_state(&h).unwrap();
    assert!(s.running);
    assert_eq!(s.exit_code, None);
    assert_eq!(s.start_time, t);
    assert!(m.kill(&h).is_ok());
    let s = m.get_state(&h).unwrap();
    assert!(!s.running);
    assert_eq!(s.exit_code, Some(-1));
    assert_eq!(s.start_time, t);
    let other = ProcessManager::new().track_spawned(7, t);
    assert!(m.kill(&other).is_ok());
    let s = m.get_state(&other).unwrap();
    assert!(!s.running);
    assert_eq!(s.exit_code, None);
}

#[test]
fn isolation_manager_defaults() {
    let m = IsolationManager::new();
    assert!(m.process_isolation().is_some());
    assert!(m.container_isolation().is_none());
    let d = IsolationManager::default();
    assert!(d.process_isolation().is_none());
    assert!(d.container_isolation().is_none());
}

#[test]
fn test_container_creation() {
    let mut config = ContainerConfig::default();
    config.root_dir = "/tmp/blast-test-containers".to_string();
    config.name = "test-container".to_string();
    let container = Container::new(config).unwrap();
    assert!(!container.id().is_empty());
}
