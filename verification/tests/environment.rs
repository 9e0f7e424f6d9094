use blast::config::BlastConfig;
use blast::diagnostics::{Diagnostic, DiagnosticCategory, DiagnosticCollection, DiagnosticLevel, Timestamp};
use blast::error::BlastError;
use blast::hot_reload::config::HotReloadConfig;
use blast::hot_reload::update::HotReloadUpdateStatus;
use blast::logging::LogLevel;
use blast::package::{
    parse_package_spec, parse_requirements, status_after_processing, PackageConfig, PackageInstaller,
    PackageLayerStatus, PipOperation, PipRequest, SchedulerConfig, OperationType,
};
use blast::resources::{CpuLimits, IoLimits, IoUsage, MemoryLimits, NetworkLimits, ProcessLimits, ResourceLimits, DeviceLimit, InterfaceLimit};
use blast::security::{Capability, CapabilitySet, CapSet, SecurityConfig, SecurityManager};
use blast::state::{ContainerStatus, EnvironmentState, NetworkUsage, SecurityState};

fn args(a: &[&str]) -> Vec<String> {
    a.iter().map(|s| s.to_string()).collect()
}

fn writes(w: Vec<blast::resources::FileWrite>) -> Vec<(String, String)> {
    w.into_iter().map(|x| (x.path, x.value)).collect()
}

#[test]
fn test_resource_limits() {
    let limits = ResourceLimits::default();
    assert_eq!(limits.cpu.shares, 1024);
    assert_eq!(limits.memory.swappiness, 60);
    assert_eq!(limits.io.weight, 100);
    assert_eq!(limits.process.max_processes, -1);
    assert_eq!(limits.network.bandwidth_bps, -1);
}

#[test]
fn default_limits_write_only_required_settings() {
    let limits = ResourceLimits::default();
    assert_eq!(
        writes(limits.cpu.writes()),
        vec![
            ("/sys/fs/cgroup/cpu/cpu.shares".to_string(), "1024".to_string()),
            ("/sys/fs/cgroup/cpu/cpu.cfs_quota_us".to_string(), "-1".to_string()),
            ("/sys/fs/cgroup/cpu/cpu.cfs_period_us".to_string(), "100000".to_string()),
        ]
    );
    assert_eq!(
        writes(limits.memory.writes()),
        vec![("/sys/fs/cgroup/memory/memory.swappiness".to_string(), "60".to_string())]
    );
    assert!(limits.process.writes().is_empty());
    assert_eq!(limits.process.open_files_limit(), None);
    assert!(limits.network.commands().is_empty());
}

#[test]
fn configured_limits_write_every_setting() {
    let cpu = CpuLimits { shares: 512, quota_us: 50000, period_us: 100000, cpuset: vec![0, 2, 3], weight: 10 };
    let w = writes(cpu.writes());
    assert_eq!(w[3], ("/sys/fs/cgroup/cpu/cpuset.cpus".to_string(), "0,2,3".to_string()));
    let mem = MemoryLimits { limit_bytes: 1000, soft_limit_bytes: -1, kernel_limit_bytes: 0, swap_limit_bytes: 5, swappiness: 0 };
    assert_eq!(
        writes(mem.writes()),
        vec![
            ("/sys/fs/cgroup/memory/memory.limit_in_bytes".to_string(), "1000".to_string()),
            ("/sys/fs/cgroup/memory/memory.kmem.limit_in_bytes".to_string(), "0".to_string()),
            ("/sys/fs/cgroup/memory/memory.memsw.limit_in_bytes".to_string(), "5".to_string()),
            ("/sys/fs/cgroup/memory/memory.swappiness".to_string(), "0".to_string()),
        ]
    );
    let mut io = IoLimits::default();
    io.device_limits.insert(
        "8:0".to_string(),
        DeviceLimit { read_bps: Some(100), write_bps: None, read_iops: None, write_iops: Some(7) },
    );
    assert_eq!(
        writes(io.writes()),
        vec![
            ("/sys/fs/cgroup/blkio/blkio.weight".to_string(), "100".to_string()),
            ("/sys/fs/cgroup/blkio/blkio.throttle.read_bps_device".to_string(), "8:0 100".to_string()),
            ("/sys/fs/cgroup/blkio/blkio.throttle.write_iops_device".to_string(), "8:0 7".to_string()),
        ]
    );
    let p = ProcessLimits { max_processes: 10, max_open_files: 64, max_threads: -1 };
    assert_eq!(writes(p.writes()), vec![("/sys/fs/cgroup/pids/pids.max".to_string(), "10".to_string())]);
    assert_eq!(p.open_files_limit(), Some(64));
}

#[test]
fn network_limit_commands() {
    let mut n = NetworkLimits::default();
    n.bandwidth_bps = 1000;
    n.interface_limits.insert("eth1".to_string(), InterfaceLimit { ingress_bps: Some(5), egress_bps: Some(6) });
    let c: Vec<String> = n.commands().into_iter().map(|v| v.join(" ")).collect();
    assert_eq!(
        c,
        vec![
            "tc qdisc add dev eth0 root tbf rate 1000 latency 50ms burst 1540",
            "tc qdisc add dev eth1 ingress",
            "tc filter add dev eth1 parent ffff: protocol ip u32 match ip src 0.0.0.0/0 police rate 5 burst 10k drop flowid :1",
            "tc qdisc add dev eth1 root tbf rate 6 latency 50ms burst 1540",
        ]
    );
}

#[test]
fn io_usage_reading() {
    let start = IoUsage { read_bytes: 0, write_bytes: 0 };
    let u = start.read_service_bytes("8:0 Read 100\n8:0 Write 200\n8:0 Sync 5\nTotal 300\n").unwrap();
    assert_eq!(u, IoUsage { read_bytes: 100, write_bytes: 200 });
    match start.read_service_bytes("8:0 Read lots\n") {
        Err(BlastError::ParseError(m)) => assert_eq!(m, "invalid number in blkio.throttle.io_service_bytes"),
        _ => panic!("expected a parse error"),
    }
    assert_eq!(blast::resources::read_counter(" 42\n"), Some(42));
}

#[test]
fn security_defaults() {
    let config = SecurityConfig::default();
    assert!(!config.privileged);
    assert!(config.no_new_privileges);
    assert!(config.capabilities.dropped.contains(Capability::SysAdmin));
    let manager = SecurityManager::new(config);
    let changes = manager.capability_changes();
    assert_eq!(changes.len(), 9);
    assert!(changes.iter().all(|c| !c.raise));
    assert_eq!(changes[0].set, CapSet::Effective);
    assert_eq!(changes[0].cap, Capability::SysAdmin);
    assert!(manager.drops_all_capabilities());
    assert!(manager.sets_no_new_privileges());
    let files: Vec<(String, String)> = manager.apparmor_files().into_iter().map(|w| (w.path, w.value)).collect();
    assert_eq!(files, vec![("/proc/self/attr/current".to_string(), "blast-default".to_string())]);
    let se: Vec<(String, String)> = manager.selinux_files().into_iter().map(|w| (w.path, w.value)).collect();
    assert_eq!(se, vec![("/proc/self/attr/current".to_string(), "blast_t".to_string())]);
}

#[test]
fn capability_set_has_no_duplicates() {
    let mut s = CapabilitySet::new();
    assert!(s.insert(Capability::Kill));
    assert!(!s.insert(Capability::Kill));
    assert!(s.insert(Capability::Chown));
    assert_eq!(s.len(), 2);
    assert_eq!(s.at(1), Capability::Chown);
    assert!(!s.contains(Capability::Bpf));
}

#[test]
fn state_defaults() {
    assert_eq!(ContainerStatus::default(), ContainerStatus::Created);
    assert_eq!(NetworkUsage::default(), NetworkUsage { rx_bytes: 0, tx_bytes: 0, rx_packets: 0, tx_packets: 0 });
    assert!(!SecurityState::default().seccomp_enabled);
}

#[test]
fn pip_install_lines() {
    match PipOperation::parse(&args(&["install", "-U", "requests", "-r", "req.txt", "--quiet", "flask==2.0"])).unwrap() {
        PipOperation::Install { packages, upgrade, editable, requirements, constraints } => {
            assert_eq!(packages, vec!["requests", "flask==2.0"]);
            assert!(upgrade);
            assert!(!editable);
            assert_eq!(requirements, Some("req.txt".to_string()));
            assert_eq!(constraints, None);
        }
        _ => panic!("expected an install"),
    }
}

#[test]
fn pip_other_commands() {
    match PipOperation::parse(&args(&["uninstall", "-y", "a", "b"])).unwrap() {
        PipOperation::Uninstall { packages } => assert_eq!(packages, vec!["a", "b"]),
        _ => panic!("expected an uninstall"),
    }
    match PipOperation::parse(&args(&["list", "--outdated"])).unwrap() {
        PipOperation::List { outdated } => assert!(outdated),
        _ => panic!("expected a list"),
    }
    match PipOperation::parse(&args(&["download", "x", "-d", "/tmp"])).unwrap() {
        PipOperation::Download { packages, dest } => {
            assert_eq!(packages, vec!["x"]);
            assert_eq!(dest, Some("/tmp".to_string()));
        }
        _ => panic!("expected a download"),
    }
    match PipOperation::parse(&args(&["config", "set", "a=1", "b=2=3", "nokey"])).unwrap() {
        PipOperation::Config { action, options } => {
            assert_eq!(action, "set");
            assert_eq!(options.get("a"), Some(&"1".to_string()));
            assert_eq!(options.get("b"), Some(&"2=3".to_string()));
            assert_eq!(options.len(), 2);
        }
        _ => panic!("expected a config"),
    }
    match PipOperation::parse(&args(&["freeze"])) {
        Err(BlastError::Package(m)) => assert_eq!(m, "Unsupported pip command: freeze"),
        _ => panic!("expected a package error"),
    }
    match PipOperation::parse(&args(&[])) {
        Err(BlastError::Package(m)) => assert_eq!(m, "No pip arguments provided"),
        _ => panic!("expected a package error"),
    }
}

#[test]
fn requirement_specifications() {
    assert_eq!(parse_package_spec("flask >= 2.0"), Some(("flask".to_string(), Some(">=2.0".to_string()))));
    assert_eq!(parse_package_spec("a==1"), Some(("a".to_string(), Some("==1".to_string()))));
    assert_eq!(parse_package_spec("b<3"), Some(("b".to_string(), Some("<3".to_string()))));
    assert_eq!(parse_package_spec("plain"), Some(("plain".to_string(), None)));
    assert_eq!(parse_package_spec("two words"), None);
    let r = parse_requirements("# deps\nrequests==2.31\n\n  numpy\nbad name\n");
    assert_eq!(
        r,
        vec![("requests".to_string(), Some("==2.31".to_string())), ("numpy".to_string(), None)]
    );
}

#[test]
fn pip_requests_of_a_layer() {
    match PipRequest::from_args(&args(&["install", "--user", "pkg==1.0"])) {
        Some(PipRequest::Install { name, version }) => {
            assert_eq!(name, "pkg");
            assert_eq!(version, Some("1.0".to_string()));
        }
        _ => panic!("expected an install request"),
    }
    match PipRequest::from_args(&args(&["remove", "pkg"])) {
        Some(PipRequest::Uninstall { name }) => assert_eq!(name, "pkg"),
        _ => panic!("expected an uninstall request"),
    }
    assert!(PipRequest::from_args(&args(&["uninstall", "-y"])).is_none());
    assert!(PipRequest::from_args(&args(&["freeze"])).is_none());
    assert!(PipRequest::from_args(&args(&[])).is_none());
    assert_eq!(status_after_processing(true), PackageLayerStatus::Idle);
    assert_eq!(status_after_processing(false), PackageLayerStatus::Conflicted);
}

#[test]
fn package_settings_defaults() {
    let c = PackageConfig::default();
    assert_eq!(c.index_url, "https://pypi.org/simple");
    assert_eq!(c.trusted_hosts, vec!["pypi.org"]);
    assert_eq!(c.cache_ttl, 86400);
    let _installer = PackageInstaller::new(c);
    let s = SchedulerConfig::default();
    assert_eq!(s.max_concurrent_ops, 3);
    assert_eq!(s.operation_timeouts[0], (OperationType::Install, 300));
}

#[test]
fn blast_config_paths_and_validation() {
    let c = BlastConfig::new("proj", "0.1.0", "3.8", "/work/proj");
    assert_eq!(c.env_path(), "/work/proj/.venv");
    assert_eq!(c.name(), "proj");
    assert_eq!(c.version(), "0.1.0");
    assert_eq!(c.python_version(), "3.8");
    assert_eq!(c.root_dir(), "/work/proj");
    assert!(c.validate(true).is_ok());
    match c.validate(false) {
        Err(BlastError::Config(m)) => assert_eq!(m, "Environment directory does not exist: .venv"),
        _ => panic!("expected a configuration error"),
    }
    let mut abs = c;
    abs.env_dir = "/abs".to_string();
    match abs.validate(true) {
        Err(BlastError::Config(m)) => assert_eq!(m, "Environment directory must be relative to project root"),
        _ => panic!("expected a configuration error"),
    }
}

#[test]
fn diagnostics_selection() {
    let mut all = DiagnosticCollection::new();
    let a = Diagnostic::new(DiagnosticLevel::Error, "a".to_string(), DiagnosticCategory::Custom("x".to_string())).unwrap();
    assert_eq!(a.id.len(), 36);
    let mut b = Diagnostic::new(DiagnosticLevel::Info, "b".to_string(), DiagnosticCategory::Package).unwrap();
    b.timestamp = Timestamp { secs: 10, nanos: 0 };
    let b = b.with_details("d".to_string());
    all.add(a);
    all.add(b);
    assert_eq!(all.all().len(), 2);
    assert_eq!(all.by_level(DiagnosticLevel::Error).len(), 1);
    assert_eq!(all.by_category(&DiagnosticCategory::Custom("x".to_string())).len(), 1);
    assert_eq!(all.by_category(&DiagnosticCategory::Package)[0].message, "b");
    let in_range = all.in_time_range(Timestamp { secs: 5, nanos: 0 }, Timestamp { secs: 10, nanos: 0 });
    assert_eq!(in_range.len(), 1);
    assert_eq!(in_range[0].details, Some("d".to_string()));
    assert_eq!(DiagnosticCategory::Security.to_text(), "Security");
    assert_eq!(DiagnosticCategory::Custom("Mine".to_string()).to_text(), "Mine");
    all.clear();
    assert!(all.all().is_empty());
}

#[test]
fn log_levels_order_by_severity() {
    assert!(LogLevel::Error < LogLevel::Warn);
    assert!(LogLevel::Debug < LogLevel::Trace);
    assert_eq!(LogLevel::Error.rank(), 0);
    assert!(LogLevel::Info.allows(LogLevel::Error));
    assert!(LogLevel::Info.allows(LogLevel::Info));
    assert!(!LogLevel::Info.allows(LogLevel::Debug));
}

#[test]
fn hot_reload_settings() {
    let c = HotReloadConfig::default();
    assert_eq!(c.watch_paths, vec!["."]);
    assert_eq!(c.max_history, 100);
    let c = HotReloadConfig::new(vec!["src".to_string()])
        .with_python_watch(false)
        .with_env_watch(false)
        .with_auto_install(true)
        .with_max_history(5);
    assert_eq!(c.watch_paths, vec!["src"]);
    assert!(!c.watch_python && !c.watch_env && c.auto_install);
    assert_eq!(c.max_history, 5);
    assert!(HotReloadUpdateStatus::Failed("x".to_string()).is_finished());
    assert!(!HotReloadUpdateStatus::Pending.is_finished());
}

#[test]
fn environment_state_variables() {
    let mut st = EnvironmentState::new("id1".to_string(), "dev".to_string(), "/envs/dev".to_string(), "3.11".to_string());
    assert_eq!(st.created_at, st.modified_at);
    assert!(st.get_env_var("PATH").is_none());
    st.add_env_var("PATH".to_string(), "/usr/bin".to_string());
    assert_eq!(st.get_env_var("PATH").map(|s| s.as_str()), Some("/usr/bin"));
    st.add_env_var("PATH".to_string(), "/bin".to_string());
    assert_eq!(st.get_env_var("PATH").map(|s| s.as_str()), Some("/bin"));
    let before = st.modified_at;
    assert_eq!(st.remove_env_var("MISSING"), None);
    assert_eq!(st.modified_at, before);
    assert_eq!(st.remove_env_var("PATH"), Some("/bin".to_string()));
    assert!(st.get_env_var("PATH").is_none());
    assert_eq!(st.container_state.status, ContainerStatus::Created);
}

#[test]
fn test_environment_state() {
    let state = EnvironmentState::new(
        "test-id".to_string(),
        "test-env".to_string(),
        "/tmp/test-env".to_string(),
        "3.9.0".to_string(),
    );
    assert_eq!(state.id, "test-id");
    assert_eq!(state.name, "test-env");
    assert_eq!(state.python_version, "3.9.0");
}

#[test]
fn test_package_state() {
    let mut state = EnvironmentState::new(
        "test-id".to_string(),
        "test-env".to_string(),
        "/tmp/test-env".to_string(),
        "3.9.0".to_string(),
    );
    let _ = state.package_state.installed.insert(
        "test-package".to_string(),
        blast::state::PackageInfo {
            name: "test-package".to_string(),
            version: "1.0.0".to_string(),
            installed_at: std::time::SystemTime::now(),
            dependencies: Vec::new(),
        },
    );
    assert!(state.package_state.installed.contains_key("test-package"));
}

#[test]
fn test_security_config() {
    let config = SecurityConfig::default();
    assert!(!config.privileged);
    assert!(config.no_new_privileges);
    assert!(config.capabilities.dropped.contains(Capability::SysAdmin));
}

#[test]
fn random_ids_are_version_four_uuid_text() {
    let a = blast::time::random_id().unwrap();
    let b = blast::time::random_id().unwrap();
    assert_eq!(a.len(), 36);
    assert_ne!(a, b);
    for (i, c) in a.chars().enumerate() {
        if i == 8 || i == 13 || i == 18 || i == 23 {
            assert_eq!(c, '-');
        } else {
            assert!(c.is_ascii_hexdigit() && !c.is_ascii_uppercase());
        }
    }
    assert_eq!(a.chars().nth(14), Some('4'));
    assert!(matches!(a.chars().nth(19), Some('8' | '9' | 'a' | 'b')));
}

#[test]
fn the_clock_reads_after_the_epoch() {
    let t = blast::time::clock_now();
    assert!(t.secs > 1_600_000_000);
    assert!(t.nanos < 1_000_000_000);
}

#[test]
fn hot_reload_updates_carry_what_they_change() {
    let u = blast::hot_reload::update::HotReloadUpdateType::EnvVar("PATH".to_string(), "/bin".to_string());
    let v = u.clone();
    match v {
        blast::hot_reload::update::HotReloadUpdateType::EnvVar(k, val) => {
            assert_eq!(k, "PATH");
            assert_eq!(val, "/bin");
        },
        other => panic!("unexpected {:?}", other),
    }
    let p = blast::hot_reload::update::HotReloadUpdateType::PythonVersion("3.11".to_string());
    assert!(format!("{:?}", p).contains("3.11"));
}
