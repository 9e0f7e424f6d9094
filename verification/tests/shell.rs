use blast::error::BlastError;
use blast::shell::scripts::{ActivationScripts, ShellScripts};
use blast::shell::setup::ShellSetup;
use blast::shell::shell::{EnvironmentActivator, Shell, ShellState};
use blast::shell::venv::Environment;

#[test]
fn detection_prefers_shell_variable() {
    assert_eq!(Shell::detect_from(Some("/usr/bin/zsh"), true, false, None), Shell::Zsh);
    assert_eq!(Shell::detect_from(Some("/usr/local/bin/fish"), false, false, None), Shell::Fish);
    assert_eq!(Shell::detect_from(Some("/bin/pwsh"), false, false, None), Shell::PowerShell);
}

#[test]
fn detection_falls_back_to_versions_and_parent() {
    assert_eq!(Shell::detect_from(Some("/bin/tcsh"), true, true, None), Shell::Bash);
    assert_eq!(Shell::detect_from(None, false, true, None), Shell::Zsh);
    assert_eq!(Shell::detect_from(None, false, false, Some("-zsh\0-l\0")), Shell::Zsh);
    assert_eq!(Shell::detect_from(None, false, false, Some("/usr/bin/fish\0")), Shell::Fish);
    assert_eq!(Shell::detect_from(None, false, false, Some("sh\0bash-like\0")), Shell::Bash);
    assert_eq!(Shell::detect_from(None, false, false, None), Shell::Bash);
}

#[test]
fn activation_commands_per_shell() {
    assert_eq!(Shell::Bash.get_activation_command("/env"), "source /env/bin/activate");
    assert_eq!(Shell::Fish.get_activation_command("/env/"), "source /env/bin/activate.fish");
    assert_eq!(Shell::PowerShell.get_activation_command("/env"), ". /env/bin/activate.ps1");
    assert_eq!(
        Shell::Unknown.get_activation_command("/env"),
        "echo 'Unsupported shell detected. Please use bash, zsh, fish, or powershell.'"
    );
    assert_eq!(Shell::Zsh.get_deactivation_command(), "deactivate");
}

#[test]
fn activation_scripts_mention_the_environment() {
    let bash = ShellScripts::bash_zsh("/envs/demo", "demo");
    assert!(bash.contains("/envs/demo"));
    assert!(bash.contains("demo"));
    let fish = ShellScripts::fish("/envs/demo", "demo");
    assert!(fish.contains("/envs/demo"));
    let all = ActivationScripts::generate("/envs/demo", "demo");
    assert_eq!(all.bash, bash);
    assert_eq!(all.fish, fish);
    assert_eq!(all.powershell, ShellScripts::powershell("/envs/demo", "demo"));
    assert_eq!(all.csh, ShellScripts::csh("/envs/demo", "demo"));
}

#[test]
fn activator_tracks_socket_of_environment() {
    let state = ShellState::from_parts(Some("/usr/bin".to_string()), None, Some("$ ".to_string()));
    let state = state.with_environment("demo".to_string(), "/envs/demo".to_string());
    assert_eq!(state.socket(), Some("/tmp/blast_demo.sock"));
    let activator = EnvironmentActivator::with_shell(Shell::Bash, state, "/envs/demo".to_string(), "demo".to_string());
    assert_eq!(activator.get_socket_path(), Some("/tmp/blast_demo.sock"));
    assert_eq!(activator.env_name(), "demo");
    assert_eq!(activator.env_path(), "/envs/demo");
    assert_eq!(*activator.shell(), Shell::Bash);
    assert!(activator.generate_activation_script().contains("/envs/demo"));
    assert!(!activator.generate_deactivation_script().is_empty());
    assert_eq!(activator.rc_file(false), Some(".bashrc"));
}

#[test]
fn rc_content_replaces_old_block() {
    let state = ShellState::from_parts(None, None, None).with_environment("e".to_string(), "/p".to_string());
    let activator = EnvironmentActivator::with_shell(Shell::Bash, state, "/p".to_string(), "e".to_string());
    let first = activator.rc_content_with_function("export A=1\n");
    assert!(first.starts_with("export A=1\n\n# Blast environment manager integration\n"));
    let function = activator.generate_shell_function();
    assert!(first.ends_with(&format!("{}\n", function)));
}

#[test]
fn setup_targets_rc_files() {
    let bash = ShellSetup::for_shell(Shell::Bash, "/home/u").unwrap();
    assert_eq!(bash.config_file(), "/home/u/.bashrc");
    let fish = ShellSetup::for_shell(Shell::Fish, "/home/u").unwrap();
    assert_eq!(fish.config_file(), "/home/u/.config/fish/config.fish");
    match ShellSetup::for_shell(Shell::Unknown, "/home/u") {
        Err(BlastError::Config(m)) => assert_eq!(m, "Unsupported shell"),
        _ => panic!("expected a configuration error"),
    }
}

#[test]
fn setup_is_idempotent() {
    let setup = ShellSetup::for_shell(Shell::Zsh, "/home/u").unwrap();
    let first = setup.integration_update(Some("alias ll='ls -l'")).unwrap().unwrap();
    assert!(first.starts_with("alias ll='ls -l'\n"));
    assert!(ShellSetup::is_already_configured(Some(&first)));
    assert_eq!(setup.integration_update(Some(&first)).unwrap(), None);
    let fresh = setup.integration_update(None).unwrap().unwrap();
    assert!(ShellSetup::is_already_configured(Some(&fresh)));
    assert!(!ShellSetup::is_already_configured(None));
}

#[test]
fn venv_layout() {
    let env = Environment::new("/envs".to_string(), "demo".to_string(), "3.11".to_string());
    let dirs = env.directories();
    assert_eq!(dirs, vec!["/envs/bin", "/envs/lib", "/envs/include", "/envs/state", "/envs/logs", "/envs/cache", "/envs/hooks"]);
    assert_eq!(
        env.config_file_content(),
        "home = /envs\nimplementation = CPython\nversion = 3.11\nblast_version = 0.1.0\n"
    );
    assert_eq!(env.python_link_target(), "/usr/local/bin/python3.11");
    assert!(env.generate_bash_activation().contains("demo"));
}

#[test]
fn bash_wrapper_sources_the_activation_script() {
    let state = ShellState::from_parts(None, None, None).with_environment("e".to_string(), "/p".to_string());
    let activator = EnvironmentActivator::with_shell(Shell::Bash, state, "/p".to_string(), "e".to_string());
    let function = activator.generate_shell_function();
    let script = activator.generate_activation_script();
    // the wrapper sources the output only when both of its patterns occur
    assert!(function.contains("grep -q \"BLAST_ENV_NAME\""));
    assert!(function.contains("grep -q \"deactivate\""));
    assert!(script.contains("BLAST_ENV_NAME"));
    assert!(script.contains("deactivate"));
    assert!(ShellScripts::bash_zsh("/p", "e").contains("deactivate"));
}
