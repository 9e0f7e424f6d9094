use blast::commands::{
    check_lines, env_name_for, find_image, list_line, parse_choice, parse_pid, prompt_variable, start_exports,
    DEACTIVATION_SCRIPT,
};
use blast::error::BlastError;
use blast::text::is_whitespace;
use blast::output::{HealthStatus, Logger, Progress};
use blast::paths::{file_name, has_parent_dir, join, same_path, starts_with_path};

#[test]
fn start_prints_shell_exports() {
    let lines = start_exports("demo", "/envs/demo", "3.11");
    assert_eq!(
        lines,
        vec![
            "export BLAST_ENV_NAME=\"demo\"",
            "export BLAST_ENV_PATH=\"/envs/demo\"",
            "export BLAST_PYTHON_VERSION=\"3.11\"",
            "export PS1=\"(blast) $PS1\"",
            "export PATH=\"/envs/demo/bin:$PATH\"",
            "hash -r 2>/dev/null || true",
        ]
    );
}

#[test]
fn environment_names_default_to_directory() {
    assert_eq!(env_name_for(Some("given".to_string()), "/x/y"), "given");
    assert_eq!(env_name_for(None, "/x/project/"), "project");
    assert_eq!(env_name_for(None, "/"), "");
    assert_eq!(env_name_for(None, "a/.."), "");
}

#[test]
fn listing_marks_active_environment() {
    assert_eq!(list_line("demo", Some("demo")), "* demo");
    assert_eq!(list_line("demo", Some("other")), "  demo");
    assert_eq!(list_line("demo", None), "  demo");
}

#[test]
fn check_reports_each_case() {
    assert_eq!(
        check_lines(Some("e"), Some("/p"), Some("3.9"), Some("e"), Some("/p/")),
        vec!["Active blast environment:", "  Name: e", "  Path: /p", "  Python version: 3.9"]
    );
    assert_eq!(
        check_lines(Some("e"), Some("/p"), Some("3.9"), Some("f"), Some("/q")),
        vec![
            "Warning: Shell environment does not match daemon state",
            "Shell environment:",
            "  Name: e",
            "  Path: /p",
            "Daemon state:",
            "  Name: f",
            "  Path: /q"
        ]
    );
    assert_eq!(check_lines(Some("e"), Some("/p"), Some("3.9"), None, None).len(), 4);
    assert_eq!(
        check_lines(None, None, None, Some("f"), Some("/q")),
        vec![
            "Warning: Daemon shows active environment but shell environment is not set",
            "Daemon state:",
            "  Name: f",
            "  Path: /q"
        ]
    );
    assert_eq!(check_lines(Some("e"), None, None, None, Some("/q")), vec!["No active blast environment"]);
}

#[test]
fn daemon_pid_and_image_choice() {
    assert_eq!(parse_pid(" 1234\n"), Some(1234));
    assert_eq!(parse_pid("abc"), None);
    let names = vec!["a".to_string(), "b".to_string(), "a".to_string()];
    assert_eq!(find_image(&names, "a"), Some(0));
    assert_eq!(find_image(&names, "z"), None);
    assert_eq!(parse_choice(" 2\n", 3), Some(1));
    assert_eq!(parse_choice("0", 3), None);
    assert_eq!(parse_choice("4", 3), None);
    assert_eq!(parse_choice("x", 3), None);
}

#[test]
fn prompt_variables_per_shell() {
    assert_eq!(prompt_variable("/bin/bash"), Some(("PS1", "(blast) $PS1")));
    assert_eq!(prompt_variable("/usr/bin/zsh"), Some(("PROMPT", "(blast) $PROMPT")));
    assert_eq!(prompt_variable("/usr/bin/fish"), None);
    assert!(DEACTIVATION_SCRIPT.contains("unset BLAST_ENV_NAME"));
}

#[test]
fn plain_logger_lines() {
    let l = Logger::from_settings(true, None, None);
    assert_eq!(l.header("Title"), "\nTitle\n");
    assert_eq!(l.section("Part"), "\nPart");
    assert_eq!(l.status("cpu", HealthStatus::Okay), "cpu: okay");
    assert_eq!(l.info("name", "demo"), "name: demo");
    assert_eq!(l.success("ok"), "✓ ok");
    assert_eq!(l.warning("careful"), "WARNING: careful");
    assert_eq!(l.error("bad"), "ERROR: bad");
    let p = Progress::new(Logger::from_settings(false, Some("0"), None));
    assert_eq!(p.start("Installing"), "→ Installing ... ");
    assert_eq!(p.success(), "done");
    assert_eq!(p.fail(), "failed");
    assert_eq!(HealthStatus::Bad.to_text(), "bad");
}

#[test]
fn path_helpers() {
    assert_eq!(join("/a", "b"), "/a/b");
    assert_eq!(join("/a/", "b"), "/a/b");
    assert_eq!(join("/a", "/b"), "/b");
    assert!(starts_with_path("/a/b/c", "/a/b"));
    assert!(!starts_with_path("/a/bc", "/a/b"));
    assert!(same_path("/a//b/", "/a/b"));
    assert!(!same_path("/a/b", "a/b"));
    assert!(has_parent_dir("x/../y"));
    assert!(!has_parent_dir("x/..y"));
    assert_eq!(file_name("/x/y.txt"), Some("y.txt".to_string()));
    assert_eq!(file_name("/"), None);
}

#[test]
fn error_constructors_keep_messages() {
    assert!(matches!(BlastError::security("s"), BlastError::Security(m) if m == "s"));
    assert!(matches!(BlastError::config("c"), BlastError::Config(m) if m == "c"));
    assert!(matches!(BlastError::package("p"), BlastError::Package(m) if m == "p"));
    assert!(matches!(BlastError::cache("k"), BlastError::Cache(m) if m == "k"));
}

#[test]
fn start_is_refused_inside_an_environment() {
    assert!(blast::commands::start_guard(None).is_ok());
    match blast::commands::start_guard(Some("proj".to_string())) {
        Err(blast::error::BlastError::Environment(m)) => {
            assert_eq!(m, "Already in blast environment: proj. Run 'blast kill' first to deactivate")
        },
        other => panic!("expected an environment error, got {:?}", other),
    }
}

#[test]
fn whitespace_is_the_unicode_white_space_list() {
    for c in ['\t', '\n', '\u{b}', '\u{c}', '\r', ' ', '\u{85}', '\u{a0}', '\u{1680}', '\u{2000}', '\u{200a}', '\u{2028}', '\u{2029}', '\u{202f}', '\u{205f}', '\u{3000}'] {
        assert!(is_whitespace(c), "{:?}", c);
    }
    for c in ['a', '\u{8}', '\u{e}', '\u{1f}', '\u{200b}', '\u{feff}', '\u{180e}', '0'] {
        assert!(!is_whitespace(c), "{:?}", c);
    }
    for n in 0u32..0x4000 {
        if let Some(c) = char::from_u32(n) {
            assert_eq!(is_whitespace(c), c.is_whitespace(), "{:x}", n);
        }
    }
}
