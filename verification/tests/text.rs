use vmn::cli::{ListArgs, RefreshArgs, Shell};
use vmn::errors::VmnError;
use vmn::model::{EnvSource, EnvStatus, Environment, StatusFilter};
use vmn::output;
use vmn::paths;
use vmn::python::{self, PythonInterpreter, PythonSelector};

fn env(id: &str, name: &str, python: Option<&str>, last_used: Option<&str>) -> Environment {
    Environment {
        id: id.to_string(),
        name: name.to_string(),
        path: "/home/u/p/.venv".to_string(),
        project_dir: Some("/home/u/p".to_string()),
        source: EnvSource::Scanned,
        status: EnvStatus::Active,
        python_version: python.map(|s| s.to_string()),
        pip_version: None,
        created_at: "t".to_string(),
        updated_at: "t".to_string(),
        last_used_at: last_used.map(|s| s.to_string()),
        last_scanned_at: None,
    }
}

#[test]
fn init_prints_zsh_snippet_and_creates_state() {
    let snippet = output::init_snippet(Shell::Zsh);
    assert!(snippet.contains("VMN zsh integration"));
    assert!(snippet.contains("vmn list --fzf"));
    let paths = paths::AppPaths::from_dirs("/s/config".to_string(), "/s/data".to_string());
    assert_eq!(paths.config_path, "/s/config/config.toml");
    assert_eq!(paths.db_path, "/s/data/vmn.db");
    assert_eq!(paths.managed_envs_dir, "/s/data/envs");
}

#[test]
fn init_prints_bash_snippet() {
    let snippet = output::init_snippet(Shell::Bash);
    assert!(snippet.contains("VMN bash integration"));
    assert!(snippet.contains("bind -x"));
    assert!(snippet.contains("vmn list --fzf"));
}

#[test]
fn snippets_activate_through_project_dir_and_activate_path() {
    for snippet in [output::zsh_snippet(), output::bash_snippet()] {
        let cd = snippet.find("command vmn project-dir").unwrap();
        let source = snippet.find("command vmn activate-path").unwrap();
        assert!(cd < source);
        assert!(!snippet.contains("eval"));
    }
}

#[test]
fn clean_field_replaces_tabs_and_line_breaks() {
    assert_eq!(output::clean_field("a\tb\nc\rd"), "a b c d");
    assert_eq!(output::clean_field("plain"), "plain");
}

#[test]
fn short_id_takes_eight_bytes() {
    assert_eq!(output::short_id("01HXABCDEFGHJKMNPQRSTVWXYZ"), "01HXABCD");
    assert_eq!(output::short_id("short"), "short");
    assert_eq!(output::short_id("ééééé"), "éééé");
    assert_eq!(output::short_id("aaaaaaaé"), "aaaaaaaé");
    assert_eq!(output::short_id("aaaaaaaéb"), "aaaaaaaéb");
}

#[test]
fn fzf_row_has_six_fields() {
    let e = env("01ABC", "my\tenv", Some("Python 3.12.3"), None);
    let row = output::fzf_row(&e);
    assert_eq!(row, "01ABC\tmy env\tactive\t/home/u/p/.venv\tPython 3.12.3\t");
    assert_eq!(row.split('\t').count(), 6);
}

#[test]
fn list_lines_pad_columns() {
    let e = env("01HXABCDEFGHJKMNPQRSTVWXYZ", "api", None, Some("2026-05-21"));
    let (first, second) = output::list_lines(&e);
    assert_eq!(
        first,
        format!("01HXABCD  {:<24} {:<8} {:<12} {}", "api", "active", "-", "/home/u/p/.venv")
    );
    assert_eq!(second, "    last used: 2026-05-21");
    let never = env("01ABC", "api", Some("Python 3.12"), None);
    assert_eq!(output::list_lines(&never).1, "    last used: -");
}

#[test]
fn doctor_check_lines() {
    let mut issues = 0usize;
    assert_eq!(output::report_check("database exists", true, &mut issues), "check database exists: ok");
    assert_eq!(issues, 0);
    assert_eq!(output::report_check("python available", false, &mut issues), "check python available: failed");
    assert_eq!(issues, 1);
    assert_eq!(output::report_optional_check("fzf installed", false), "check fzf installed: warning (optional)");
}

#[test]
fn path_joins_and_venv_files() {
    assert_eq!(paths::join_path("/a", "b"), "/a/b");
    assert_eq!(paths::join_path("/a/", "b"), "/a/b");
    assert_eq!(paths::join_path("", "b"), "b");
    assert_eq!(paths::join_path("/a", "/b"), "/b");
    assert_eq!(paths::activation_script("/x/.venv"), "/x/.venv/bin/activate");
    assert_eq!(paths::python_executable("/x/.venv"), "/x/.venv/bin/python");
    assert_eq!(paths::pyvenv_cfg("/x/.venv"), "/x/.venv/pyvenv.cfg");
}

#[test]
fn file_names_and_parents() {
    assert_eq!(paths::file_name("/a/b").as_deref(), Some("b"));
    assert_eq!(paths::file_name("/a/..").as_deref(), None);
    assert_eq!(paths::file_name("/").as_deref(), None);
    assert_eq!(paths::parent("/a/b").as_deref(), Some("/a"));
    assert_eq!(paths::parent("/a").as_deref(), Some("/"));
    assert_eq!(paths::parent("/").as_deref(), None);
    assert_eq!(paths::parent("a").as_deref(), Some(""));
    assert_eq!(paths::parent("").as_deref(), None);
}

#[test]
fn scanned_names() {
    assert_eq!(paths::scanned_name("/home/u/project/.venv"), "project");
    assert_eq!(paths::scanned_name("/home/u/envs/tools"), "tools");
    assert_eq!(paths::scanned_name("/.venv"), ".venv");
}

#[test]
fn path_prefixes_by_component() {
    assert!(paths::path_starts_with_exec("/data/envs/demo", "/data/envs"));
    assert!(paths::path_starts_with_exec("/data//envs/./demo", "/data/envs/"));
    assert!(!paths::path_starts_with_exec("/data/envs2/demo", "/data/envs"));
    assert!(!paths::path_starts_with_exec("data/envs/demo", "/data/envs"));
    assert!(paths::path_starts_with_exec("./a/b", "."));
    assert!(!paths::path_starts_with_exec("a/b", "./a"));
}

#[test]
fn managed_name_validation() {
    assert!(matches!(paths::validate_managed_name("  "), Err(VmnError::EmptyName)));
    assert!(matches!(paths::validate_managed_name("a/b"), Err(VmnError::NameHasSeparator)));
    assert!(matches!(paths::validate_managed_name("a\\b"), Err(VmnError::NameHasSeparator)));
    assert!(paths::validate_managed_name("api").is_ok());
}

#[test]
fn delete_safeguard_checks_in_order() {
    let facts = |e, d, c, a| paths::PathFacts {
        exists: e,
        is_dir: d,
        pyvenv_cfg_is_file: c,
        activation_script_is_file: a,
    };
    let msg = |f: paths::PathFacts| paths::ensure_safe_venv_delete("/v", &f).unwrap_err().message();
    assert_eq!(msg(facts(false, false, false, false)), "path does not exist: /v");
    assert_eq!(msg(facts(true, false, false, false)), "path is not a directory: /v");
    assert_eq!(msg(facts(true, true, false, true)), "refusing to delete path without pyvenv.cfg: /v");
    assert_eq!(msg(facts(true, true, true, false)), "refusing to delete path without activation script: /v");
    assert!(paths::ensure_safe_venv_delete("/v", &facts(true, true, true, true)).is_ok());
    assert!(paths::is_venv_root(&facts(true, true, true, true)));
    assert!(!paths::is_venv_root(&facts(true, true, true, false)));
}

#[test]
fn create_targets() {
    let args = |name: &str, here: bool, path: Option<&str>| vmn::cli::CreateArgs {
        name: name.to_string(),
        here,
        path: path.map(|p| p.to_string()),
        python: "python3".to_string(),
        no_activate_output: false,
    };
    assert!(matches!(vmn::cli::create_target(&args("a", true, Some("/x")), Some("/cwd"), "/m"), Err(VmnError::HereWithPath)));
    assert_eq!(vmn::cli::create_target(&args("a", true, None), Some("/cwd"), "/m").unwrap(), "/cwd/.venv");
    assert_eq!(vmn::cli::create_target(&args("a", false, Some("rel/v")), None, "/m").unwrap(), "rel/v");
    assert_eq!(vmn::cli::create_target(&args("api", false, None), None, "/m").unwrap(), "/m/api");
    assert!(matches!(vmn::cli::create_target(&args("", false, None), None, "/m"), Err(VmnError::EmptyName)));
    assert_eq!(paths::absolute_for_create("rel/v", None, "/cwd"), "/cwd/rel/v");
    assert_eq!(paths::absolute_for_create("/abs", None, "/cwd"), "/abs");
    assert_eq!(paths::absolute_for_create("x", Some("/real/x".to_string()), "/cwd"), "/real/x");
}

#[test]
fn created_records_know_their_source() {
    let probe = || vmn::model::Probe { python_version: None, pip_version: None };
    let managed = vmn::ops::created_record("a".to_string(), "/d/envs/a".to_string(), false, "/d/envs", probe(), "ID".to_string(), "t".to_string());
    assert_eq!(managed.source, EnvSource::Managed);
    assert_eq!(managed.project_dir, None);
    let here = vmn::ops::created_record("a".to_string(), "/w/p/.venv".to_string(), true, "/d/envs", probe(), "ID".to_string(), "t".to_string());
    assert_eq!(here.source, EnvSource::Manual);
    assert_eq!(here.project_dir.as_deref(), Some("/w/p"));
}

#[test]
fn list_and_refresh_arguments() {
    let list = |all, include_missing| ListArgs { fzf: false, json: false, include_missing, all };
    assert_eq!(vmn::cli::list_filter(&list(false, false)), StatusFilter::ActiveOnly);
    assert_eq!(vmn::cli::list_filter(&list(false, true)), StatusFilter::ActiveAndMissing);
    assert_eq!(vmn::cli::list_filter(&list(true, false)), StatusFilter::All);
    let both = RefreshArgs { selector: Some("a".to_string()), all: true };
    assert_eq!(vmn::cli::refresh_selection(&both).unwrap_err().message(), "pass either --all or a selector, not both");
    let neither = RefreshArgs { selector: None, all: false };
    assert_eq!(vmn::cli::refresh_selection(&neither).unwrap_err().message(), "refresh requires a selector or --all");
    let all = RefreshArgs { selector: None, all: true };
    assert_eq!(vmn::cli::refresh_selection(&all).unwrap(), None);
}

#[test]
fn confirmation_and_shell_choice() {
    assert!(vmn::cli::confirmation_accepted(" yes\n"));
    assert!(!vmn::cli::confirmation_accepted("y"));
    assert_eq!(vmn::cli::choose_shell(Some("/bin/zsh".to_string())), "/bin/zsh");
    assert_eq!(vmn::cli::choose_shell(Some("  ".to_string())), "/bin/sh");
    assert_eq!(vmn::cli::choose_shell(None), "/bin/sh");
    assert!(vmn::cli::subshell_outcome(Some(0), "/p", "/a", "/bin/sh").is_ok());
    assert_eq!(
        vmn::cli::subshell_outcome(Some(101), "/p", "/a", "/bin/sh").unwrap_err().message(),
        "failed to change to project directory /p"
    );
    assert_eq!(vmn::cli::subshell_outcome(Some(102), "/p", "/a", "/bin/sh").unwrap_err().message(), "failed to activate /a");
    assert_eq!(vmn::cli::subshell_outcome(Some(103), "/p", "/a", "/bin/sh").unwrap_err().message(), "failed to start interactive shell /bin/sh");
    assert!(vmn::cli::subshell_outcome(None, "/p", "/a", "/bin/sh").is_ok());
}

#[test]
fn python_executable_names() {
    for name in ["python", "python3", "python3.12", "python3.exe", "python3.12.exe"] {
        assert!(python::is_python_executable_name(name), "{name}");
    }
    for name in ["python-config", "pythonw", "python3-dbg", "ipython", "py", "python.exe.exe"] {
        assert!(!python::is_python_executable_name(name), "{name}");
    }
}

#[test]
fn python_versions() {
    assert_eq!(python::parse_python_version("Python 3.12.3\n").as_deref(), Some("3.12.3"));
    assert_eq!(python::parse_python_version("  Python 3.13.0rc1").as_deref(), Some("3.13.0"));
    assert_eq!(python::parse_python_version("Python x"), None);
    assert_eq!(python::parse_python_version("pip 24.2"), None);
    assert_eq!(python::major_minor_version("3.12.3").as_deref(), Some("3.12"));
    assert_eq!(python::major_minor_version("3").as_deref(), None);
    assert_eq!(python::major_minor_version("3.").as_deref(), Some("3."));
}

fn interp(path: &str, version: Option<&str>) -> PythonInterpreter {
    PythonInterpreter {
        path: path.to_string(),
        executable: path.rsplit('/').next().unwrap().to_string(),
        version: version.map(|v| v.to_string()),
        version_key: version.and_then(python::major_minor_version),
    }
}

#[test]
fn python_sort_keys_and_order() {
    assert_eq!(python::python_version_sort_key(&interp("/p", Some("3.12.3"))), (3, 12, 3));
    assert_eq!(python::python_version_sort_key(&interp("/p", Some("3.x"))), (3, 0, 0));
    assert_eq!(python::python_version_sort_key(&interp("/p", Some("+3.99999999999999999999"))), (3, 0, 0));
    assert_eq!(python::python_version_sort_key(&interp("/p", None)), (0, 0, 0));
    let sorted = python::sort_interpreters(vec![
        interp("/b/python3.11", Some("3.11.9")),
        interp("/a/python3.12", Some("3.12.1")),
        interp("/c/python3", Some("3.12.1")),
        interp("/d/python3.9", Some("3.9.18")),
    ]);
    let paths: Vec<&str> = sorted.iter().map(|i| i.path.as_str()).collect();
    assert_eq!(paths, vec!["/a/python3.12", "/c/python3", "/b/python3.11", "/d/python3.9"]);
}

#[test]
fn python_selector_resolution() {
    let list = vec![interp("/usr/bin/python3.12", Some("3.12.3")), interp("/usr/bin/python3.11", Some("3.11.9"))];
    assert_eq!(python::pick_interpreter("3.11", &list).unwrap(), "/usr/bin/python3.11");
    assert_eq!(python::pick_interpreter("python3.12", &list).unwrap(), "/usr/bin/python3.12");
    assert_eq!(python::pick_interpreter("3.12.3", &list).unwrap(), "/usr/bin/python3.12");
    assert_eq!(
        python::pick_interpreter("3.8", &list).unwrap_err().message(),
        "no Python interpreter matches '3.8'. Run 'vmn pythons' to see installed versions"
    );
    assert!(python::python_selector_matches("python3.11", &list[1]));
    assert!(matches!(python::python_selector_kind(" "), Err(VmnError::EmptyPythonSelector)));
    assert!(matches!(python::python_selector_kind("/usr/bin/python3"), Ok(PythonSelector::Path)));
    assert!(matches!(python::python_selector_kind("./python3"), Ok(PythonSelector::Path)));
    assert!(matches!(python::python_selector_kind("3.12"), Ok(PythonSelector::Name)));
}

#[test]
fn interpreters_from_version_output() {
    let i = python::interpreter_from_output("/usr/bin/python3.12", "Python 3.12.3").unwrap();
    assert_eq!(i.executable, "python3.12");
    assert_eq!(i.version.as_deref(), Some("3.12.3"));
    assert_eq!(i.version_key.as_deref(), Some("3.12"));
    assert!(python::interpreter_from_output("/usr/bin/python", "oops").is_none());
    let unique = python::dedup_paths(vec!["/a".to_string(), "/b".to_string(), "/a".to_string()]);
    assert_eq!(unique, vec!["/a", "/b"]);
    assert_eq!(python::version_text("  Python 3.12\n", "ignored"), "Python 3.12");
    assert_eq!(python::version_text("\n", " Python 2.7.18 "), "Python 2.7.18");
}

#[test]
fn command_output_texts() {
    assert_eq!(output::command_failure_message("failed", "err ", "out"), "failed: err out");
    assert_eq!(output::path_to_string(b"/tmp/a"), "/tmp/a");
    assert_eq!(output::path_to_string(b"/tmp/\xff"), "/tmp/\u{fffd}");
    assert_eq!(output::absolute_existing("/x", Some("/real/x".to_string())).unwrap(), "/real/x");
    assert_eq!(output::absolute_existing("/x", None).unwrap_err().message(), "failed to resolve /x");
}

#[test]
fn clock_values() {
    let a = vmn::clock::new_id();
    let b = vmn::clock::new_id();
    assert_eq!(a.len(), 26);
    assert_ne!(a, b);
    let now = vmn::clock::now().unwrap();
    assert!(now.contains('T'));
    assert!(now.ends_with("+00:00"));
}

#[test]
fn info_lines_show_fields_count_and_packages() {
    let e = env("01ABCDEFGH", "api", Some("Python 3.12.1"), None);
    let packages = vec![
        vmn::model::PackageRecord { name: "pip".to_string(), version: "24.0".to_string(), captured_at: "t".to_string() },
        vmn::model::PackageRecord { name: "requests".to_string(), version: "2.31.0".to_string(), captured_at: "t".to_string() },
    ];
    let lines = output::info_lines(&e, 120, &packages, true);
    assert_eq!(
        lines,
        vec![
            "Name: api",
            "ID: 01ABCDEFGH",
            "Status: active",
            "Path: /home/u/p/.venv",
            "Project: /home/u/p",
            "Python: Python 3.12.1",
            "Pip: -",
            "Packages: 120",
            "Source: scanned",
            "Last used: -",
            "  pip 24.0",
            "  requests 2.31.0",
        ]
    );
    let short = output::info_lines(&e, 0, &Vec::new(), false);
    assert_eq!(short.len(), 10);
    assert_eq!(short[7], "Packages: 0");
}

#[test]
fn prune_and_python_rows() {
    let mut e = env("01ABC", "api", None, None);
    e.status = EnvStatus::Missing;
    assert_eq!(output::prune_row(&e), "01ABC\tapi\tmissing\t/home/u/p/.venv");
    let i = PythonInterpreter {
        path: "/usr/bin/python3".to_string(),
        executable: "python3".to_string(),
        version: Some("Python 3.12.1".to_string()),
        version_key: Some("3.12".to_string()),
    };
    assert_eq!(output::python_row(&i), "3.12       Python 3.12.1  /usr/bin/python3");
    let unknown = PythonInterpreter { path: "/x/python".to_string(), executable: "python".to_string(), version: None, version_key: None };
    assert_eq!(output::python_row(&unknown), "-          -              /x/python");
}
