use vmn::errors::VmnError;
use vmn::model::{EnvSource, EnvStatus, Environment, NewEnvironment, PipPackage, Probe, StatusFilter};
use vmn::ops::{CreatePlan, Observation, RefreshState, create_plan, doctor_verdict};
use vmn::paths::PathFacts;
use vmn::registry::Registry;

fn record(id: &str, name: &str, path: &str, source: EnvSource, project_dir: Option<&str>) -> NewEnvironment {
    let now = "2026-05-21T10:00:00+00:00".to_string();
    NewEnvironment {
        id: id.to_string(),
        name: name.to_string(),
        path: path.to_string(),
        project_dir: project_dir.map(|p| p.to_string()),
        source,
        status: EnvStatus::Active,
        python_version: None,
        pip_version: None,
        created_at: now.clone(),
        updated_at: now,
        last_used_at: None,
        last_scanned_at: None,
    }
}

fn no_probe() -> Probe {
    Probe { python_version: None, pip_version: None }
}

fn venv_facts() -> PathFacts {
    PathFacts { exists: true, is_dir: true, pyvenv_cfg_is_file: true, activation_script_is_file: true }
}

#[test]
fn registry_resolves_unique_name_and_rejects_ambiguity() {
    let mut registry = Registry::new();
    for (id, path) in [("01ABC", "/tmp/a"), ("01DEF", "/tmp/b")] {
        registry.upsert_environment(record(id, "api", path, EnvSource::Manual, None)).unwrap();
    }

    assert!(registry.resolve_selector("01A", false).is_ok());
    let error = registry.resolve_selector("api", false).unwrap_err();
    assert!(error.message().contains("ambiguous"));
}

#[test]
fn scan_registers_pyvenv_cfg_environment() {
    let mut registry = Registry::new();
    registry.register_scanned("/tmp/scan-test/project/.venv".to_string(), no_probe()).unwrap();

    let envs = registry.list(StatusFilter::All);
    assert_eq!(envs.len(), 1);
    assert_eq!(envs[0].name, "project");
    assert_eq!(envs[0].source.as_str(), "scanned");
}

#[test]
fn scan_preserves_existing_registered_name() {
    let mut registry = Registry::new();
    let project = "/tmp/data/project-a";
    let venv = "/tmp/data/project-a/.venv";
    registry.upsert_environment(record("01ABC", "alpha", venv, EnvSource::Manual, Some(project))).unwrap();

    registry.register_scanned(venv.to_string(), no_probe()).unwrap();

    let env = registry.resolve_selector("alpha", false).unwrap();
    assert_eq!(env.name, "alpha");
    assert_eq!(env.source.as_str(), "manual");
}

#[test]
fn scan_preserves_existing_empty_project_dir() {
    let mut registry = Registry::new();
    let venv = "/tmp/data/envs/managed";
    registry.upsert_environment(record("01ABC", "managed", venv, EnvSource::Managed, None)).unwrap();

    registry.register_scanned(venv.to_string(), no_probe()).unwrap();

    let env = registry.resolve_selector("managed", false).unwrap();
    assert_eq!(env.project_dir, None);
    assert_eq!(env.source.as_str(), "managed");
}

#[test]
fn delete_safeguard_requires_pyvenv_cfg() {
    let facts = PathFacts { exists: true, is_dir: true, pyvenv_cfg_is_file: false, activation_script_is_file: false };
    assert!(vmn::paths::ensure_safe_venv_delete("/tmp/not-a-venv", &facts).is_err());
}

#[test]
fn scan_lists_and_activates_fake_project_env() {
    let mut registry = Registry::new();
    let project = "/tmp/state/project";
    registry.register_scanned("/tmp/state/project/.venv".to_string(), no_probe()).unwrap();

    let rows: Vec<String> = registry.list(StatusFilter::ActiveOnly).iter().map(vmn::output::fzf_row).collect();
    assert_eq!(rows.len(), 1);
    assert!(rows[0].contains("project"));
    assert!(rows[0].contains("active"));

    let (env, script) = registry.activation_target("project", true, true).unwrap();
    assert!(script.ends_with(".venv/bin/activate"));
    assert_eq!(env.project_dir.as_deref(), Some(project));
    let used = registry.resolve_selector("project", false).unwrap();
    assert!(used.last_used_at.is_some());
}

#[test]
fn create_info_refresh_and_remove_managed_env() {
    let mut registry = Registry::new();
    let paths = vmn::paths::AppPaths::from_dirs("/tmp/cfg".to_string(), "/tmp/data".to_string());
    let args = vmn::cli::CreateArgs {
        name: "demo".to_string(),
        here: false,
        path: None,
        python: "python3".to_string(),
        no_activate_output: false,
    };
    let target = vmn::cli::create_target(&args, None, &paths.managed_envs_dir).unwrap();
    assert_eq!(target, "/tmp/data/envs/demo");
    let probe = Probe { python_version: Some("Python 3.12.3".to_string()), pip_version: Some("pip 24.2".to_string()) };
    let env = registry.register_created("demo".to_string(), target, false, &paths.managed_envs_dir, probe).unwrap();
    assert_eq!(env.source, EnvSource::Managed);
    assert_eq!(env.id.len(), 26);
    let activate = vmn::paths::activation_script(&env.path);
    assert!(activate.ends_with("/bin/activate"));

    let info = registry.resolve_selector("demo", true).unwrap();
    assert_eq!(info.name, "demo");
    assert!(info.python_version.as_deref().unwrap().starts_with("Python"));
    let lines = vmn::output::info_lines(&info, registry.package_count(&info.id), &Vec::new(), false);
    assert!(lines.iter().any(|l| l.contains("Name: demo")));
    assert!(lines.iter().any(|l| l.contains("Python: Python")));

    let pkgs = vec![PipPackage { name: "pip".to_string(), version: "24.2".to_string() }];
    let probe = Probe { python_version: Some("Python 3.12.3".to_string()), pip_version: None };
    let state = registry.refresh_one(&info.id, Observation::Present { probe, packages: Some(pkgs) }).unwrap();
    assert_eq!(state, RefreshState::Refreshed);
    assert_eq!(registry.package_count(&info.id), 1);

    let removed = registry.check_removal("demo", true, &venv_facts()).unwrap();
    registry.mark_status(&removed.id, EnvStatus::Deleted).unwrap();
    assert!(registry.resolve_selector("demo", false).is_err());
    assert_eq!(registry.resolve_selector("demo", true).unwrap().status, EnvStatus::Deleted);
}

#[test]
fn upsert_merges_by_path_and_keeps_identity() {
    let mut registry = Registry::new();
    let first = registry.upsert_environment(record("01AAA", "one", "/v/a", EnvSource::Scanned, None)).unwrap();
    let mut again = record("01BBB", "renamed", "/v/a", EnvSource::Manual, Some("/v"));
    again.last_used_at = None;
    let merged = registry.upsert_environment(again).unwrap();
    assert_eq!(merged.id, first.id);
    assert_eq!(merged.name, "renamed");
    assert_eq!(merged.created_at, first.created_at);
    assert_eq!(registry.list(StatusFilter::All).len(), 1);
    let found = registry.find_by_path("/v/a").unwrap();
    assert_eq!(found.name, "renamed");
    assert_eq!(found.source, EnvSource::Manual);
}

#[test]
fn upsert_keeps_last_use_when_new_record_has_none() {
    let mut registry = Registry::new();
    registry.upsert_environment(record("01AAA", "one", "/v/a", EnvSource::Scanned, None)).unwrap();
    registry.update_last_used_at("01AAA", &"2026-01-01T00:00:00+00:00".to_string());
    let merged = registry.upsert_environment(record("01AAA", "one", "/v/a", EnvSource::Scanned, None)).unwrap();
    assert_eq!(merged.last_used_at.as_deref(), Some("2026-01-01T00:00:00+00:00"));
}

#[test]
fn upsert_refuses_taken_id_on_new_path() {
    let mut registry = Registry::new();
    registry.upsert_environment(record("01AAA", "one", "/v/a", EnvSource::Scanned, None)).unwrap();
    let err = registry.upsert_environment(record("01AAA", "two", "/v/b", EnvSource::Scanned, None)).unwrap_err();
    assert!(matches!(err, VmnError::DuplicateId { .. }));
    assert_eq!(registry.list(StatusFilter::All).len(), 1);
}

#[test]
fn upsert_twice_equals_once() {
    let mut a = Registry::new();
    a.upsert_environment(record("01AAA", "one", "/v/a", EnvSource::Scanned, None)).unwrap();
    let once = a.find_by_path("/v/a").unwrap();
    a.upsert_environment(record("01AAA", "one", "/v/a", EnvSource::Scanned, None)).unwrap();
    let twice = a.find_by_path("/v/a").unwrap();
    assert_eq!(once.id, twice.id);
    assert_eq!(once.name, twice.name);
    assert_eq!(a.list(StatusFilter::All).len(), 1);
}

#[test]
fn selector_errors_name_the_selector() {
    let registry = Registry::new();
    let err = registry.resolve_selector("nothing", false).unwrap_err();
    assert_eq!(err.message(), "no environment matches selector 'nothing'");
}

#[test]
fn ambiguous_selector_lists_matches_by_id() {
    let mut registry = Registry::new();
    registry.upsert_environment(record("01DEF", "api", "/tmp/b", EnvSource::Manual, None)).unwrap();
    registry.upsert_environment(record("01ABC", "api", "/tmp/a", EnvSource::Manual, None)).unwrap();
    let err = registry.resolve_selector("api", false).unwrap_err();
    assert_eq!(
        err.message(),
        "selector 'api' is ambiguous:\n  01ABC  api  /tmp/a\n  01DEF  api  /tmp/b"
    );
}

#[test]
fn deleted_records_are_selected_only_on_request() {
    let mut registry = Registry::new();
    registry.upsert_environment(record("01ABC", "api", "/tmp/a", EnvSource::Manual, None)).unwrap();
    registry.mark_status("01ABC", EnvStatus::Deleted).unwrap();
    assert!(registry.resolve_selector("api", false).is_err());
    assert!(registry.resolve_selector("api", true).is_ok());
    assert_eq!(registry.list(StatusFilter::ActiveOnly).len(), 0);
    assert_eq!(registry.list(StatusFilter::All).len(), 1);
}

#[test]
fn list_orders_by_last_use_then_name_then_path() {
    let mut registry = Registry::new();
    registry.upsert_environment(record("01A", "beta", "/p/2", EnvSource::Manual, None)).unwrap();
    registry.upsert_environment(record("01B", "Alpha", "/p/3", EnvSource::Manual, None)).unwrap();
    registry.upsert_environment(record("01C", "alpha", "/p/1", EnvSource::Manual, None)).unwrap();
    registry.upsert_environment(record("01D", "zeta", "/p/4", EnvSource::Manual, None)).unwrap();
    registry.upsert_environment(record("01E", "yak", "/p/5", EnvSource::Manual, None)).unwrap();
    registry.update_last_used_at("01D", &"2026-01-01".to_string());
    registry.update_last_used_at("01E", &"2026-02-01".to_string());
    let ids: Vec<String> = registry.list(StatusFilter::All).into_iter().map(|e| e.id).collect();
    assert_eq!(ids, vec!["01E", "01D", "01C", "01B", "01A"]);
}

#[test]
fn list_filters_by_status() {
    let mut registry = Registry::new();
    registry.upsert_environment(record("01A", "a", "/p/a", EnvSource::Manual, None)).unwrap();
    registry.upsert_environment(record("01B", "b", "/p/b", EnvSource::Manual, None)).unwrap();
    registry.upsert_environment(record("01C", "c", "/p/c", EnvSource::Manual, None)).unwrap();
    registry.mark_status("01B", EnvStatus::Missing).unwrap();
    registry.mark_status("01C", EnvStatus::Deleted).unwrap();
    assert_eq!(registry.list(StatusFilter::ActiveOnly).len(), 1);
    assert_eq!(registry.list(StatusFilter::ActiveAndMissing).len(), 2);
    assert_eq!(registry.list(StatusFilter::All).len(), 3);
    let missing = registry.list_by_statuses(&vec![EnvStatus::Missing]);
    assert_eq!(missing.len(), 1);
    assert_eq!(missing[0].id, "01B");
}

#[test]
fn prune_removes_missing_and_deleted_with_their_packages() {
    let mut registry = Registry::new();
    registry.upsert_environment(record("01A", "a", "/p/a", EnvSource::Manual, None)).unwrap();
    registry.upsert_environment(record("01B", "b", "/p/b", EnvSource::Manual, None)).unwrap();
    registry.upsert_environment(record("01C", "c", "/p/c", EnvSource::Manual, None)).unwrap();
    let pkgs = vec![PipPackage { name: "six".to_string(), version: "1.0".to_string() }];
    registry.replace_packages(&"01B".to_string(), &pkgs).unwrap();
    registry.mark_status("01B", EnvStatus::Missing).unwrap();
    registry.mark_status("01C", EnvStatus::Deleted).unwrap();
    let statuses = vmn::cli::prune_statuses(false, false);
    let records = registry.list_by_statuses(&statuses);
    let ids = vmn::ops::record_ids(&records);
    registry.delete_environments(&ids);
    let left: Vec<String> = registry.list(StatusFilter::All).into_iter().map(|e| e.id).collect();
    assert_eq!(left, vec!["01A"]);
    assert_eq!(registry.package_count("01B"), 0);
    assert!(registry.packages.is_empty());
}

#[test]
fn prune_statuses_defaults_to_both() {
    assert_eq!(vmn::cli::prune_statuses(false, false), vec![EnvStatus::Missing, EnvStatus::Deleted]);
    assert_eq!(vmn::cli::prune_statuses(true, false), vec![EnvStatus::Missing]);
    assert_eq!(vmn::cli::prune_statuses(false, true), vec![EnvStatus::Deleted]);
    assert_eq!(vmn::cli::prune_statuses(true, true), vec![EnvStatus::Missing, EnvStatus::Deleted]);
}

#[test]
fn packages_read_back_sorted_by_folded_name() {
    let mut registry = Registry::new();
    registry.upsert_environment(record("01A", "a", "/p/a", EnvSource::Manual, None)).unwrap();
    let pkgs = vec![
        PipPackage { name: "zope".to_string(), version: "1".to_string() },
        PipPackage { name: "Babel".to_string(), version: "2".to_string() },
        PipPackage { name: "attrs".to_string(), version: "3".to_string() },
    ];
    registry.replace_packages_at(&"01A".to_string(), &pkgs, &"t1".to_string()).unwrap();
    let names: Vec<String> = registry.packages("01A").into_iter().map(|p| p.name).collect();
    assert_eq!(names, vec!["attrs", "Babel", "zope"]);
    assert_eq!(registry.package_count("01A"), 3);
    let again = vec![PipPackage { name: "pip".to_string(), version: "24".to_string() }];
    registry.replace_packages_at(&"01A".to_string(), &again, &"t2".to_string()).unwrap();
    let records = registry.packages("01A");
    assert_eq!(records.len(), 1);
    assert_eq!(records[0].captured_at, "t2");
}

#[test]
fn package_snapshot_errors() {
    let mut registry = Registry::new();
    registry.upsert_environment(record("01A", "a", "/p/a", EnvSource::Manual, None)).unwrap();
    let dup = vec![
        PipPackage { name: "x".to_string(), version: "1".to_string() },
        PipPackage { name: "x".to_string(), version: "2".to_string() },
    ];
    assert!(matches!(registry.replace_packages(&"01A".to_string(), &dup), Err(VmnError::DuplicatePackage)));
    let one = vec![PipPackage { name: "x".to_string(), version: "1".to_string() }];
    assert!(matches!(
        registry.replace_packages(&"nope".to_string(), &one),
        Err(VmnError::UnknownEnvironment { .. })
    ));
    assert!(registry.replace_packages(&"nope".to_string(), &vec![]).is_ok());
}

#[test]
fn duplicate_names_count_live_records() {
    let mut registry = Registry::new();
    registry.upsert_environment(record("01A", "api", "/p/a", EnvSource::Manual, None)).unwrap();
    registry.upsert_environment(record("01B", "api", "/p/b", EnvSource::Manual, None)).unwrap();
    registry.upsert_environment(record("01C", "web", "/p/c", EnvSource::Manual, None)).unwrap();
    registry.upsert_environment(record("01D", "web", "/p/d", EnvSource::Manual, None)).unwrap();
    registry.upsert_environment(record("01E", "Db", "/p/e", EnvSource::Manual, None)).unwrap();
    registry.upsert_environment(record("01F", "Db", "/p/f", EnvSource::Manual, None)).unwrap();
    registry.upsert_environment(record("01G", "Db", "/p/g", EnvSource::Manual, None)).unwrap();
    registry.mark_status("01D", EnvStatus::Deleted).unwrap();
    let dups = registry.duplicate_names();
    assert_eq!(dups, vec![("api".to_string(), 2), ("Db".to_string(), 3)]);
}

#[test]
fn activation_of_missing_path_marks_missing() {
    let mut registry = Registry::new();
    registry.upsert_environment(record("01A", "a", "/p/a", EnvSource::Manual, None)).unwrap();
    let err = registry.activation_target("a", false, true).unwrap_err();
    assert_eq!(err.message(), "environment path is missing: /p/a");
    assert_eq!(registry.resolve_selector("a", false).unwrap().status, EnvStatus::Missing);
    let err = registry.activation_target("a", true, true).unwrap_err();
    assert_eq!(err.message(), "environment 'a' is missing");
}

#[test]
fn activation_of_missing_script_marks_missing() {
    let mut registry = Registry::new();
    registry.upsert_environment(record("01A", "a", "/p/a", EnvSource::Manual, None)).unwrap();
    let err = registry.activation_target("a", true, false).unwrap_err();
    assert_eq!(err.message(), "activation script is missing: /p/a/bin/activate");
    assert_eq!(registry.list(StatusFilter::All)[0].status, EnvStatus::Missing);
}

#[test]
fn refresh_of_gone_env_marks_missing() {
    let mut registry = Registry::new();
    registry.upsert_environment(record("01A", "a", "/p/a", EnvSource::Manual, None)).unwrap();
    let state = registry.refresh_one(&"01A".to_string(), Observation::Gone).unwrap();
    assert_eq!(state, RefreshState::Missing);
    assert_eq!(registry.list(StatusFilter::All)[0].status, EnvStatus::Missing);
    let probe = Probe { python_version: Some("Python 3.11.2".to_string()), pip_version: None };
    let state = registry.refresh_one(&"01A".to_string(), Observation::Present { probe, packages: None }).unwrap();
    assert_eq!(state, RefreshState::Refreshed);
    let env = registry.list(StatusFilter::All).remove(0);
    assert_eq!(env.status, EnvStatus::Active);
    assert_eq!(env.python_version.as_deref(), Some("Python 3.11.2"));
}

#[test]
fn removal_checks() {
    let mut registry = Registry::new();
    registry.upsert_environment(record("01A", "a", "/p/a", EnvSource::Manual, None)).unwrap();
    let gone = PathFacts { exists: false, is_dir: false, pyvenv_cfg_is_file: false, activation_script_is_file: false };
    let err = registry.check_removal("a", true, &gone).unwrap_err();
    assert_eq!(err.message(), "environment path is missing: /p/a");
    assert_eq!(registry.resolve_selector("a", true).unwrap().status, EnvStatus::Missing);
    let not_venv = PathFacts { exists: true, is_dir: true, pyvenv_cfg_is_file: true, activation_script_is_file: false };
    let err = registry.check_removal("a", true, &not_venv).unwrap_err();
    assert_eq!(err.message(), "refusing to delete path without activation script: /p/a");
    assert!(registry.check_removal("a", false, &gone).is_ok());
}

#[test]
fn load_rejects_broken_registries() {
    let row = |id: &str, path: &str| Environment::from_columns(
        id.to_string(), "n".to_string(), path.to_string(), None, "manual", "active",
        None, None, "t".to_string(), "t".to_string(), None, None,
    ).unwrap();
    assert!(Registry::load(vec![row("1", "/a"), row("2", "/b")], vec![]).is_some());
    assert!(Registry::load(vec![row("1", "/a"), row("1", "/b")], vec![]).is_none());
    assert!(Registry::load(vec![row("1", "/a"), row("2", "/a")], vec![]).is_none());
    assert!(Environment::from_columns(
        "1".to_string(), "n".to_string(), "/a".to_string(), None, "manual", "gone",
        None, None, "t".to_string(), "t".to_string(), None, None,
    ).is_none());
}

#[test]
fn stored_text_round_trips() {
    for s in [EnvSource::Managed, EnvSource::Scanned, EnvSource::Manual] {
        assert_eq!(EnvSource::from_str(s.as_str()), Some(s));
    }
    for s in [EnvStatus::Active, EnvStatus::Missing, EnvStatus::Deleted] {
        assert_eq!(EnvStatus::from_str(s.as_str()), Some(s));
    }
    assert_eq!(EnvSource::from_str("other"), None);
}

#[test]
fn doctor_marks_gone_roots_missing_and_reports_scripts() {
    let mut registry = Registry::new();
    registry.upsert_environment(record("01A", "gone", "/tmp/doc/a", EnvSource::Manual, None)).unwrap();
    registry.upsert_environment(record("01B", "noscript", "/tmp/doc/b", EnvSource::Manual, None)).unwrap();
    registry.upsert_environment(record("01C", "fine", "/tmp/doc/c", EnvSource::Manual, None)).unwrap();
    let check = |id: &str, name: &str, root: bool, script: bool| vmn::ops::PathCheck {
        id: id.to_string(),
        name: name.to_string(),
        root_exists: root,
        script_exists: script,
    };
    let checks = vec![check("01A", "gone", false, false), check("01B", "noscript", true, false), check("01C", "fine", true, true)];
    let lines = registry.doctor_paths(&checks).unwrap();
    assert_eq!(
        lines,
        vec![
            Some("check active path gone: missing".to_string()),
            Some("check activation script noscript: missing".to_string()),
            None,
        ]
    );
    let active: Vec<String> = registry.list(StatusFilter::ActiveOnly).into_iter().map(|e| e.name).collect();
    assert_eq!(active.len(), 2);
    assert!(active.contains(&"noscript".to_string()));
    assert!(active.contains(&"fine".to_string()));
    let missing = registry.resolve_selector("gone", true).unwrap();
    assert_eq!(missing.status, EnvStatus::Missing);
}

#[test]
fn last_use_and_probe_are_recorded() {
    let mut registry = Registry::new();
    registry.upsert_environment(record("01A", "api", "/tmp/u/a", EnvSource::Manual, None)).unwrap();
    registry.upsert_environment(record("01B", "web", "/tmp/u/b", EnvSource::Manual, None)).unwrap();
    registry.mark_status("01A", EnvStatus::Missing).unwrap();

    registry.update_last_used("01A").unwrap();
    let probe = Probe { python_version: Some("Python 3.12.1".to_string()), pip_version: Some("pip 24.0".to_string()) };
    registry.update_probe("01A", &probe).unwrap();

    let a = registry.resolve_selector("01A", true).unwrap();
    assert!(a.last_used_at.is_some());
    assert_eq!(a.status, EnvStatus::Active);
    assert_eq!(a.python_version.as_deref(), Some("Python 3.12.1"));
    assert_eq!(a.pip_version.as_deref(), Some("pip 24.0"));
    let b = registry.resolve_selector("01B", true).unwrap();
    assert_eq!(b.last_used_at, None);
    assert_eq!(b.python_version, None);
}

#[test]
fn create_plan_reuses_makes_or_refuses() {
    let venv = venv_facts();
    assert_eq!(create_plan("/tmp/data/envs/demo", &venv).unwrap(), CreatePlan::Reuse);
    let plain = PathFacts { exists: true, is_dir: true, pyvenv_cfg_is_file: false, activation_script_is_file: false };
    let err = create_plan("/tmp/project", &plain).unwrap_err();
    assert_eq!(err.message(), "target path exists but is not a Python venv: /tmp/project");
    let absent = PathFacts { exists: false, is_dir: false, pyvenv_cfg_is_file: false, activation_script_is_file: false };
    assert_eq!(
        create_plan("/tmp/data/envs/demo", &absent).unwrap(),
        CreatePlan::Make { parent: "/tmp/data/envs".to_string() }
    );
    let err = create_plan("/", &absent).unwrap_err();
    assert_eq!(err.message(), "target path has no parent: /");
}

#[test]
fn doctor_verdict_counts_every_problem() {
    assert!(doctor_verdict(0, &vec![None, None], 0).is_ok());
    let lines = vec![Some("check active path a: missing".to_string()), None, Some("x".to_string())];
    let err = doctor_verdict(1, &lines, 2).unwrap_err();
    assert!(matches!(err, VmnError::DoctorIssues { count: 4 }));
    assert_eq!(err.message(), "doctor found 4 issue(s)");
    assert_eq!(doctor_verdict(0, &Vec::new(), 1).unwrap_err().message(), "doctor found 1 issue(s)");
}

#[test]
fn duplicate_report_lines() {
    assert_eq!(vmn::output::duplicate_report(&Vec::new()), vec!["check duplicate names: ok".to_string()]);
    let dups = vec![("api".to_string(), 2usize), ("web".to_string(), 13usize)];
    assert_eq!(
        vmn::output::duplicate_report(&dups),
        vec![
            "check duplicate names: found".to_string(),
            "  api: 2".to_string(),
            "  web: 13".to_string(),
        ]
    );
}

#[test]
fn constraint_errors_read_as_sqlite_reports_them() {
    assert_eq!(VmnError::DuplicateId { id: "01A".to_string() }.message(), "UNIQUE constraint failed: environments.id");
    assert_eq!(VmnError::UnknownEnvironment { id: "01A".to_string() }.message(), "FOREIGN KEY constraint failed");
    assert_eq!(VmnError::ClockUnavailable.message(), "system time before Unix epoch");
}

#[test]
fn activation_refusals_report_their_paths() {
    let mut registry = Registry::new();
    registry.upsert_environment(record("01A", "api", "/tmp/act/a", EnvSource::Manual, None)).unwrap();
    let err = registry.activation_target("api", false, false).unwrap_err();
    assert_eq!(err.message(), "environment path is missing: /tmp/act/a");
    assert_eq!(registry.resolve_selector("api", true).unwrap().status, EnvStatus::Missing);
    let err = registry.activation_target("api", true, true).unwrap_err();
    assert_eq!(err.message(), "environment 'api' is missing");
    let err = registry.check_removal("nothing", false, &venv_facts()).unwrap_err();
    assert!(matches!(err, VmnError::NoMatch { .. }));
    let no_cfg = PathFacts { exists: true, is_dir: true, pyvenv_cfg_is_file: false, activation_script_is_file: true };
    let err = registry.check_removal("api", true, &no_cfg).unwrap_err();
    assert_eq!(err.message(), "refusing to delete path without pyvenv.cfg: /tmp/act/a");
}
