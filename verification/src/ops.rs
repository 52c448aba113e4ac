//! The registry side of the commands: activating, creating, scanning,
//! refreshing and removing environments. What the file system says is handed
//! in as plain facts; the time and fresh ids come from `clock`.
use vstd::prelude::*;
use crate::errors::VmnError;
use crate::model::{EnvSource, EnvStatus, Environment, NewEnvironment, PipPackage, Probe, StoredPackage};
use crate::paths::{
    PathFacts, activation_script, activation_script_of, delete_refusal, ensure_safe_venv_delete, parent, parent_of,
    path_starts_with, path_starts_with_exec, scanned_name, scanned_name_of,
};
use crate::python::opt_view;
use crate::clock::is_timestamp;
use crate::registry::{Registry, resolve_failure, with_status, has_id, has_path, marked, matches_of, path_index, probed, replaced, upsert_refused, upsert_row, upserted, used};

verus! {

/// The record `create` registers for a new environment at `target`.
pub open spec fn is_created_record(
    n: NewEnvironment,
    name: String,
    target: String,
    here: bool,
    managed_dir: Seq<char>,
    probe: Probe,
    id: String,
    now: String,
) -> bool {
    &&& n.id == id
    &&& n.name == name
    &&& n.path == target
    &&& opt_view(n.project_dir) == (if here {
        parent_of(target@)
    } else {
        None
    })
    &&& n.source == (if path_starts_with(target@, managed_dir) {
        EnvSource::Managed
    } else {
        EnvSource::Manual
    })
    &&& n.status == EnvStatus::Active
    &&& n.python_version == probe.python_version
    &&& n.pip_version == probe.pip_version
    &&& n.created_at == now
    &&& n.updated_at == now
    &&& n.last_used_at is None
    &&& n.last_scanned_at is None
}

/// Builds the record for a newly created environment: a project directory
/// only for `--here`, and `managed` where the target lies under the managed
/// environments' directory.
pub fn created_record(
    name: String,
    target: String,
    here: bool,
    managed_dir: &str,
    probe: Probe,
    id: String,
    now: String,
) -> (res: NewEnvironment)
    ensures
        is_created_record(res, name, target, here, managed_dir@, probe, id, now),
{
    let project_dir = if here {
        parent(target.as_str())
    } else {
        None
    };
    let source = if path_starts_with_exec(target.as_str(), managed_dir) {
        EnvSource::Managed
    } else {
        EnvSource::Manual
    };
    NewEnvironment {
        id,
        name,
        path: target,
        project_dir,
        source,
        status: EnvStatus::Active,
        python_version: probe.python_version,
        pip_version: probe.pip_version,
        created_at: now.clone(),
        updated_at: now,
        last_used_at: None,
        last_scanned_at: None,
    }
}

/// The record a scan registers for the venv at `path`: a record already
/// there keeps its id, name, project directory, source, creation time and
/// last use; a new one is named after its directory and has the venv's
/// parent as its project.
pub open spec fn is_scanned_record(
    n: NewEnvironment,
    existing: Option<Environment>,
    path: String,
    probe: Probe,
    fresh_id: String,
    now: String,
) -> bool {
    &&& n.path == path
    &&& n.status == EnvStatus::Active
    &&& n.python_version == probe.python_version
    &&& n.pip_version == probe.pip_version
    &&& n.updated_at == now
    &&& n.last_scanned_at == Some(now)
    &&& match existing {
        Some(e) => {
            &&& n.id == e.id
            &&& n.name == e.name
            &&& n.project_dir == e.project_dir
            &&& n.source == e.source
            &&& n.created_at == e.created_at
            &&& n.last_used_at == e.last_used_at
        },
        None => {
            &&& n.id == fresh_id
            &&& n.name@ == scanned_name_of(path@)
            &&& opt_view(n.project_dir) == parent_of(path@)
            &&& n.source == EnvSource::Scanned
            &&& n.created_at == now
            &&& n.last_used_at is None
        },
    }
}

pub fn scanned_record(
    existing: Option<Environment>,
    path: String,
    probe: Probe,
    fresh_id: String,
    now: String,
) -> (res: NewEnvironment)
    ensures
        is_scanned_record(res, existing, path, probe, fresh_id, now),
{
    match existing {
        Some(e) => NewEnvironment {
            id: e.id,
            name: e.name,
            path,
            project_dir: e.project_dir,
            source: e.source,
            status: EnvStatus::Active,
            python_version: probe.python_version,
            pip_version: probe.pip_version,
            created_at: e.created_at,
            updated_at: now.clone(),
            last_used_at: e.last_used_at,
            last_scanned_at: Some(now),
        },
        None => {
            let name = scanned_name(path.as_str());
            let project_dir = parent(path.as_str());
            NewEnvironment {
                id: fresh_id,
                name,
                path,
                project_dir,
                source: EnvSource::Scanned,
                status: EnvStatus::Active,
                python_version: probe.python_version,
                pip_version: probe.pip_version,
                created_at: now.clone(),
                updated_at: now.clone(),
                last_used_at: None,
                last_scanned_at: Some(now),
            }
        },
    }
}

/// The record with path `path`, if there is one.
pub open spec fn existing_at(s: Seq<Environment>, path: Seq<char>) -> Option<Environment> {
    if has_path(s, path) {
        Some(s[path_index(s, path)])
    } else {
        None
    }
}

/// What a refresh found at an environment's path.
#[derive(Debug)]
pub enum Observation {
    /// The path is gone or is no longer a venv.
    Gone,
    /// The venv is there; `packages` is its pip listing where that could be
    /// read.
    Present { probe: Probe, packages: Option<Vec<PipPackage>> },
}

#[derive(Clone, Copy, Debug, PartialEq, Eq, Structural)]
pub enum RefreshState {
    Refreshed,
    Missing,
}

/// What refreshing the record with id `id` from `observation` at `now`
/// does: the records and packages before and after, and the result.
pub open spec fn refresh_outcome(
    envs: Seq<Environment>,
    packages: Seq<StoredPackage>,
    envs_after: Seq<Environment>,
    packages_after: Seq<StoredPackage>,
    id: String,
    observation: Observation,
    now: String,
    res: Result<RefreshState, VmnError>,
) -> bool {
    match observation {
        Observation::Gone => envs_after == marked(envs, id@, EnvStatus::Missing, now)
            && packages_after == packages && res == Ok::<RefreshState, VmnError>(
            RefreshState::Missing,
        ),
        Observation::Present { probe, packages: observed } => {
            &&& envs_after == probed(envs, id@, probe, now)
            &&& match observed {
                None => res == Ok::<RefreshState, VmnError>(RefreshState::Refreshed)
                    && packages_after == packages,
                Some(v) => {
                    let refused = snapshot_refused(envs, id@, v@);
                    &&& refused ==> packages_after == packages
                    &&& v@.len() > 0 && !has_id(envs, id@) ==> res == Err::<RefreshState, VmnError>(
                        VmnError::UnknownEnvironment { id },
                    )
                    &&& has_id(envs, id@) && crate::registry::has_duplicate_name(v@) ==> res
                        == Err::<RefreshState, VmnError>(VmnError::DuplicatePackage)
                    &&& !refused ==> packages_after == replaced(packages, id, v@, now) && res
                        == Ok::<RefreshState, VmnError>(RefreshState::Refreshed)
                },
            }
        },
    }
}

/// A package snapshot that the registry refuses for environment `id`: one
/// with packages for an unknown environment, or naming a package twice.
pub open spec fn snapshot_refused(envs: Seq<Environment>, id: Seq<char>, v: Seq<PipPackage>) -> bool {
    (v.len() > 0 && !has_id(envs, id)) || crate::registry::has_duplicate_name(v)
}

/// What activating the environment `selector` names does, where the file
/// system says its root and activation script are there or not: the
/// registry's records before and after, and the result.
pub open spec fn activation_outcome(
    before: Seq<Environment>,
    after: Seq<Environment>,
    selector: Seq<char>,
    root_exists: bool,
    script_exists: bool,
    now: String,
    res: Result<(Environment, String), VmnError>,
) -> bool {
    let m = matches_of(before, selector, false);
    &&& m.len() != 1 ==> after == before && (res matches Err(e) && resolve_failure(m, selector, e))
    &&& m.len() == 1 && m[0].status != EnvStatus::Active ==> after == before && res == Err::<
        (Environment, String),
        VmnError,
    >(VmnError::NotActive { name: m[0].name, status: m[0].status })
    &&& m.len() == 1 && m[0].status == EnvStatus::Active && !root_exists ==> after == marked(
        before,
        m[0].id@,
        EnvStatus::Missing,
        now,
    ) && (res matches Err(VmnError::PathMissing { path }) && path@ == m[0].path@)
    &&& m.len() == 1 && m[0].status == EnvStatus::Active && root_exists && !script_exists ==> after
        == marked(before, m[0].id@, EnvStatus::Missing, now) && (res matches Err(
        VmnError::ActivationScriptMissing { path },
    ) && path@ == activation_script_of(m[0].path@))
    &&& m.len() == 1 && m[0].status == EnvStatus::Active && root_exists && script_exists ==> after
        == used(before, m[0].id@, now) && (res matches Ok((e, script)) && e == m[0] && script@
        == activation_script_of(m[0].path@))
}

impl Registry {
    /// Activates the environment `selector` names, where the file system says
    /// its root (`root_exists`) and activation script (`script_exists`) are
    /// there: it must be active; a missing root or script marks it missing;
    /// otherwise its use is recorded at `now`. Returns the record as it was
    /// and the activation script.
    pub fn activation_target_at(
        &mut self,
        selector: &str,
        root_exists: bool,
        script_exists: bool,
        now: &String,
    ) -> (res: Result<(Environment, String), VmnError>)
        requires
            old(self).wf(),
        ensures
            final(self).wf(),
            final(self).packages@ == old(self).packages@,
            activation_outcome(
                old(self).envs@,
                final(self).envs@,
                selector@,
                root_exists,
                script_exists,
                *now,
                res,
            ),
    {
        let env = match self.resolve_selector(selector, false) {
            Ok(env) => env,
            Err(e) => {
                return Err(e);
            },
        };
        if env.status != EnvStatus::Active {
            return Err(VmnError::NotActive { name: env.name, status: env.status });
        }
        if !root_exists {
            self.mark_status_at(env.id.as_str(), EnvStatus::Missing, now);
            return Err(VmnError::PathMissing { path: env.path });
        }
        let script = activation_script(env.path.as_str());
        if !script_exists {
            self.mark_status_at(env.id.as_str(), EnvStatus::Missing, now);
            return Err(VmnError::ActivationScriptMissing { path: script });
        }
        self.update_last_used_at(env.id.as_str(), now);
        Ok((env, script))
    }

    /// `activation_target_at` at the current time. Fails with
    /// `ClockUnavailable`, changing nothing, where the clock cannot be read.
    pub fn activation_target(&mut self, selector: &str, root_exists: bool, script_exists: bool) -> (res:
        Result<(Environment, String), VmnError>)
        requires
            old(self).wf(),
        ensures
            final(self).wf(),
            final(self).packages@ == old(self).packages@,
            res == Err::<(Environment, String), VmnError>(VmnError::ClockUnavailable)
                ==> final(self).envs@ == old(self).envs@,
            res != Err::<(Environment, String), VmnError>(VmnError::ClockUnavailable)
                ==> exists|now: String|
                is_timestamp(now@) && #[trigger] activation_outcome(
                    old(self).envs@,
                    final(self).envs@,
                    selector@,
                    root_exists,
                    script_exists,
                    now,
                    res,
                ),
    {
        match crate::clock::now() {
            None => Err(VmnError::ClockUnavailable),
            Some(now) => self.activation_target_at(selector, root_exists, script_exists, &now),
        }
    }

    /// Registers a newly created environment at `target`, under a fresh id
    /// and the current time.
    pub fn register_created(
        &mut self,
        name: String,
        target: String,
        here: bool,
        managed_dir: &str,
        probe: Probe,
    ) -> (res: Result<Environment, VmnError>)
        requires
            old(self).wf(),
        ensures
            final(self).wf(),
            final(self).packages@ == old(self).packages@,
            res == Err::<Environment, VmnError>(VmnError::ClockUnavailable) ==> final(self).envs@
                == old(self).envs@,
            res != Err::<Environment, VmnError>(VmnError::ClockUnavailable) ==> exists|
                n: NewEnvironment,
            |
                #[trigger] is_created_record(n, name, target, here, managed_dir@, probe, n.id, n.created_at)
                    && is_timestamp(n.created_at@) && n.id@.len() == 26 && (res is Err
                    <==> upsert_refused(old(self).envs@, n)) && (res is Err ==> final(self).envs@
                    == old(self).envs@) && (res is Ok ==> final(self).envs@ == upserted(
                    old(self).envs@,
                    n,
                )) && (res matches Ok(e) ==> e == upsert_row(old(self).envs@, n)),
    {
        let now = match crate::clock::now() {
            Some(now) => now,
            None => {
                return Err(VmnError::ClockUnavailable);
            },
        };
        let id = crate::clock::new_id();
        let record = created_record(name, target, here, managed_dir, probe, id, now);
        self.upsert_environment(record)
    }

    /// Registers the venv found at `path`, keeping what an existing record of
    /// that path says of its identity and origin.
    pub fn register_scanned(&mut self, path: String, probe: Probe) -> (res: Result<
        Environment,
        VmnError,
    >)
        requires
            old(self).wf(),
        ensures
            final(self).wf(),
            final(self).packages@ == old(self).packages@,
            res == Err::<Environment, VmnError>(VmnError::ClockUnavailable) ==> final(self).envs@
                == old(self).envs@,
            res != Err::<Environment, VmnError>(VmnError::ClockUnavailable) ==> exists|
                n: NewEnvironment,
                fresh: String,
            |
                #[trigger] is_scanned_record(
                    n,
                    existing_at(old(self).envs@, path@),
                    path,
                    probe,
                    fresh,
                    n.updated_at,
                ) && is_timestamp(n.updated_at@) && (res is Err <==> upsert_refused(old(self).envs@, n)) && (res is Err ==> final(self).envs@ == old(self).envs@) && (res is Ok ==> final(self).envs@ == upserted(
                    old(self).envs@,
                    n,
                )) && (res matches Ok(e) ==> e == upsert_row(old(self).envs@, n)),
            has_path(old(self).envs@, path@) && res != Err::<Environment, VmnError>(
                VmnError::ClockUnavailable,
            ) ==> (res matches Ok(e) && ({
                let o = old(self).envs@[path_index(old(self).envs@, path@)];
                &&& e.id == o.id
                &&& e.name == o.name
                &&& e.project_dir == o.project_dir
                &&& e.source == o.source
                &&& e.created_at == o.created_at
                &&& e.last_used_at == o.last_used_at
                &&& e.status == EnvStatus::Active
            })),
    {
        let existing = self.find_by_path(path.as_str());
        let now = match crate::clock::now() {
            Some(now) => now,
            None => {
                return Err(VmnError::ClockUnavailable);
            },
        };
        let fresh = match &existing {
            Some(e) => e.id.clone(),
            None => crate::clock::new_id(),
        };
        let ghost ex = existing;
        let record = scanned_record(existing, path, probe, fresh, now);
        let res = self.upsert_environment(record);
        proof {
            if has_path(old(self).envs@, path@) {
                let o = old(self).envs@[path_index(old(self).envs@, path@)];
                assert(ex == Some(o));
                assert(!upsert_refused(old(self).envs@, record));
            }
        }
        res
    }

    /// Refreshes the record with id `id` from what was observed at its path,
    /// stamping `now`: a gone venv is marked missing; a present one gets its
    /// versions, its active status and, where pip could be read, a new
    /// package snapshot. A snapshot the registry refuses fails the refresh
    /// after the versions are stored.
    pub fn refresh_one_at(&mut self, id: &String, observation: Observation, now: &String) -> (res:
        Result<RefreshState, VmnError>)
        requires
            old(self).wf(),
        ensures
            final(self).wf(),
            refresh_outcome(
                old(self).envs@,
                old(self).packages@,
                final(self).envs@,
                final(self).packages@,
                *id,
                observation,
                *now,
                res,
            ),
    {
        match observation {
            Observation::Gone => {
                self.mark_status_at(id.as_str(), EnvStatus::Missing, now);
                Ok(RefreshState::Missing)
            },
            Observation::Present { probe, packages } => {
                self.update_probe_at(id.as_str(), &probe, now);
                match packages {
                    Some(v) => {
                        proof {
                            let before = old(self).envs@;
                            let mid = self.envs@;
                            if has_id(before, id@) {
                                let i = choose|i: int| 0 <= i < before.len() && (#[trigger] before[i]).id@ == id@;
                                assert(mid[i].id == before[i].id);
                            }
                            if has_id(mid, id@) {
                                let i = choose|i: int| 0 <= i < mid.len() && (#[trigger] mid[i]).id@ == id@;
                                assert(mid[i].id == before[i].id);
                            }
                        }
                        match self.replace_packages_at(id, &v, now) {
                            Ok(()) => Ok(RefreshState::Refreshed),
                            Err(e) => Err(e),
                        }
                    },
                    None => Ok(RefreshState::Refreshed),
                }
            },
        }
    }

    /// `refresh_one_at` at the current time. Fails with `ClockUnavailable`,
    /// changing nothing, where the clock cannot be read.
    pub fn refresh_one(&mut self, id: &String, observation: Observation) -> (res: Result<
        RefreshState,
        VmnError,
    >)
        requires
            old(self).wf(),
        ensures
            final(self).wf(),
            res == Err::<RefreshState, VmnError>(VmnError::ClockUnavailable) ==> final(self).envs@
                == old(self).envs@ && final(self).packages@ == old(self).packages@,
            res != Err::<RefreshState, VmnError>(VmnError::ClockUnavailable) ==> exists|now: String|
                is_timestamp(now@) && #[trigger] refresh_outcome(
                    old(self).envs@,
                    old(self).packages@,
                    final(self).envs@,
                    final(self).packages@,
                    *id,
                    observation,
                    now,
                    res,
                ),
    {
        match crate::clock::now() {
            None => Err(VmnError::ClockUnavailable),
            Some(now) => self.refresh_one_at(id, observation, &now),
        }
    }

    /// The checks `remove` makes before it deletes anything: the selector
    /// must name one record (deleted ones included); with `delete_files`, a
    /// missing path is marked missing and refused, and the directory must
    /// look like a venv (see `ensure_safe_venv_delete`).
    pub fn check_removal_at(
        &mut self,
        selector: &str,
        delete_files: bool,
        facts: &PathFacts,
        now: &String,
    ) -> (res: Result<Environment, VmnError>)
        requires
            old(self).wf(),
        ensures
            final(self).wf(),
            final(self).packages@ == old(self).packages@,
            removal_outcome(
                old(self).envs@,
                final(self).envs@,
                selector@,
                delete_files,
                *facts,
                *now,
                res,
            ),
    {
        let env = match self.resolve_selector(selector, true) {
            Ok(env) => env,
            Err(e) => {
                return Err(e);
            },
        };
        if delete_files {
            if !facts.exists {
                self.mark_status_at(env.id.as_str(), EnvStatus::Missing, now);
                return Err(VmnError::PathMissing { path: env.path });
            }
            match ensure_safe_venv_delete(env.path.as_str(), facts) {
                Ok(()) => {},
                Err(e) => {
                    return Err(e);
                },
            }
        }
        Ok(env)
    }

    /// `check_removal_at` at the current time. Fails with
    /// `ClockUnavailable`, changing nothing, where the clock cannot be read.
    pub fn check_removal(&mut self, selector: &str, delete_files: bool, facts: &PathFacts) -> (res:
        Result<Environment, VmnError>)
        requires
            old(self).wf(),
        ensures
            final(self).wf(),
            final(self).packages@ == old(self).packages@,
            res == Err::<Environment, VmnError>(VmnError::ClockUnavailable) ==> final(self).envs@
                == old(self).envs@,
            res != Err::<Environment, VmnError>(VmnError::ClockUnavailable) ==> exists|now: String|
                is_timestamp(now@) && #[trigger] removal_outcome(
                    old(self).envs@,
                    final(self).envs@,
                    selector@,
                    delete_files,
                    *facts,
                    now,
                    res,
                ),
    {
        match crate::clock::now() {
            None => Err(VmnError::ClockUnavailable),
            Some(now) => self.check_removal_at(selector, delete_files, facts, &now),
        }
    }
}

/// What the checks of `remove` do: the records before and after, and the
/// result.
pub open spec fn removal_outcome(
    before: Seq<Environment>,
    after: Seq<Environment>,
    selector: Seq<char>,
    delete_files: bool,
    facts: PathFacts,
    now: String,
    res: Result<Environment, VmnError>,
) -> bool {
    let m = matches_of(before, selector, true);
    &&& m.len() != 1 ==> after == before && (res matches Err(e) && resolve_failure(m, selector, e))
    &&& m.len() == 1 && !delete_files ==> after == before && res == Ok::<Environment, VmnError>(
        m[0],
    )
    &&& m.len() == 1 && delete_files && !facts.exists ==> after == marked(
        before,
        m[0].id@,
        EnvStatus::Missing,
        now,
    ) && (res matches Err(VmnError::PathMissing { path }) && path@ == m[0].path@)
    &&& m.len() == 1 && delete_files && facts.exists ==> after == before && (if facts.is_dir
        && facts.pyvenv_cfg_is_file && facts.activation_script_is_file {
        res == Ok::<Environment, VmnError>(m[0])
    } else {
        res matches Err(e) && delete_refusal(m[0].path@, facts, e)
    })
}

/// What `doctor` found at an active environment's path.
#[derive(Debug)]
pub struct PathCheck {
    pub id: String,
    pub name: String,
    pub root_exists: bool,
    pub script_exists: bool,
}

/// The records after `doctor` marks missing each one whose root is gone.
pub open spec fn doctor_marked(s: Seq<Environment>, checks: Seq<PathCheck>, now: String) -> Seq<
    Environment,
> {
    s.map_values(
        |e: Environment|
            if gone_in(checks, e.id@) {
                with_status(e, EnvStatus::Missing, now)
            } else {
                e
            },
    )
}

/// Some check reports the root of the record with id `id` gone.
pub open spec fn gone_in(checks: Seq<PathCheck>, id: Seq<char>) -> bool {
    exists|k: int| 0 <= k < checks.len() && (#[trigger] checks[k]).id@ == id && !checks[k].root_exists
}

/// The problem `doctor` reports for a check, if any.
pub open spec fn doctor_line(c: PathCheck) -> Option<Seq<char>> {
    if !c.root_exists {
        Some("check active path "@ + c.name@ + ": missing"@)
    } else if !c.script_exists {
        Some("check activation script "@ + c.name@ + ": missing"@)
    } else {
        None
    }
}

proof fn lemma_gone_step(checks: Seq<PathCheck>, k: int, id: Seq<char>)
    requires
        0 <= k < checks.len(),
    ensures
        gone_in(checks.take(k + 1), id) <==> (gone_in(checks.take(k), id) || (checks[k].id@ == id
            && !checks[k].root_exists)),
{
    let t0 = checks.take(k);
    let t1 = checks.take(k + 1);
    if gone_in(t0, id) {
        let m = choose|m: int| 0 <= m < t0.len() && (#[trigger] t0[m]).id@ == id && !t0[m].root_exists;
        assert(t1[m] == t0[m]);
    }
    if checks[k].id@ == id && !checks[k].root_exists {
        assert(t1[k] == checks[k]);
    }
    if gone_in(t1, id) {
        let m = choose|m: int| 0 <= m < t1.len() && (#[trigger] t1[m]).id@ == id && !t1[m].root_exists;
        if m < k {
            assert(t0[m] == t1[m]);
        }
    }
}

impl Registry {
    /// Reports each active path that is gone, marking its record missing, and
    /// each activation script that is gone, stamping `now`. One entry per
    /// check: the problem found, if any.
    pub fn doctor_paths_at(&mut self, checks: &Vec<PathCheck>, now: &String) -> (res: Vec<
        Option<String>,
    >)
        requires
            old(self).wf(),
        ensures
            final(self).wf(),
            final(self).packages@ == old(self).packages@,
            final(self).envs@ == doctor_marked(old(self).envs@, checks@, *now),
            res@.len() == checks@.len(),
            forall|k: int|
                0 <= k < checks@.len() ==> opt_view(#[trigger] res@[k]) == doctor_line(checks@[k]),
    {
        let ghost start = self.envs@;
        let mut lines: Vec<Option<String>> = Vec::new();
        let mut k: usize = 0;
        assert(self.envs@ =~= doctor_marked(start, checks@.take(0), *now));
        while k < checks.len()
            invariant
                self.wf(),
                k <= checks.len(),
                start == old(self).envs@,
                self.packages@ == old(self).packages@,
                self.envs@ == doctor_marked(start, checks@.take(k as int), *now),
                lines@.len() == k,
                forall|j: int| 0 <= j < k ==> opt_view(#[trigger] lines@[j]) == doctor_line(checks@[j]),
            decreases checks.len() - k,
        {
            let c = &checks[k];
            let ghost before = self.envs@;
            if !c.root_exists {
                self.mark_status_at(c.id.as_str(), EnvStatus::Missing, now);
                let mut v: Vec<char> = Vec::new();
                crate::text::extend_str(&mut v, "check active path ");
                crate::text::extend_str(&mut v, c.name.as_str());
                crate::text::extend_str(&mut v, ": missing");
                lines.push(Some(crate::text::string_of(&v)));
            } else if !c.script_exists {
                let mut v: Vec<char> = Vec::new();
                crate::text::extend_str(&mut v, "check activation script ");
                crate::text::extend_str(&mut v, c.name.as_str());
                crate::text::extend_str(&mut v, ": missing");
                lines.push(Some(crate::text::string_of(&v)));
            } else {
                lines.push(None);
            }
            proof {
                let t0 = checks@.take(k as int);
                let t1 = checks@.take(k + 1);
                assert forall|i: int| 0 <= i < start.len() implies (#[trigger] self.envs@[i])
                    == doctor_marked(start, t1, *now)[i] by {
                    let e = start[i];
                    lemma_gone_step(checks@, k as int, e.id@);
                    assert(before[i] == doctor_marked(start, t0, *now)[i]);
                }
                assert(self.envs@ =~= doctor_marked(start, t1, *now));
            }
            k = k + 1;
        }
        assert(checks@.take(checks.len() as int) =~= checks@);
        lines
    }

    /// `doctor_paths_at` at the current time. Fails with
    /// `ClockUnavailable`, changing nothing, where the clock cannot be read.
    pub fn doctor_paths(&mut self, checks: &Vec<PathCheck>) -> (res: Result<
        Vec<Option<String>>,
        VmnError,
    >)
        requires
            old(self).wf(),
        ensures
            final(self).wf(),
            final(self).packages@ == old(self).packages@,
            res is Err ==> res == Err::<Vec<Option<String>>, VmnError>(VmnError::ClockUnavailable)
                && final(self).envs@ == old(self).envs@,
            res is Ok ==> exists|now: String|
                is_timestamp(now@) && final(self).envs@ == #[trigger] doctor_marked(
                    old(self).envs@,
                    checks@,
                    now,
                ),
            res matches Ok(lines) ==> lines@.len() == checks@.len() && forall|k: int|
                0 <= k < checks@.len() ==> opt_view(#[trigger] lines@[k]) == doctor_line(checks@[k]),
    {
        match crate::clock::now() {
            None => Err(VmnError::ClockUnavailable),
            Some(now) => Ok(self.doctor_paths_at(checks, &now)),
        }
    }
}

/// How many of `lines` report a problem.
pub open spec fn problem_count(lines: Seq<Option<String>>) -> nat
    decreases lines.len(),
{
    if lines.len() == 0 {
        0
    } else {
        problem_count(lines.drop_last()) + if lines.last() is Some {
            1nat
        } else {
            0nat
        }
    }
}

/// The number of problems `doctor` found: the failed checks so far, the
/// path problems, and one more where names are held by several records.
pub open spec fn doctor_issue_count(
    failed_checks: nat,
    path_lines: Seq<Option<String>>,
    duplicate_names: nat,
) -> nat {
    failed_checks + problem_count(path_lines) + if duplicate_names > 0 {
        1nat
    } else {
        0nat
    }
}

/// The verdict of `doctor`: success where it found no problem, otherwise
/// the number it found.
pub fn doctor_verdict(failed_checks: usize, path_lines: &Vec<Option<String>>, duplicate_names: usize) -> (res:
    Result<(), VmnError>)
    requires
        failed_checks + path_lines@.len() < usize::MAX,
    ensures
        ({
            let n = doctor_issue_count(failed_checks as nat, path_lines@, duplicate_names as nat);
            &&& n == 0 <==> res is Ok
            &&& n > 0 ==> res == Err::<(), VmnError>(VmnError::DoctorIssues { count: n as usize })
        }),
{
    let mut count: usize = failed_checks;
    let mut i: usize = 0;
    while i < path_lines.len()
        invariant
            i <= path_lines.len(),
            failed_checks + path_lines@.len() < usize::MAX,
            count == failed_checks + problem_count(path_lines@.take(i as int)),
            problem_count(path_lines@.take(i as int)) <= i,
        decreases path_lines.len() - i,
    {
        proof {
            assert(path_lines@.take(i + 1).drop_last() =~= path_lines@.take(i as int));
        }
        if path_lines[i].is_some() {
            count = count + 1;
        }
        i = i + 1;
    }
    assert(path_lines@.take(path_lines.len() as int) =~= path_lines@);
    if duplicate_names > 0 {
        count = count + 1;
    }
    if count == 0 {
        Ok(())
    } else {
        Err(VmnError::DoctorIssues { count })
    }
}

/// What `create` does at its target: keep a venv that is already there,
/// or make one after creating the parent directory.
#[derive(Debug, PartialEq, Eq)]
pub enum CreatePlan {
    /// The target is a venv already; it is registered as it is.
    Reuse,
    /// The target does not exist; `parent` is created and a venv made in it.
    Make { parent: String },
}

/// Decides what `create` does at `target`, where `facts` say what the file
/// system holds there: an existing target must be a venv, a new one needs a
/// parent directory.
pub fn create_plan(target: &str, facts: &PathFacts) -> (res: Result<CreatePlan, VmnError>)
    ensures
        facts.exists && facts.pyvenv_cfg_is_file && facts.activation_script_is_file ==> res
            == Ok::<CreatePlan, VmnError>(CreatePlan::Reuse),
        facts.exists && !(facts.pyvenv_cfg_is_file && facts.activation_script_is_file) ==> (res matches Err(
            VmnError::NotAVenv { path },
        ) && path@ == target@),
        !facts.exists && parent_of(target@) is Some ==> (res matches Ok(CreatePlan::Make { parent: p })
            && Some(p@) == parent_of(target@)),
        !facts.exists && parent_of(target@) is None ==> (res matches Err(VmnError::NoParent { path })
            && path@ == target@),
{
    if facts.exists {
        if crate::paths::is_venv_root(facts) {
            Ok(CreatePlan::Reuse)
        } else {
            Err(VmnError::NotAVenv { path: crate::text::string_of(&crate::text::chars_of(target)) })
        }
    } else {
        match parent(target) {
            Some(p) => Ok(CreatePlan::Make { parent: p }),
            None => Err(VmnError::NoParent { path: crate::text::string_of(&crate::text::chars_of(target)) }),
        }
    }
}

/// The ids of the given records, in order.
pub fn record_ids(records: &Vec<Environment>) -> (res: Vec<String>)
    ensures
        res@.len() == records@.len(),
        forall|k: int| 0 <= k < res@.len() ==> #[trigger] res@[k] == records@[k].id,
{
    let mut ids: Vec<String> = Vec::new();
    let mut i: usize = 0;
    while i < records.len()
        invariant
            i <= records.len(),
            ids@.len() == i,
            forall|k: int| 0 <= k < i ==> #[trigger] ids@[k] == records@[k].id,
        decreases records.len() - i,
    {
        ids.push(records[i].id.clone());
        i = i + 1;
    }
    ids
}

} // verus!
