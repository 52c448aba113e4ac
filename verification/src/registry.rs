//! The registry of environments and their package snapshots, with the rules
//! of its schema: ids and paths are unique, a package belongs to a registered
//! environment and occurs once per environment, and deleting an environment
//! deletes its packages.
use vstd::prelude::*;
use crate::clock::is_timestamp;
use crate::errors::VmnError;
use crate::listing::{ByFoldedName, ByIdOrder, ByListOrder, ByPackageName};
use crate::model::{
    EnvStatus, Environment, NewEnvironment, PackageRecord, PipPackage, Probe, StatusFilter,
    StoredPackage, clone_opt, filter_admits,
};
use crate::order::{sort_by_order, sorted_by};
use crate::text::{chars_of, chars_start_with, starts_with, str_equal};

verus! {

pub open spec fn has_id(s: Seq<Environment>, id: Seq<char>) -> bool {
    exists|i: int| 0 <= i < s.len() && (#[trigger] s[i]).id@ == id
}

pub open spec fn has_path(s: Seq<Environment>, path: Seq<char>) -> bool {
    exists|i: int| 0 <= i < s.len() && (#[trigger] s[i]).path@ == path
}

/// No two records share an id or a path.
pub open spec fn envs_wf(s: Seq<Environment>) -> bool {
    &&& forall|i: int, j: int|
        0 <= i < s.len() && 0 <= j < s.len() && i != j ==> (#[trigger] s[i]).id@ != (#[trigger] s[j]).id@
    &&& forall|i: int, j: int|
        0 <= i < s.len() && 0 <= j < s.len() && i != j ==> (#[trigger] s[i]).path@
            != (#[trigger] s[j]).path@
}

/// Each package belongs to a registered environment, once per name.
pub open spec fn packages_wf(envs: Seq<Environment>, p: Seq<StoredPackage>) -> bool {
    &&& forall|i: int, j: int|
        0 <= i < p.len() && 0 <= j < p.len() && i != j ==> !((#[trigger] p[i]).env_id@ == (
        #[trigger] p[j]).env_id@ && p[i].name@ == p[j].name@)
    &&& forall|i: int| 0 <= i < p.len() ==> has_id(envs, (#[trigger] p[i]).env_id@)
}

/// The record that merging `n` into `old` gives, as the upsert's `DO UPDATE`
/// does: the id, path and creation time stay, a missing last use keeps the
/// old one, every other field comes from `n`.
pub open spec fn merged(old: Environment, n: NewEnvironment) -> Environment {
    Environment {
        id: old.id,
        name: n.name,
        path: old.path,
        project_dir: n.project_dir,
        source: n.source,
        status: n.status,
        python_version: n.python_version,
        pip_version: n.pip_version,
        created_at: old.created_at,
        updated_at: n.updated_at,
        last_used_at: if n.last_used_at is Some {
            n.last_used_at
        } else {
            old.last_used_at
        },
        last_scanned_at: n.last_scanned_at,
    }
}

/// The record that inserting `n` gives.
pub open spec fn inserted(n: NewEnvironment) -> Environment {
    Environment {
        id: n.id,
        name: n.name,
        path: n.path,
        project_dir: n.project_dir,
        source: n.source,
        status: n.status,
        python_version: n.python_version,
        pip_version: n.pip_version,
        created_at: n.created_at,
        updated_at: n.updated_at,
        last_used_at: n.last_used_at,
        last_scanned_at: n.last_scanned_at,
    }
}

/// The index of the record with path `p` (meaningful where there is one).
pub open spec fn path_index(s: Seq<Environment>, p: Seq<char>) -> int {
    choose|i: int| 0 <= i < s.len() && (#[trigger] s[i]).path@ == p
}

/// An upsert is refused when the path is new but the id is taken.
pub open spec fn upsert_refused(s: Seq<Environment>, n: NewEnvironment) -> bool {
    !has_path(s, n.path@) && has_id(s, n.id@)
}

/// The records after upserting `n`: merged into the record with its path, or
/// appended.
pub open spec fn upserted(s: Seq<Environment>, n: NewEnvironment) -> Seq<Environment> {
    if has_path(s, n.path@) {
        s.map_values(|e: Environment| if e.path@ == n.path@ { merged(e, n) } else { e })
    } else {
        s.push(inserted(n))
    }
}

/// The record that upserting `n` leaves under its path.
pub open spec fn upsert_row(s: Seq<Environment>, n: NewEnvironment) -> Environment {
    if has_path(s, n.path@) {
        merged(s[path_index(s, n.path@)], n)
    } else {
        inserted(n)
    }
}

/// A record matches a selector by full id, id prefix or exact name; deleted
/// records only where they are asked for.
pub open spec fn selector_matches(e: Environment, sel: Seq<char>, include_deleted: bool) -> bool {
    &&& (include_deleted || e.status != EnvStatus::Deleted)
    &&& (e.id@ == sel || starts_with(e.id@, sel) || e.name@ == sel)
}

pub open spec fn matches_of(s: Seq<Environment>, sel: Seq<char>, include_deleted: bool) -> Seq<
    Environment,
> {
    s.filter(|e: Environment| selector_matches(e, sel, include_deleted))
}

/// The failure `resolve_selector` reports for the matches `m` of
/// `selector` when there is not exactly one: no match, or the ambiguity with
/// every match listed by id.
pub open spec fn resolve_failure(m: Seq<Environment>, selector: Seq<char>, e: VmnError) -> bool {
    &&& m.len() == 0 ==> (e matches VmnError::NoMatch { selector: s } && s@ == selector)
    &&& m.len() > 1 ==> (e matches VmnError::Ambiguous { selector: s, matches } && s@ == selector
        && matches@.to_multiset() == m.to_multiset() && sorted_by::<Environment, ByIdOrder>(
        matches@,
    ))
}

/// The record with its status set and its update time stamped.
pub open spec fn with_status(e: Environment, status: EnvStatus, now: String) -> Environment {
    Environment { status: status, updated_at: now, ..e }
}

pub open spec fn marked(s: Seq<Environment>, id: Seq<char>, status: EnvStatus, now: String) -> Seq<
    Environment,
> {
    s.map_values(|e: Environment| if e.id@ == id { with_status(e, status, now) } else { e })
}

pub open spec fn with_last_use(e: Environment, now: String) -> Environment {
    Environment { last_used_at: Some(now), updated_at: now, ..e }
}

pub open spec fn used(s: Seq<Environment>, id: Seq<char>, now: String) -> Seq<Environment> {
    s.map_values(|e: Environment| if e.id@ == id { with_last_use(e, now) } else { e })
}

pub open spec fn with_probe(e: Environment, probe: Probe, now: String) -> Environment {
    Environment {
        python_version: probe.python_version,
        pip_version: probe.pip_version,
        status: EnvStatus::Active,
        updated_at: now,
        ..e
    }
}

pub open spec fn probed(s: Seq<Environment>, id: Seq<char>, probe: Probe, now: String) -> Seq<
    Environment,
> {
    s.map_values(|e: Environment| if e.id@ == id { with_probe(e, probe, now) } else { e })
}

/// A snapshot entry stored for environment `id`.
pub open spec fn stored(id: String, p: PipPackage, now: String) -> StoredPackage {
    StoredPackage { env_id: id, name: p.name, version: p.version, captured_at: now }
}

pub open spec fn packages_of(p: Seq<StoredPackage>, id: Seq<char>) -> Seq<StoredPackage> {
    p.filter(|q: StoredPackage| q.env_id@ == id)
}

pub open spec fn packages_not_of(p: Seq<StoredPackage>, id: Seq<char>) -> Seq<StoredPackage> {
    p.filter(|q: StoredPackage| q.env_id@ != id)
}

/// The packages after replacing the snapshot of environment `id`.
pub open spec fn replaced(p: Seq<StoredPackage>, id: String, pkgs: Seq<PipPackage>, now: String) -> Seq<
    StoredPackage,
> {
    packages_not_of(p, id@) + pkgs.map_values(|q: PipPackage| stored(id, q, now))
}

pub open spec fn record_of(p: StoredPackage) -> PackageRecord {
    PackageRecord { name: p.name, version: p.version, captured_at: p.captured_at }
}

/// Two entries of a pip listing share a name.
pub open spec fn has_duplicate_name(p: Seq<PipPackage>) -> bool {
    exists|i: int, j: int|
        0 <= i < j < p.len() && (#[trigger] p[i]).name@ == (#[trigger] p[j]).name@
}

pub open spec fn listed(ids: Seq<String>, id: Seq<char>) -> bool {
    exists|k: int| 0 <= k < ids.len() && (#[trigger] ids[k])@ == id
}

/// The records whose name `n` is shared by another record; deleted records
/// do not count.
pub open spec fn live_named(s: Seq<Environment>, n: Seq<char>) -> Seq<Environment> {
    s.filter(|e: Environment| e.status != EnvStatus::Deleted && e.name@ == n)
}

proof fn lemma_filter_step<A>(s: Seq<A>, i: int, p: spec_fn(A) -> bool)
    requires
        0 <= i < s.len(),
    ensures
        s.take(i + 1).filter(p) == (if p(s[i]) {
            s.take(i).filter(p).push(s[i])
        } else {
            s.take(i).filter(p)
        }),
{
    reveal_with_fuel(Seq::filter, 1);
    assert(s.take(i + 1).drop_last() =~= s.take(i));
}

proof fn lemma_filter_all<A>(s: Seq<A>, p: spec_fn(A) -> bool)
    ensures
        s.take(s.len() as int).filter(p) == s.filter(p),
{
    assert(s.take(s.len() as int) =~= s);
}

/// The registry of environments and package snapshots.
pub struct Registry {
    pub envs: Vec<Environment>,
    pub packages: Vec<StoredPackage>,
}

/// The index of the first record with path `path`.
fn position_by_path(rows: &Vec<Environment>, path: &str) -> (res: Option<usize>)
    ensures
        match res {
            Some(i) => i < rows@.len() && rows@[i as int].path@ == path@,
            None => !has_path(rows@, path@),
        },
{
    let mut i: usize = 0;
    while i < rows.len()
        invariant
            i <= rows.len(),
            forall|k: int| 0 <= k < i ==> (#[trigger] rows@[k]).path@ != path@,
        decreases rows.len() - i,
    {
        if str_equal(rows[i].path.as_str(), path) {
            return Some(i);
        }
        i = i + 1;
    }
    None
}

/// Whether some record has id `id`.
fn contains_id(rows: &Vec<Environment>, id: &str) -> (res: bool)
    ensures
        res == has_id(rows@, id@),
{
    let mut i: usize = 0;
    while i < rows.len()
        invariant
            i <= rows.len(),
            forall|k: int| 0 <= k < i ==> (#[trigger] rows@[k]).id@ != id@,
        decreases rows.len() - i,
    {
        if str_equal(rows[i].id.as_str(), id) {
            return true;
        }
        i = i + 1;
    }
    false
}

/// Whether `ids` holds `id`.
fn ids_contain(ids: &Vec<String>, id: &str) -> (res: bool)
    ensures
        res == listed(ids@, id@),
{
    let mut i: usize = 0;
    while i < ids.len()
        invariant
            i <= ids.len(),
            forall|k: int| 0 <= k < i ==> (#[trigger] ids@[k])@ != id@,
        decreases ids.len() - i,
    {
        if str_equal(ids[i].as_str(), id) {
            return true;
        }
        i = i + 1;
    }
    false
}

impl Registry {
    pub open spec fn wf(&self) -> bool {
        envs_wf(self.envs@) && packages_wf(self.envs@, self.packages@)
    }

    /// An empty registry.
    pub fn new() -> (res: Registry)
        ensures
            res.wf(),
            res.envs@.len() == 0,
            res.packages@.len() == 0,
    {
        Registry { envs: Vec::new(), packages: Vec::new() }
    }

    /// A registry holding the given records, if they keep the schema's rules.
    pub fn load(envs: Vec<Environment>, packages: Vec<StoredPackage>) -> (res: Option<Registry>)
        ensures
            res is Some <==> envs_wf(envs@) && packages_wf(envs@, packages@),
            res matches Some(r) ==> r.envs@ == envs@ && r.packages@ == packages@,
    {
        let mut i: usize = 0;
        while i < envs.len()
            invariant
                i <= envs.len(),
                forall|a: int, b: int|
                    0 <= a < i && 0 <= b < envs.len() && a != b ==> (#[trigger] envs@[a]).id@ != (
                    #[trigger] envs@[b]).id@ && envs@[a].path@ != envs@[b].path@,
            decreases envs.len() - i,
        {
            let mut j: usize = 0;
            while j < envs.len()
                invariant
                    i < envs.len(),
                    j <= envs.len(),
                    forall|b: int|
                        0 <= b < j && b != i ==> envs@[i as int].id@ != (#[trigger] envs@[b]).id@
                            && envs@[i as int].path@ != envs@[b].path@,
                decreases envs.len() - j,
            {
                if j != i {
                    if str_equal(envs[i].id.as_str(), envs[j].id.as_str()) || str_equal(
                        envs[i].path.as_str(),
                        envs[j].path.as_str(),
                    ) {
                        return None;
                    }
                }
                j = j + 1;
            }
            i = i + 1;
        }
        let mut i: usize = 0;
        while i < packages.len()
            invariant
                envs_wf(envs@),
                i <= packages.len(),
                forall|a: int, b: int|
                    0 <= a < i && 0 <= b < packages.len() && a != b ==> !((
                    #[trigger] packages@[a]).env_id@ == (#[trigger] packages@[b]).env_id@
                        && packages@[a].name@ == packages@[b].name@),
                forall|a: int| 0 <= a < i ==> has_id(envs@, (#[trigger] packages@[a]).env_id@),
            decreases packages.len() - i,
        {
            if !contains_id(&envs, packages[i].env_id.as_str()) {
                return None;
            }
            let mut j: usize = 0;
            while j < packages.len()
                invariant
                    i < packages.len(),
                    j <= packages.len(),
                    forall|b: int|
                        0 <= b < j && b != i ==> !(packages@[i as int].env_id@ == (
                        #[trigger] packages@[b]).env_id@ && packages@[i as int].name@
                            == packages@[b].name@),
                decreases packages.len() - j,
            {
                if j != i {
                    if str_equal(packages[i].env_id.as_str(), packages[j].env_id.as_str())
                        && str_equal(packages[i].name.as_str(), packages[j].name.as_str()) {
                        return None;
                    }
                }
                j = j + 1;
            }
            i = i + 1;
        }
        Some(Registry { envs, packages })
    }

    /// The record with path `path`, if any.
    pub fn find_by_path(&self, path: &str) -> (res: Option<Environment>)
        requires
            self.wf(),
        ensures
            res is Some <==> has_path(self.envs@, path@),
            res matches Some(e) ==> e == self.envs@[path_index(self.envs@, path@)] && e.path@
                == path@,
    {
        match position_by_path(&self.envs, path) {
            Some(i) => {
                proof {
                    let k = path_index(self.envs@, path@);
                    assert(self.envs@[i as int].path@ == path@);
                    assert(k == i);
                }
                Some(self.envs[i].clone())
            },
            None => None,
        }
    }

    /// Inserts `env`, or merges it into the record that has its path.
    pub fn upsert_environment(&mut self, env: NewEnvironment) -> (res: Result<
        Environment,
        VmnError,
    >)
        requires
            old(self).wf(),
        ensures
            final(self).wf(),
            res is Err <==> upsert_refused(old(self).envs@, env),
            res is Err ==> final(self).envs@ == old(self).envs@ && res == Err::<Environment, VmnError>(
                VmnError::DuplicateId { id: env.id },
            ),
            res is Ok ==> final(self).envs@ == upserted(old(self).envs@, env),
            res matches Ok(e) ==> e == upsert_row(old(self).envs@, env),
            final(self).packages@ == old(self).packages@,
    {
        let ghost old_envs = self.envs@;
        match position_by_path(&self.envs, env.path.as_str()) {
            Some(i) => {
                let id = self.envs[i].id.clone();
                let path = self.envs[i].path.clone();
                let created_at = self.envs[i].created_at.clone();
                let last_used_at = if env.last_used_at.is_some() {
                    env.last_used_at
                } else {
                    clone_opt(&self.envs[i].last_used_at)
                };
                let row = Environment {
                    id,
                    name: env.name,
                    path,
                    project_dir: env.project_dir,
                    source: env.source,
                    status: env.status,
                    python_version: env.python_version,
                    pip_version: env.pip_version,
                    created_at,
                    updated_at: env.updated_at,
                    last_used_at,
                    last_scanned_at: env.last_scanned_at,
                };
                let out = row.clone();
                self.envs.set(i, row);
                proof {
                    let k = path_index(old_envs, env.path@);
                    assert(k == i);
                    assert(self.envs@ =~= upserted(old_envs, env));
                    assert forall|a: int, b: int|
                        0 <= a < self.envs@.len() && 0 <= b < self.envs@.len() && a
                            != b implies (#[trigger] self.envs@[a]).id@ != (
                    #[trigger] self.envs@[b]).id@ && self.envs@[a].path@ != self.envs@[b].path@ by {
                        assert(self.envs@[a].id == old_envs[a].id);
                        assert(self.envs@[b].id == old_envs[b].id);
                        assert(self.envs@[a].path == old_envs[a].path);
                        assert(self.envs@[b].path == old_envs[b].path);
                    }
                    assert forall|p: int| 0 <= p < self.packages@.len() implies has_id(
                        self.envs@,
                        (#[trigger] self.packages@[p]).env_id@,
                    ) by {
                        let q = choose|q: int|
                            0 <= q < old_envs.len() && (#[trigger] old_envs[q]).id@
                                == self.packages@[p].env_id@;
                        assert(self.envs@[q].id == old_envs[q].id);
                    }
                }
                Ok(out)
            },
            None => {
                if contains_id(&self.envs, env.id.as_str()) {
                    return Err(VmnError::DuplicateId { id: env.id });
                }
                let row = Environment {
                    id: env.id,
                    name: env.name,
                    path: env.path,
                    project_dir: env.project_dir,
                    source: env.source,
                    status: env.status,
                    python_version: env.python_version,
                    pip_version: env.pip_version,
                    created_at: env.created_at,
                    updated_at: env.updated_at,
                    last_used_at: env.last_used_at,
                    last_scanned_at: env.last_scanned_at,
                };
                let out = row.clone();
                self.envs.push(row);
                proof {
                    assert(self.envs@ =~= upserted(old_envs, env));
                    assert forall|p: int| 0 <= p < self.packages@.len() implies has_id(
                        self.envs@,
                        (#[trigger] self.packages@[p]).env_id@,
                    ) by {
                        let q = choose|q: int|
                            0 <= q < old_envs.len() && (#[trigger] old_envs[q]).id@
                                == self.packages@[p].env_id@;
                        assert(self.envs@[q] == old_envs[q]);
                    }
                }
                Ok(out)
            },
        }
    }

    /// Copies of the records whose status `filter` admits.
    fn select(&self, filter: StatusFilter) -> (res: Vec<Environment>)
        ensures
            res@ == self.envs@.filter(|e: Environment| filter_admits(filter, e.status)),
    {
        let ghost p = |e: Environment| filter_admits(filter, e.status);
        let mut out: Vec<Environment> = Vec::new();
        let mut i: usize = 0;
        while i < self.envs.len()
            invariant
                i <= self.envs.len(),
                out@ == self.envs@.take(i as int).filter(p),
                p == (|e: Environment| filter_admits(filter, e.status)),
            decreases self.envs.len() - i,
        {
            proof {
                lemma_filter_step(self.envs@, i as int, p);
            }
            if filter.admits(self.envs[i].status) {
                out.push(self.envs[i].clone());
            }
            i = i + 1;
        }
        proof {
            lemma_filter_all(self.envs@, p);
        }
        out
    }

    /// The records whose status `filter` admits, in listing order.
    pub fn list(&self, filter: StatusFilter) -> (res: Vec<Environment>)
        ensures
            res@.to_multiset() == self.envs@.filter(
                |e: Environment| filter_admits(filter, e.status),
            ).to_multiset(),
            sorted_by::<Environment, ByListOrder>(res@),
    {
        let selected = self.select(filter);
        sort_by_order::<Environment, ByListOrder>(selected)
    }

    /// The records whose status is one of `statuses`, in listing order.
    pub fn list_by_statuses(&self, statuses: &Vec<EnvStatus>) -> (res: Vec<Environment>)
        ensures
            res@.to_multiset() == self.envs@.filter(
                |e: Environment| statuses@.contains(e.status),
            ).to_multiset(),
            sorted_by::<Environment, ByListOrder>(res@),
    {
        let ghost p = |e: Environment| statuses@.contains(e.status);
        let mut out: Vec<Environment> = Vec::new();
        let mut i: usize = 0;
        while i < self.envs.len()
            invariant
                i <= self.envs.len(),
                out@ == self.envs@.take(i as int).filter(p),
                p == (|e: Environment| statuses@.contains(e.status)),
            decreases self.envs.len() - i,
        {
            proof {
                lemma_filter_step(self.envs@, i as int, p);
            }
            let mut wanted = false;
            let mut k: usize = 0;
            while k < statuses.len()
                invariant
                    k <= statuses.len(),
                    i < self.envs.len(),
                    wanted == exists|m: int| 0 <= m < k && statuses@[m] == self.envs@[i as int].status,
                decreases statuses.len() - k,
            {
                if statuses[k] == self.envs[i].status {
                    wanted = true;
                }
                k = k + 1;
            }
            if wanted {
                out.push(self.envs[i].clone());
            }
            i = i + 1;
        }
        proof {
            lemma_filter_all(self.envs@, p);
        }
        sort_by_order::<Environment, ByListOrder>(out)
    }

    /// The one record that `selector` names: by full id, id prefix or exact
    /// name, skipping deleted records unless `include_deleted`. None and
    /// several matches are errors; several are listed by id.
    pub fn resolve_selector(&self, selector: &str, include_deleted: bool) -> (res: Result<
        Environment,
        VmnError,
    >)
        ensures
            ({
                let m = matches_of(self.envs@, selector@, include_deleted);
                &&& m.len() == 0 <==> (res matches Err(VmnError::NoMatch { selector: s }) && s@
                    == selector@)
                &&& m.len() == 1 <==> res == Ok::<Environment, VmnError>(m[0])
                &&& m.len() > 1 <==> (res matches Err(VmnError::Ambiguous { selector: s, matches })
                    && s@ == selector@ && matches@.to_multiset() == m.to_multiset()
                    && sorted_by::<Environment, ByIdOrder>(matches@))
            }),
    {
        let ghost p = |e: Environment| selector_matches(e, selector@, include_deleted);
        let sel = chars_of(selector);
        let mut found: Vec<Environment> = Vec::new();
        let mut i: usize = 0;
        while i < self.envs.len()
            invariant
                i <= self.envs.len(),
                sel@ == selector@,
                found@ == self.envs@.take(i as int).filter(p),
                p == (|e: Environment| selector_matches(e, selector@, include_deleted)),
            decreases self.envs.len() - i,
        {
            proof {
                lemma_filter_step(self.envs@, i as int, p);
            }
            let e = &self.envs[i];
            if include_deleted || e.status != EnvStatus::Deleted {
                let id = chars_of(e.id.as_str());
                if str_equal(e.id.as_str(), selector) || chars_start_with(&id, &sel) || str_equal(
                    e.name.as_str(),
                    selector,
                ) {
                    found.push(e.clone());
                }
            }
            i = i + 1;
        }
        proof {
            lemma_filter_all(self.envs@, p);
        }
        if found.len() == 0 {
            Err(VmnError::NoMatch { selector: crate::text::string_of(&sel) })
        } else if found.len() == 1 {
            let e = found.pop().unwrap();
            Ok(e)
        } else {
            let sorted = sort_by_order::<Environment, ByIdOrder>(found);
            Err(VmnError::Ambiguous { selector: crate::text::string_of(&sel), matches: sorted })
        }
    }

    /// Sets the status of the record with id `id`, stamping `now` as its
    /// update time.
    pub fn mark_status_at(&mut self, id: &str, status: EnvStatus, now: &String)
        requires
            old(self).wf(),
        ensures
            final(self).wf(),
            final(self).envs@ == marked(old(self).envs@, id@, status, *now),
            final(self).packages@ == old(self).packages@,
    {
        let ghost old_envs = self.envs@;
        let mut i: usize = 0;
        while i < self.envs.len()
            invariant
                i <= self.envs.len(),
                self.envs@.len() == old_envs.len(),
                self.packages@ == old(self).packages@,
                old_envs == old(self).envs@,
                forall|k: int| 0 <= k < i ==> (#[trigger] self.envs@[k]) == (if old_envs[k].id@
                    == id@ {
                    with_status(old_envs[k], status, *now)
                } else {
                    old_envs[k]
                }),
                forall|k: int| i <= k < old_envs.len() ==> (#[trigger] self.envs@[k]) == old_envs[k],
            decreases self.envs.len() - i,
        {
            if str_equal(self.envs[i].id.as_str(), id) {
                let mut row = self.envs[i].clone();
                row.status = status;
                row.updated_at = now.clone();
                self.envs.set(i, row);
            }
            i = i + 1;
        }
        proof {
            assert(self.envs@ =~= marked(old_envs, id@, status, *now));
            lemma_same_keys(old_envs, self.envs@, self.packages@);
        }
    }

    /// Sets the status of the record with id `id`, stamping the current time.
    /// Fails with `ClockUnavailable`, changing nothing, where the clock
    /// cannot be read.
    pub fn mark_status(&mut self, id: &str, status: EnvStatus) -> (res: Result<(), VmnError>)
        requires
            old(self).wf(),
        ensures
            final(self).wf(),
            final(self).packages@ == old(self).packages@,
            res is Err ==> res == Err::<(), VmnError>(VmnError::ClockUnavailable)
                && final(self).envs@ == old(self).envs@,
            res is Ok ==> exists|now: String|
                is_timestamp(now@) && final(self).envs@ == #[trigger] marked(
                    old(self).envs@,
                    id@,
                    status,
                    now,
                ),
    {
        match crate::clock::now() {
            None => Err(VmnError::ClockUnavailable),
            Some(now) => {
                self.mark_status_at(id, status, &now);
                Ok(())
            },
        }
    }

    /// Records a use of the record with id `id` at time `now`.
    pub fn update_last_used_at(&mut self, id: &str, now: &String)
        requires
            old(self).wf(),
        ensures
            final(self).wf(),
            final(self).envs@ == used(old(self).envs@, id@, *now),
            final(self).packages@ == old(self).packages@,
    {
        let ghost old_envs = self.envs@;
        let mut i: usize = 0;
        while i < self.envs.len()
            invariant
                i <= self.envs.len(),
                self.envs@.len() == old_envs.len(),
                self.packages@ == old(self).packages@,
                old_envs == old(self).envs@,
                forall|k: int| 0 <= k < i ==> (#[trigger] self.envs@[k]) == (if old_envs[k].id@
                    == id@ {
                    with_last_use(old_envs[k], *now)
                } else {
                    old_envs[k]
                }),
                forall|k: int| i <= k < old_envs.len() ==> (#[trigger] self.envs@[k]) == old_envs[k],
            decreases self.envs.len() - i,
        {
            if str_equal(self.envs[i].id.as_str(), id) {
                let mut row = self.envs[i].clone();
                row.last_used_at = Some(now.clone());
                row.updated_at = now.clone();
                self.envs.set(i, row);
            }
            i = i + 1;
        }
        proof {
            assert(self.envs@ =~= used(old_envs, id@, *now));
            lemma_same_keys(old_envs, self.envs@, self.packages@);
        }
    }

    /// Records a use of the record with id `id` at the current time.
    /// Fails with `ClockUnavailable`, changing nothing, where the clock
    /// cannot be read.
    pub fn update_last_used(&mut self, id: &str) -> (res: Result<(), VmnError>)
        requires
            old(self).wf(),
        ensures
            final(self).wf(),
            final(self).packages@ == old(self).packages@,
            res is Err ==> res == Err::<(), VmnError>(VmnError::ClockUnavailable)
                && final(self).envs@ == old(self).envs@,
            res is Ok ==> exists|now: String|
                is_timestamp(now@) && final(self).envs@ == #[trigger] used(old(self).envs@, id@, now),
    {
        match crate::clock::now() {
            None => Err(VmnError::ClockUnavailable),
            Some(now) => {
                self.update_last_used_at(id, &now);
                Ok(())
            },
        }
    }

    /// Stores what a probe of the record with id `id` found, marks it active
    /// and stamps `now`.
    pub fn update_probe_at(&mut self, id: &str, probe: &Probe, now: &String)
        requires
            old(self).wf(),
        ensures
            final(self).wf(),
            final(self).envs@ == probed(old(self).envs@, id@, *probe, *now),
            final(self).packages@ == old(self).packages@,
    {
        let ghost old_envs = self.envs@;
        let mut i: usize = 0;
        while i < self.envs.len()
            invariant
                i <= self.envs.len(),
                self.envs@.len() == old_envs.len(),
                self.packages@ == old(self).packages@,
                old_envs == old(self).envs@,
                forall|k: int| 0 <= k < i ==> (#[trigger] self.envs@[k]) == (if old_envs[k].id@
                    == id@ {
                    with_probe(old_envs[k], *probe, *now)
                } else {
                    old_envs[k]
                }),
                forall|k: int| i <= k < old_envs.len() ==> (#[trigger] self.envs@[k]) == old_envs[k],
            decreases self.envs.len() - i,
        {
            if str_equal(self.envs[i].id.as_str(), id) {
                let mut row = self.envs[i].clone();
                row.python_version = clone_opt(&probe.python_version);
                row.pip_version = clone_opt(&probe.pip_version);
                row.status = EnvStatus::Active;
                row.updated_at = now.clone();
                self.envs.set(i, row);
            }
            i = i + 1;
        }
        proof {
            assert(self.envs@ =~= probed(old_envs, id@, *probe, *now));
            lemma_same_keys(old_envs, self.envs@, self.packages@);
        }
    }

    /// Stores what a probe found, stamping the current time.
    /// Fails with `ClockUnavailable`, changing nothing, where the clock
    /// cannot be read.
    pub fn update_probe(&mut self, id: &str, probe: &Probe) -> (res: Result<(), VmnError>)
        requires
            old(self).wf(),
        ensures
            final(self).wf(),
            final(self).packages@ == old(self).packages@,
            res is Err ==> res == Err::<(), VmnError>(VmnError::ClockUnavailable)
                && final(self).envs@ == old(self).envs@,
            res is Ok ==> exists|now: String|
                is_timestamp(now@) && final(self).envs@ == #[trigger] probed(
                    old(self).envs@,
                    id@,
                    *probe,
                    now,
                ),
    {
        match crate::clock::now() {
            None => Err(VmnError::ClockUnavailable),
            Some(now) => {
                self.update_probe_at(id, probe, &now);
                Ok(())
            },
        }
    }
}


impl Registry {
    /// Replaces the package snapshot of environment `id` with `pkgs`, each
    /// stamped `now`. Fails, and changes nothing, where `pkgs` is not empty
    /// and no environment has id `id`, or where `pkgs` names a package twice.
    pub fn replace_packages_at(&mut self, id: &String, pkgs: &Vec<PipPackage>, now: &String) -> (res:
        Result<(), VmnError>)
        requires
            old(self).wf(),
        ensures
            final(self).wf(),
            final(self).envs@ == old(self).envs@,
            res is Err <==> (pkgs@.len() > 0 && !has_id(old(self).envs@, id@)) || has_duplicate_name(
                pkgs@,
            ),
            pkgs@.len() > 0 && !has_id(old(self).envs@, id@) ==> res == Err::<(), VmnError>(
                VmnError::UnknownEnvironment { id: *id },
            ),
            has_id(old(self).envs@, id@) && has_duplicate_name(pkgs@) ==> res == Err::<
                (),
                VmnError,
            >(VmnError::DuplicatePackage),
            res is Err ==> final(self).packages@ == old(self).packages@,
            res is Ok ==> final(self).packages@ == replaced(old(self).packages@, *id, pkgs@, *now),
    {
        if pkgs.len() > 0 && !contains_id(&self.envs, id.as_str()) {
            return Err(VmnError::UnknownEnvironment { id: id.clone() });
        }
        if duplicate_in(pkgs) {
            return Err(VmnError::DuplicatePackage);
        }
        let ghost old_packages = self.packages@;
        let ghost keep = |q: StoredPackage| q.env_id@ != id@;
        let mut kept: Vec<StoredPackage> = Vec::new();
        let mut i: usize = 0;
        while i < self.packages.len()
            invariant
                i <= self.packages.len(),
                keep == (|q: StoredPackage| q.env_id@ != id@),
                kept@ == self.packages@.take(i as int).filter(keep),
            decreases self.packages.len() - i,
        {
            proof {
                lemma_filter_step(self.packages@, i as int, keep);
            }
            if !str_equal(self.packages[i].env_id.as_str(), id.as_str()) {
                kept.push(self.packages[i].clone());
            }
            i = i + 1;
        }
        proof {
            lemma_filter_all(self.packages@, keep);
        }
        let ghost base = kept@;
        let mut j: usize = 0;
        while j < pkgs.len()
            invariant
                j <= pkgs.len(),
                kept@ == base + pkgs@.take(j as int).map_values(|p: PipPackage| stored(*id, p, *now)),
            decreases pkgs.len() - j,
        {
            let entry = StoredPackage {
                env_id: id.clone(),
                name: pkgs[j].name.clone(),
                version: pkgs[j].version.clone(),
                captured_at: now.clone(),
            };
            kept.push(entry);
            proof {
                assert(pkgs@.take(j + 1).map_values(|p: PipPackage| stored(*id, p, *now))
                    =~= pkgs@.take(j as int).map_values(|p: PipPackage| stored(*id, p, *now)).push(
                    stored(*id, pkgs@[j as int], *now),
                ));
            }
            j = j + 1;
        }
        proof {
            assert(pkgs@.take(pkgs.len() as int) =~= pkgs@);
            let key = |q: StoredPackage| (q.env_id@, q.name@);
            lemma_filter_keys_distinct(old_packages, keep, key);
            let added = pkgs@.map_values(|p: PipPackage| stored(*id, p, *now));
            assert forall|a: int, b: int|
                0 <= a < kept@.len() && 0 <= b < kept@.len() && a != b implies !((
            #[trigger] kept@[a]).env_id@ == (#[trigger] kept@[b]).env_id@ && kept@[a].name@
                == kept@[b].name@) by {
                if a < base.len() && b < base.len() {
                    assert(key(base[a]) != key(base[b]));
                } else if a >= base.len() && b >= base.len() {
                    assert(kept@[a] == added[a - base.len()]);
                    assert(kept@[b] == added[b - base.len()]);
                    if a < b {
                        assert(pkgs@[a - base.len()].name@ != pkgs@[b - base.len()].name@);
                    } else {
                        assert(pkgs@[b - base.len()].name@ != pkgs@[a - base.len()].name@);
                    }
                } else if a < base.len() {
                    broadcast use vstd::seq_lib::group_filter_ensures;
                    assert(keep(base[a]));
                    assert(kept@[b] == added[b - base.len()]);
                } else {
                    broadcast use vstd::seq_lib::group_filter_ensures;
                    assert(keep(base[b]));
                    assert(kept@[a] == added[a - base.len()]);
                }
            }
            assert forall|a: int| 0 <= a < kept@.len() implies has_id(
                self.envs@,
                (#[trigger] kept@[a]).env_id@,
            ) by {
                if a < base.len() {
                    old_packages.lemma_filter_contains_rev(keep, base[a]);
                    let k = choose|k: int| 0 <= k < old_packages.len() && old_packages[k] == base[a];
                    assert(has_id(self.envs@, old_packages[k].env_id@));
                } else {
                    assert(kept@[a] == added[a - base.len()]);
                }
            }
        }
        self.packages = kept;
        Ok(())
    }

    /// Replaces the package snapshot of environment `id`, stamping the
    /// current time. Fails with `ClockUnavailable`, changing nothing, where
    /// the clock cannot be read.
    pub fn replace_packages(&mut self, id: &String, pkgs: &Vec<PipPackage>) -> (res: Result<
        (),
        VmnError,
    >)
        requires
            old(self).wf(),
        ensures
            final(self).wf(),
            final(self).envs@ == old(self).envs@,
            res is Err ==> final(self).packages@ == old(self).packages@,
            res != Err::<(), VmnError>(VmnError::ClockUnavailable) ==> {
                &&& res is Err <==> (pkgs@.len() > 0 && !has_id(old(self).envs@, id@))
                    || has_duplicate_name(pkgs@)
                &&& pkgs@.len() > 0 && !has_id(old(self).envs@, id@) ==> res == Err::<(), VmnError>(
                    VmnError::UnknownEnvironment { id: *id },
                )
                &&& has_id(old(self).envs@, id@) && has_duplicate_name(pkgs@) ==> res == Err::<
                    (),
                    VmnError,
                >(VmnError::DuplicatePackage)
            },
            res is Ok ==> exists|now: String|
                is_timestamp(now@) && final(self).packages@ == #[trigger] replaced(
                    old(self).packages@,
                    *id,
                    pkgs@,
                    now,
                ),
    {
        match crate::clock::now() {
            None => Err(VmnError::ClockUnavailable),
            Some(now) => self.replace_packages_at(id, pkgs, &now),
        }
    }

    /// The number of packages in the snapshot of environment `id`.
    pub fn package_count(&self, id: &str) -> (res: usize)
        ensures
            res == packages_of(self.packages@, id@).len(),
    {
        let ghost p = |q: StoredPackage| q.env_id@ == id@;
        let mut count: usize = 0;
        let mut i: usize = 0;
        while i < self.packages.len()
            invariant
                i <= self.packages.len(),
                p == (|q: StoredPackage| q.env_id@ == id@),
                count == self.packages@.take(i as int).filter(p).len(),
                count <= i,
            decreases self.packages.len() - i,
        {
            proof {
                lemma_filter_step(self.packages@, i as int, p);
            }
            if str_equal(self.packages[i].env_id.as_str(), id) {
                count = count + 1;
            }
            i = i + 1;
        }
        proof {
            lemma_filter_all(self.packages@, p);
        }
        count
    }

    /// The snapshot of environment `id`, by folded package name.
    pub fn packages(&self, id: &str) -> (res: Vec<PackageRecord>)
        ensures
            res@.to_multiset() == packages_of(self.packages@, id@).map_values(
                |q: StoredPackage| record_of(q),
            ).to_multiset(),
            sorted_by::<PackageRecord, ByPackageName>(res@),
    {
        let ghost p = |q: StoredPackage| q.env_id@ == id@;
        let mut out: Vec<PackageRecord> = Vec::new();
        let mut i: usize = 0;
        while i < self.packages.len()
            invariant
                i <= self.packages.len(),
                p == (|q: StoredPackage| q.env_id@ == id@),
                out@ == self.packages@.take(i as int).filter(p).map_values(
                    |q: StoredPackage| record_of(q),
                ),
            decreases self.packages.len() - i,
        {
            proof {
                lemma_filter_step(self.packages@, i as int, p);
            }
            if str_equal(self.packages[i].env_id.as_str(), id) {
                let q = &self.packages[i];
                out.push(
                    PackageRecord {
                        name: q.name.clone(),
                        version: q.version.clone(),
                        captured_at: q.captured_at.clone(),
                    },
                );
                proof {
                    let f = self.packages@.take(i as int).filter(p);
                    assert(f.push(self.packages@[i as int]).map_values(
                        |q: StoredPackage| record_of(q),
                    ) =~= f.map_values(|q: StoredPackage| record_of(q)).push(
                        record_of(self.packages@[i as int]),
                    ));
                }
            }
            i = i + 1;
        }
        proof {
            lemma_filter_all(self.packages@, p);
        }
        sort_by_order::<PackageRecord, ByPackageName>(out)
    }

    /// Deletes the records whose id is in `ids`, and their packages.
    pub fn delete_environments(&mut self, ids: &Vec<String>)
        requires
            old(self).wf(),
        ensures
            final(self).wf(),
            final(self).envs@ == old(self).envs@.filter(|e: Environment| !listed(ids@, e.id@)),
            final(self).packages@ == old(self).packages@.filter(
                |q: StoredPackage| !listed(ids@, q.env_id@),
            ),
    {
        let ghost old_envs = self.envs@;
        let ghost old_packages = self.packages@;
        let ghost pe = |e: Environment| !listed(ids@, e.id@);
        let ghost pq = |q: StoredPackage| !listed(ids@, q.env_id@);
        let mut envs: Vec<Environment> = Vec::new();
        let mut i: usize = 0;
        while i < self.envs.len()
            invariant
                i <= self.envs.len(),
                pe == (|e: Environment| !listed(ids@, e.id@)),
                envs@ == self.envs@.take(i as int).filter(pe),
            decreases self.envs.len() - i,
        {
            proof {
                lemma_filter_step(self.envs@, i as int, pe);
            }
            if !ids_contain(ids, self.envs[i].id.as_str()) {
                envs.push(self.envs[i].clone());
            }
            i = i + 1;
        }
        let mut packages: Vec<StoredPackage> = Vec::new();
        let mut i: usize = 0;
        while i < self.packages.len()
            invariant
                i <= self.packages.len(),
                pq == (|q: StoredPackage| !listed(ids@, q.env_id@)),
                packages@ == self.packages@.take(i as int).filter(pq),
            decreases self.packages.len() - i,
        {
            proof {
                lemma_filter_step(self.packages@, i as int, pq);
            }
            if !ids_contain(ids, self.packages[i].env_id.as_str()) {
                packages.push(self.packages[i].clone());
            }
            i = i + 1;
        }
        proof {
            lemma_filter_all(old_envs, pe);
            lemma_filter_all(old_packages, pq);
            lemma_filter_keys_distinct(old_envs, pe, |e: Environment| e.id@);
            lemma_filter_keys_distinct(old_envs, pe, |e: Environment| e.path@);
            lemma_filter_keys_distinct(old_packages, pq, |q: StoredPackage| (q.env_id@, q.name@));
            let ne = envs@;
            let np = packages@;
            assert forall|a: int, b: int|
                0 <= a < ne.len() && 0 <= b < ne.len() && a != b implies (#[trigger] ne[a]).id@
                != (#[trigger] ne[b]).id@ && ne[a].path@ != ne[b].path@ by {
                assert((|e: Environment| e.id@)(ne[a]) != (|e: Environment| e.id@)(ne[b]));
                assert((|e: Environment| e.path@)(ne[a]) != (|e: Environment| e.path@)(ne[b]));
            }
            assert forall|a: int, b: int|
                0 <= a < np.len() && 0 <= b < np.len() && a != b implies !((
            #[trigger] np[a]).env_id@ == (#[trigger] np[b]).env_id@ && np[a].name@ == np[b].name@) by {
                assert((|q: StoredPackage| (q.env_id@, q.name@))(np[a]) != (|q: StoredPackage|
                    (q.env_id@, q.name@))(np[b]));
            }
            assert forall|a: int| 0 <= a < np.len() implies has_id(ne, (#[trigger] np[a]).env_id@) by {
                broadcast use vstd::seq_lib::group_filter_ensures;
                old_packages.lemma_filter_contains_rev(pq, np[a]);
                let k = choose|k: int| 0 <= k < old_packages.len() && old_packages[k] == np[a];
                let m = choose|m: int|
                    0 <= m < old_envs.len() && (#[trigger] old_envs[m]).id@ == old_packages[k].env_id@;
                assert(pq(np[a]));
                old_envs.lemma_filter_contains(pe, m);
                let n = choose|n: int| 0 <= n < ne.len() && ne[n] == old_envs[m];
                assert(ne[n].id@ == np[a].env_id@);
            }
        }
        self.envs = envs;
        self.packages = packages;
    }

    /// Names held by more than one record that is not deleted, with how many
    /// records hold each, by folded name.
    pub fn duplicate_names(&self) -> (res: Vec<(String, usize)>)
        ensures
            sorted_by::<(String, usize), ByFoldedName>(res@),
            forall|k: int|
                0 <= k < res@.len() ==> (#[trigger] res@[k]).1 == live_named(self.envs@, res@[k].0@).len()
                    && res@[k].1 > 1,
            forall|k: int, m: int|
                0 <= k < res@.len() && 0 <= m < res@.len() && k != m ==> (#[trigger] res@[k]).0@
                    != (#[trigger] res@[m]).0@,
            forall|i: int|
                0 <= i < self.envs@.len() && live_named(self.envs@, (#[trigger] self.envs@[i]).name@).len()
                    > 1 ==> exists|k: int| 0 <= k < res@.len() && (#[trigger] res@[k]).0@ == self.envs@[i].name@,
    {
        let mut out: Vec<(String, usize)> = Vec::new();
        let mut i: usize = 0;
        while i < self.envs.len()
            invariant
                i <= self.envs.len(),
                forall|k: int|
                    0 <= k < out@.len() ==> (#[trigger] out@[k]).1 == live_named(self.envs@, out@[k].0@).len()
                        && out@[k].1 > 1,
                forall|k: int, m: int|
                    0 <= k < out@.len() && 0 <= m < out@.len() && k != m ==> (#[trigger] out@[k]).0@
                        != (#[trigger] out@[m]).0@,
                forall|a: int|
                    0 <= a < i && live_named(self.envs@, (#[trigger] self.envs@[a]).name@).len() > 1
                        ==> exists|k: int| 0 <= k < out@.len() && (#[trigger] out@[k]).0@ == self.envs@[a].name@,
            decreases self.envs.len() - i,
        {
            let name = self.envs[i].name.as_str();
            let mut seen = false;
            let mut k: usize = 0;
            while k < out.len()
                invariant
                    k <= out.len(),
                    seen == exists|m: int| 0 <= m < k && (#[trigger] out@[m]).0@ == name@,
                decreases out.len() - k,
            {
                if str_equal(out[k].0.as_str(), name) {
                    seen = true;
                }
                k = k + 1;
            }
            let ghost before = out@;
            if !seen {
                let count = self.live_count(name);
                if count > 1 {
                    out.push((self.envs[i].name.clone(), count));
                }
            }
            proof {
                assert forall|a: int|
                    0 <= a < i + 1 && live_named(self.envs@, (#[trigger] self.envs@[a]).name@).len()
                        > 1 implies exists|k: int|
                    0 <= k < out@.len() && (#[trigger] out@[k]).0@ == self.envs@[a].name@ by {
                    if a < i {
                        let k = choose|k: int|
                            0 <= k < before.len() && (#[trigger] before[k]).0@ == self.envs@[a].name@;
                        assert(out@[k] == before[k]);
                    } else if seen {
                        let k = choose|k: int| 0 <= k < before.len() && (#[trigger] before[k]).0@ == name@;
                        assert(out@[k] == before[k]);
                    } else {
                        assert(out@[before.len() as int].0@ == name@);
                    }
                }
            }
            i = i + 1;
        }
        let res = sort_duplicates(out);
        proof {
            crate::order::lemma_permutation_keys_distinct(out@, res@, |x: (String, usize)| x.0@);
            assert forall|k: int, m: int|
                0 <= k < res@.len() && 0 <= m < res@.len() && k != m implies (#[trigger] res@[k]).0@
                    != (#[trigger] res@[m]).0@ by {
                assert((|x: (String, usize)| x.0@)(res@[k]) != (|x: (String, usize)| x.0@)(res@[m]));
            }
            assert forall|k: int| 0 <= k < res@.len() implies (#[trigger] res@[k]).1 == live_named(
                self.envs@,
                res@[k].0@,
            ).len() && res@[k].1 > 1 by {
                let m = choose|m: int| 0 <= m < out@.len() && out@[m] == res@[k];
            }
            assert forall|a: int|
                0 <= a < self.envs@.len() && live_named(self.envs@, (#[trigger] self.envs@[a]).name@).len()
                    > 1 implies exists|k: int| 0 <= k < res@.len() && (#[trigger] res@[k]).0@ == self.envs@[a].name@ by {
                let m = choose|m: int| 0 <= m < out@.len() && (#[trigger] out@[m]).0@ == self.envs@[a].name@;
                assert(res@.contains(out@[m]));
            }
        }
        res
    }

    /// The number of records named `name` that are not deleted.
    fn live_count(&self, name: &str) -> (res: usize)
        ensures
            res == live_named(self.envs@, name@).len(),
    {
        let ghost p = |e: Environment| e.status != EnvStatus::Deleted && e.name@ == name@;
        let mut count: usize = 0;
        let mut i: usize = 0;
        while i < self.envs.len()
            invariant
                i <= self.envs.len(),
                p == (|e: Environment| e.status != EnvStatus::Deleted && e.name@ == name@),
                count == self.envs@.take(i as int).filter(p).len(),
                count <= i,
            decreases self.envs.len() - i,
        {
            proof {
                lemma_filter_step(self.envs@, i as int, p);
            }
            if self.envs[i].status != EnvStatus::Deleted && str_equal(self.envs[i].name.as_str(), name) {
                count = count + 1;
            }
            i = i + 1;
        }
        proof {
            lemma_filter_all(self.envs@, p);
        }
        count
    }
}

/// Sorts the duplicate-name report by folded name, keeping what each entry
/// states.
fn sort_duplicates(v: Vec<(String, usize)>) -> (res: Vec<(String, usize)>)
    ensures
        sorted_by::<(String, usize), ByFoldedName>(res@),
        res@.to_multiset() == v@.to_multiset(),
        forall|k: int| 0 <= k < res@.len() ==> v@.contains(#[trigger] res@[k]),
        forall|k: int| 0 <= k < v@.len() ==> res@.contains(#[trigger] v@[k]),
        res@.len() == v@.len(),
{
    broadcast use vstd::seq_lib::group_to_multiset_ensures;

    let res = sort_by_order::<(String, usize), ByFoldedName>(v);
    proof {
        vstd::seq_lib::to_multiset_len(v@);
        vstd::seq_lib::to_multiset_len(res@);
        assert forall|k: int| 0 <= k < res@.len() implies v@.contains(#[trigger] res@[k]) by {
            assert(res@.to_multiset().count(res@[k]) > 0);
        }
        assert forall|k: int| 0 <= k < v@.len() implies res@.contains(#[trigger] v@[k]) by {
            assert(v@.to_multiset().count(v@[k]) > 0);
        }
    }
    res
}

/// Whether two entries of `pkgs` share a name.
fn duplicate_in(pkgs: &Vec<PipPackage>) -> (res: bool)
    ensures
        res == has_duplicate_name(pkgs@),
{
    let mut j: usize = 0;
    while j < pkgs.len()
        invariant
            j <= pkgs.len(),
            forall|a: int, b: int| 0 <= a < b < j ==> (#[trigger] pkgs@[a]).name@ != (#[trigger] pkgs@[b]).name@,
        decreases pkgs.len() - j,
    {
        let mut a: usize = 0;
        while a < j
            invariant
                a <= j < pkgs.len(),
                forall|c: int| 0 <= c < a ==> (#[trigger] pkgs@[c]).name@ != pkgs@[j as int].name@,
            decreases j - a,
        {
            if str_equal(pkgs[a].name.as_str(), pkgs[j].name.as_str()) {
                assert(pkgs@[a as int].name@ == pkgs@[j as int].name@);
                return true;
            }
            a = a + 1;
        }
        j = j + 1;
    }
    false
}

/// Filtering keeps keys apart that were apart.
proof fn lemma_filter_keys_distinct<A, K>(s: Seq<A>, p: spec_fn(A) -> bool, key: spec_fn(A) -> K)
    requires
        forall|i: int, j: int|
            0 <= i < s.len() && 0 <= j < s.len() && i != j ==> key(#[trigger] s[i]) != key(
                #[trigger] s[j],
            ),
    ensures
        forall|i: int, j: int|
            0 <= i < s.filter(p).len() && 0 <= j < s.filter(p).len() && i != j ==> key(
                #[trigger] s.filter(p)[i],
            ) != key(#[trigger] s.filter(p)[j]),
    decreases s.len(),
{
    reveal_with_fuel(Seq::filter, 1);
    if s.len() > 0 {
        let r = s.drop_last();
        lemma_filter_keys_distinct(r, p, key);
        let f = r.filter(p);
        if p(s.last()) {
            let g = f.push(s.last());
            assert(s.filter(p) == g);
            assert forall|i: int, j: int|
                0 <= i < g.len() && 0 <= j < g.len() && i != j implies key(#[trigger] g[i]) != key(
                #[trigger] g[j],
            ) by {
                if i < f.len() && j < f.len() {
                } else if i < f.len() {
                    r.lemma_filter_contains_rev(p, f[i]);
                    let k = choose|k: int| 0 <= k < r.len() && r[k] == f[i];
                    assert(s[k] == r[k]);
                    assert(key(s[k]) != key(s[s.len() - 1]));
                } else {
                    r.lemma_filter_contains_rev(p, f[j]);
                    let k = choose|k: int| 0 <= k < r.len() && r[k] == f[j];
                    assert(s[k] == r[k]);
                    assert(key(s[k]) != key(s[s.len() - 1]));
                }
            }
        }
    }
}

/// Records changed field by field keep their ids and paths, so the schema's
/// rules still hold.
proof fn lemma_same_keys(a: Seq<Environment>, b: Seq<Environment>, p: Seq<StoredPackage>)
    requires
        envs_wf(a),
        packages_wf(a, p),
        a.len() == b.len(),
        forall|k: int| 0 <= k < a.len() ==> (#[trigger] b[k]).id == a[k].id && b[k].path == a[k].path,
    ensures
        envs_wf(b),
        packages_wf(b, p),
{
    assert forall|i: int, j: int|
        0 <= i < b.len() && 0 <= j < b.len() && i != j implies (#[trigger] b[i]).id@ != (
    #[trigger] b[j]).id@ && b[i].path@ != b[j].path@ by {
        assert(b[i].id == a[i].id && b[j].id == a[j].id);
        assert(b[i].path == a[i].path && b[j].path == a[j].path);
    }
    assert forall|q: int| 0 <= q < p.len() implies has_id(b, (#[trigger] p[q]).env_id@) by {
        let k = choose|k: int| 0 <= k < a.len() && (#[trigger] a[k]).id@ == p[q].env_id@;
        assert(b[k].id == a[k].id);
    }
}

} // verus!
