//! Properties that hold across the registry's operations.
use vstd::prelude::*;
use crate::model::{
    Probe, EnvSource, EnvStatus, Environment, NewEnvironment, PipPackage, StatusFilter, StoredPackage,
    filter_admits, source_from_text, source_text, status_from_text, status_text,
};
use crate::paths::{activation_script_of, path_join};
use crate::registry::{envs_wf, has_path, listed, live_named, marked, matches_of, merged, packages_of,
    path_index, probed, replaced, selector_matches, stored, upsert_refused, upsert_row, upserted,
    used};
use crate::ops::{is_created_record, is_scanned_record};
use crate::order::{Order, sorted_by};
use crate::paths::{file_name_of, last_slash};
use crate::python::{ByVersionThenPath, PythonInterpreter, version_key_of};
use crate::text::{ascii_lower, lemma_text_order_antisym, starts_with, text_order};
use crate::listing::{ByListOrder, lemma_list_order};

verus! {

/// After an upsert that is not refused, the record under the upserted path
/// is the one the upsert reports, and paths and ids stay unique.
pub proof fn lemma_upsert_then_find(s: Seq<Environment>, n: NewEnvironment)
    requires
        envs_wf(s),
        !upsert_refused(s, n),
    ensures
        envs_wf(upserted(s, n)),
        has_path(upserted(s, n), n.path@),
        upserted(s, n)[path_index(upserted(s, n), n.path@)] == upsert_row(s, n),
{
    let u = upserted(s, n);
    if has_path(s, n.path@) {
        let k = path_index(s, n.path@);
        assert(u[k] == merged(s[k], n));
        assert(u[k].path@ == n.path@);
        let j = path_index(u, n.path@);
        assert(u[j].path == s[j].path) by {
            if s[j].path@ == n.path@ {
            }
        }
        assert(j == k);
        assert forall|a: int, b: int|
            0 <= a < u.len() && 0 <= b < u.len() && a != b implies (#[trigger] u[a]).id@ != (
        #[trigger] u[b]).id@ && u[a].path@ != u[b].path@ by {
            assert(u[a].id == s[a].id && u[a].path == s[a].path);
            assert(u[b].id == s[b].id && u[b].path == s[b].path);
        }
    } else {
        let last = s.len() as int;
        assert(u[last].path@ == n.path@);
        let j = path_index(u, n.path@);
        assert(j == last);
    }
}

/// Upserting the same record twice leaves the registry as upserting it
/// once does.
pub proof fn lemma_upsert_idempotent(s: Seq<Environment>, n: NewEnvironment)
    requires
        envs_wf(s),
        !upsert_refused(s, n),
    ensures
        upserted(upserted(s, n), n) == upserted(s, n),
        upsert_row(upserted(s, n), n) == upsert_row(s, n),
{
    lemma_upsert_then_find(s, n);
    let u = upserted(s, n);
    assert(has_path(u, n.path@));
    assert forall|k: int| 0 <= k < u.len() && (#[trigger] u[k]).path@ == n.path@ implies merged(
        u[k],
        n,
    ) == u[k] by {
        if has_path(s, n.path@) {
            assert(u[k] == merged(s[k], n));
        } else {
            if k < s.len() {
                assert(u[k] == s[k]);
            }
        }
    }
    assert(upserted(u, n) =~= u);
}

/// An upsert of a known path keeps the number of records; one of a new path
/// adds exactly one.
pub proof fn lemma_upsert_count(s: Seq<Environment>, n: NewEnvironment)
    requires
        !upsert_refused(s, n),
    ensures
        has_path(s, n.path@) ==> upserted(s, n).len() == s.len(),
        !has_path(s, n.path@) ==> upserted(s, n).len() == s.len() + 1,
{
}

/// A selector that does not ask for deleted records never matches one.
pub proof fn lemma_resolve_skips_deleted(s: Seq<Environment>, sel: Seq<char>)
    ensures
        forall|k: int|
            0 <= k < matches_of(s, sel, false).len() ==> (#[trigger] matches_of(
                s,
                sel,
                false,
            )[k]).status != EnvStatus::Deleted,
{
    broadcast use vstd::seq_lib::group_filter_ensures;
}

/// A filter that exactly one element passes leaves that element alone.
proof fn lemma_filter_single<A>(s: Seq<A>, p: spec_fn(A) -> bool, i: int)
    requires
        0 <= i < s.len(),
        p(s[i]),
        forall|j: int| 0 <= j < s.len() && j != i ==> !p(#[trigger] s[j]),
    ensures
        s.filter(p) == seq![s[i]],
    decreases s.len(),
{
    reveal_with_fuel(Seq::filter, 1);
    let r = s.drop_last();
    if i == s.len() - 1 {
        lemma_filter_none(r, p);
        assert(s.filter(p) =~= seq![s[i]]);
    } else {
        lemma_filter_single(r, p, i);
        assert(!p(s.last()));
    }
}

proof fn lemma_filter_none<A>(s: Seq<A>, p: spec_fn(A) -> bool)
    requires
        forall|j: int| 0 <= j < s.len() ==> !p(#[trigger] s[j]),
    ensures
        s.filter(p) == Seq::<A>::empty(),
    decreases s.len(),
{
    reveal_with_fuel(Seq::filter, 1);
    if s.len() > 0 {
        lemma_filter_none(s.drop_last(), p);
        assert(!p(s[s.len() - 1]));
    }
}

/// A full id selects its record, where ids have one length (as the fresh
/// ids the registry makes do) and no record is named like that id.
pub proof fn lemma_full_id_selects(s: Seq<Environment>, i: int)
    requires
        envs_wf(s),
        0 <= i < s.len(),
        s[i].status != EnvStatus::Deleted,
        forall|j: int| 0 <= j < s.len() ==> (#[trigger] s[j]).id@.len() == s[i].id@.len(),
        forall|j: int| 0 <= j < s.len() ==> (#[trigger] s[j]).name@ != s[i].id@,
    ensures
        matches_of(s, s[i].id@, false) == seq![s[i]],
{
    let sel = s[i].id@;
    let p = |e: Environment| selector_matches(e, sel, false);
    assert(sel.take(sel.len() as int) =~= sel);
    assert forall|j: int| 0 <= j < s.len() && j != i implies !p(#[trigger] s[j]) by {
        assert(s[j].id@ != sel);
        if starts_with(s[j].id@, sel) {
            assert(s[j].id@.take(sel.len() as int) =~= s[j].id@);
        }
    }
    lemma_filter_single(s, p, i);
}

/// A name held by one record that is not deleted selects that record, where
/// no id begins with it.
pub proof fn lemma_unique_name_selects(s: Seq<Environment>, i: int)
    requires
        0 <= i < s.len(),
        s[i].status != EnvStatus::Deleted,
        forall|j: int|
            0 <= j < s.len() && j != i && (#[trigger] s[j]).status != EnvStatus::Deleted ==> s[j].name@
                != s[i].name@,
        forall|j: int| 0 <= j < s.len() ==> !starts_with((#[trigger] s[j]).id@, s[i].name@),
    ensures
        matches_of(s, s[i].name@, false) == seq![s[i]],
{
    let sel = s[i].name@;
    let p = |e: Environment| selector_matches(e, sel, false);
    assert forall|j: int| 0 <= j < s.len() && j != i implies !p(#[trigger] s[j]) by {
        if s[j].id@ == sel {
            assert(s[j].id@.take(sel.len() as int) =~= sel);
        }
    }
    lemma_filter_single(s, p, i);
}

/// A prefix of exactly one live record's id selects that record, where no
/// other live record is named like the prefix.
pub proof fn lemma_unique_prefix_selects(s: Seq<Environment>, i: int, sel: Seq<char>)
    requires
        0 <= i < s.len(),
        s[i].status != EnvStatus::Deleted,
        starts_with(s[i].id@, sel),
        forall|j: int|
            0 <= j < s.len() && j != i && (#[trigger] s[j]).status != EnvStatus::Deleted ==> !starts_with(
                s[j].id@,
                sel,
            ) && s[j].name@ != sel,
    ensures
        matches_of(s, sel, false) == seq![s[i]],
{
    let p = |e: Environment| selector_matches(e, sel, false);
    assert forall|j: int| 0 <= j < s.len() && j != i implies !p(#[trigger] s[j]) by {
        if s[j].id@ == sel && s[j].status != EnvStatus::Deleted {
            assert(s[j].id@.take(sel.len() as int) =~= sel);
        }
    }
    lemma_filter_single(s, p, i);
}

/// Marking a record changes its status and update time only: it stays in
/// the registry. Marked deleted, it leaves the default listing and can no
/// longer be selected without asking for deleted records.
pub proof fn lemma_mark_deleted_hides(s: Seq<Environment>, id: Seq<char>, now: String, sel: Seq<char>)
    ensures
        marked(s, id, EnvStatus::Deleted, now).len() == s.len(),
        forall|k: int|
            0 <= k < s.len() ==> (#[trigger] marked(s, id, EnvStatus::Deleted, now)[k]).path
                == s[k].path && marked(s, id, EnvStatus::Deleted, now)[k].id == s[k].id,
        forall|k: int|
            0 <= k < s.len() && s[k].id@ == id ==> !filter_admits(
                StatusFilter::ActiveOnly,
                (#[trigger] marked(s, id, EnvStatus::Deleted, now)[k]).status,
            ) && !selector_matches(marked(s, id, EnvStatus::Deleted, now)[k], sel, false),
{
}

proof fn lemma_filter_all_pass<A>(s: Seq<A>, p: spec_fn(A) -> bool)
    requires
        forall|j: int| 0 <= j < s.len() ==> p(#[trigger] s[j]),
    ensures
        s.filter(p) == s,
    decreases s.len(),
{
    reveal_with_fuel(Seq::filter, 1);
    if s.len() > 0 {
        lemma_filter_all_pass(s.drop_last(), p);
        assert(p(s[s.len() - 1]));
        assert(s.drop_last().push(s.last()) =~= s);
    }
}

/// After a snapshot is replaced, reading that environment's packages gives
/// exactly the new snapshot, in the order it was given.
pub proof fn lemma_replace_then_read(
    p: Seq<StoredPackage>,
    id: String,
    pkgs: Seq<PipPackage>,
    now: String,
)
    ensures
        packages_of(replaced(p, id, pkgs, now), id@) == pkgs.map_values(
            |q: PipPackage| stored(id, q, now),
        ),
        packages_of(replaced(p, id, pkgs, now), id@).len() == pkgs.len(),
{
    let keep = |q: StoredPackage| q.env_id@ != id@;
    let mine = |q: StoredPackage| q.env_id@ == id@;
    let rest = p.filter(keep);
    let added = pkgs.map_values(|q: PipPackage| stored(id, q, now));
    Seq::filter_distributes_over_add(rest, added, mine);
    broadcast use vstd::seq_lib::group_filter_ensures;
    lemma_filter_none(rest, mine);
    lemma_filter_all_pass(added, mine);
    assert(Seq::<StoredPackage>::empty() + added =~= added);
}

proof fn lemma_filter_congruent<A>(s: Seq<A>, p: spec_fn(A) -> bool, q: spec_fn(A) -> bool)
    requires
        forall|j: int| 0 <= j < s.len() ==> p(#[trigger] s[j]) == q(s[j]),
    ensures
        s.filter(p) == s.filter(q),
    decreases s.len(),
{
    reveal_with_fuel(Seq::filter, 1);
    if s.len() > 0 {
        lemma_filter_congruent(s.drop_last(), p, q);
        assert(p(s[s.len() - 1]) == q(s[s.len() - 1]));
    }
}

/// Pruning deletes exactly the records whose status was chosen: deleting
/// the ids of a listing by status keeps every record of another status, so
/// no active record is ever pruned by `prune_statuses`.
pub proof fn lemma_prune_by_status(
    envs: Seq<Environment>,
    statuses: Seq<EnvStatus>,
    records: Seq<Environment>,
    ids: Seq<String>,
)
    requires
        envs_wf(envs),
        records.to_multiset() == envs.filter(|e: Environment| statuses.contains(e.status)).to_multiset(),
        ids.len() == records.len(),
        forall|k: int| 0 <= k < ids.len() ==> (#[trigger] ids[k])@ == records[k].id@,
    ensures
        forall|i: int|
            0 <= i < envs.len() ==> listed(ids, (#[trigger] envs[i]).id@) == statuses.contains(
                envs[i].status,
            ),
        envs.filter(|e: Environment| !listed(ids, e.id@)) == envs.filter(
            |e: Environment| !statuses.contains(e.status),
        ),
{
    broadcast use vstd::seq_lib::group_to_multiset_ensures;

    let chosen = |e: Environment| statuses.contains(e.status);
    let f = envs.filter(chosen);
    broadcast use vstd::seq_lib::group_filter_ensures;
    assert forall|i: int|
        0 <= i < envs.len() implies listed(ids, (#[trigger] envs[i]).id@) == statuses.contains(
        envs[i].status,
    ) by {
        if statuses.contains(envs[i].status) {
            assert(f.contains(envs[i]));
            assert(f.to_multiset().count(envs[i]) > 0);
            assert(records.to_multiset().count(envs[i]) > 0);
            assert(records.contains(envs[i]));
            let k = choose|k: int| 0 <= k < records.len() && records[k] == envs[i];
            assert(ids[k]@ == envs[i].id@);
        }
        if listed(ids, envs[i].id@) {
            let k = choose|k: int| 0 <= k < ids.len() && (#[trigger] ids[k])@ == envs[i].id@;
            assert(records.to_multiset().count(records[k]) > 0);
            assert(f.to_multiset().count(records[k]) > 0);
            assert(f.contains(records[k]));
            envs.lemma_filter_contains_rev(chosen, records[k]);
            let j = choose|j: int| 0 <= j < envs.len() && envs[j] == records[k];
            assert(envs[j].id@ == envs[i].id@);
            assert(j == i);
            let m = choose|m: int| 0 <= m < f.len() && f[m] == records[k];
            assert(chosen(f[m]));
        }
    }
    lemma_filter_congruent(
        envs,
        |e: Environment| !listed(ids, e.id@),
        |e: Environment| !statuses.contains(e.status),
    );
}

/// The packages that survive deleting the records `ids`.
pub open spec fn surviving_packages(p: Seq<StoredPackage>, ids: Seq<String>) -> Seq<StoredPackage> {
    p.filter(|q: StoredPackage| !listed(ids, q.env_id@))
}

/// Deleting records deletes their packages with them.
pub proof fn lemma_delete_cascades(p: Seq<StoredPackage>, ids: Seq<String>)
    ensures
        forall|k: int|
            0 <= k < surviving_packages(p, ids).len() ==> !listed(
                ids,
                (#[trigger] surviving_packages(p, ids)[k]).env_id@,
            ),
{
    broadcast use vstd::seq_lib::group_filter_ensures;
}

/// The stored text of a source or status reads back as the same source or
/// status.
pub proof fn lemma_stored_text_roundtrip(s: EnvSource, t: EnvStatus)
    ensures
        source_from_text(source_text(s)) == Some(s),
        status_from_text(status_text(t)) == Some(t),
{
    reveal_strlit("managed");
    reveal_strlit("scanned");
    reveal_strlit("manual");
    reveal_strlit("active");
    reveal_strlit("missing");
    reveal_strlit("deleted");
    assert("managed"@[0] != "scanned"@[0]);
    assert("managed"@[3] != "manual"@[3]);
    assert("scanned"@[0] != "manual"@[0]);
    assert("active"@[0] != "missing"@[0]);
    assert("active"@[0] != "deleted"@[0]);
    assert("missing"@[0] != "deleted"@[0]);
}

/// A venv's activation script is `<root>/bin/activate`.
pub proof fn lemma_activation_script_path(root: Seq<char>)
    requires
        root.len() > 0,
        root.last() != '/',
    ensures
        activation_script_of(root) == root + "/bin/activate"@,
{
    reveal_strlit("bin");
    reveal_strlit("activate");
    reveal_strlit("/bin/activate");
    let bin = path_join(root, "bin"@);
    assert(bin == root + seq!['/'] + "bin"@);
    assert(bin.last() == 'n');
    assert(path_join(bin, "activate"@) =~= root + "/bin/activate"@);
}

/// The fields of a record that only its identity and history hold: all
/// but status, versions, update time and last use.
pub open spec fn same_identity(a: Environment, b: Environment) -> bool {
    &&& a.id == b.id
    &&& a.name == b.name
    &&& a.path == b.path
    &&& a.project_dir == b.project_dir
    &&& a.source == b.source
    &&& a.created_at == b.created_at
    &&& a.last_scanned_at == b.last_scanned_at
}

/// Recording a use of record `id` at `now` sets its last use to `now`,
/// whatever it held before, and its update time to `now`; nothing else of it
/// changes, and every other record stays as it was.
pub proof fn lemma_use_recorded(s: Seq<Environment>, id: Seq<char>, now: String)
    ensures
        used(s, id, now).len() == s.len(),
        forall|i: int|
            0 <= i < s.len() && s[i].id@ == id ==> {
                let r = #[trigger] used(s, id, now)[i];
                &&& r.last_used_at == Some(now)
                &&& r.updated_at == now
                &&& same_identity(r, s[i])
                &&& r.status == s[i].status
                &&& r.python_version == s[i].python_version
                &&& r.pip_version == s[i].pip_version
            },
        forall|i: int| 0 <= i < s.len() && s[i].id@ != id ==> #[trigger] used(s, id, now)[i] == s[i],
{
}

/// Marking record `id` sets its status and update time and nothing else;
/// every other record stays as it was.
pub proof fn lemma_mark_sets_status(s: Seq<Environment>, id: Seq<char>, status: EnvStatus, now: String)
    ensures
        marked(s, id, status, now).len() == s.len(),
        forall|i: int|
            0 <= i < s.len() && s[i].id@ == id ==> {
                let r = #[trigger] marked(s, id, status, now)[i];
                &&& r.status == status
                &&& r.updated_at == now
                &&& same_identity(r, s[i])
                &&& r.last_used_at == s[i].last_used_at
                &&& r.python_version == s[i].python_version
                &&& r.pip_version == s[i].pip_version
            },
        forall|i: int|
            0 <= i < s.len() && s[i].id@ != id ==> #[trigger] marked(s, id, status, now)[i] == s[i],
{
}

/// Storing a probe of record `id` sets its versions to the probe's, makes it
/// active and stamps it; nothing else of it changes, and every other record
/// stays as it was.
pub proof fn lemma_probe_stored(s: Seq<Environment>, id: Seq<char>, probe: Probe, now: String)
    ensures
        probed(s, id, probe, now).len() == s.len(),
        forall|i: int|
            0 <= i < s.len() && s[i].id@ == id ==> {
                let r = #[trigger] probed(s, id, probe, now)[i];
                &&& r.python_version == probe.python_version
                &&& r.pip_version == probe.pip_version
                &&& r.status == EnvStatus::Active
                &&& r.updated_at == now
                &&& same_identity(r, s[i])
                &&& r.last_used_at == s[i].last_used_at
            },
        forall|i: int|
            0 <= i < s.len() && s[i].id@ != id ==> #[trigger] probed(s, id, probe, now)[i] == s[i],
{
}

proof fn lemma_filter_keeps_all<A>(s: Seq<A>, p: spec_fn(A) -> bool)
    requires
        forall|j: int| 0 <= j < s.len() ==> p(#[trigger] s[j]),
    ensures
        s.filter(p) == s,
    decreases s.len(),
{
    reveal_with_fuel(Seq::filter, 1);
    if s.len() > 0 {
        lemma_filter_keeps_all(s.drop_last(), p);
        assert(p(s[s.len() - 1]));
        assert(s.drop_last().push(s.last()) =~= s);
    }
}

/// Replacing the snapshot of environment `id` leaves the packages of every
/// other environment as they were, in the same order; the snapshot of `id`
/// becomes exactly the given packages, stamped `now`.
pub proof fn lemma_replace_keeps_others(
    p: Seq<StoredPackage>,
    id: String,
    pkgs: Seq<PipPackage>,
    now: String,
)
    ensures
        replaced(p, id, pkgs, now).filter(|q: StoredPackage| q.env_id@ != id@) == p.filter(
            |q: StoredPackage| q.env_id@ != id@,
        ),
        replaced(p, id, pkgs, now).filter(|q: StoredPackage| q.env_id@ == id@) == pkgs.map_values(
            |q: PipPackage| StoredPackage { env_id: id, name: q.name, version: q.version, captured_at: now },
        ),
{
    let other = |q: StoredPackage| q.env_id@ != id@;
    let mine = |q: StoredPackage| q.env_id@ == id@;
    let kept = p.filter(other);
    let added = pkgs.map_values(|q: PipPackage| stored(id, q, now));
    assert(replaced(p, id, pkgs, now) == kept + added);
    Seq::filter_distributes_over_add(kept, added, other);
    Seq::filter_distributes_over_add(kept, added, mine);
    broadcast use vstd::seq_lib::group_filter_ensures;

    assert forall|j: int| 0 <= j < kept.len() implies other(#[trigger] kept[j]) by {}
    lemma_filter_keeps_all(kept, other);
    assert forall|j: int| 0 <= j < added.len() implies !other(#[trigger] added[j]) by {}
    lemma_filter_none(added, other);
    assert forall|j: int| 0 <= j < kept.len() implies !mine(#[trigger] kept[j]) by {}
    lemma_filter_none(kept, mine);
    assert forall|j: int| 0 <= j < added.len() implies mine(#[trigger] added[j]) by {}
    lemma_filter_keeps_all(added, mine);
    assert(kept.filter(other) + added.filter(other) =~= kept);
    assert(kept.filter(mine) + added.filter(mine) =~= added);
    assert(added =~= pkgs.map_values(
        |q: PipPackage| StoredPackage { env_id: id, name: q.name, version: q.version, captured_at: now },
    ));
}

proof fn lemma_last_slash_past(a: Seq<char>, c: Seq<char>)
    requires
        forall|j: int| 0 <= j < c.len() ==> c[j] != '/',
    ensures
        last_slash(a + c) == last_slash(a),
    decreases c.len(),
{
    if c.len() > 0 {
        assert((a + c).drop_last() =~= a + c.drop_last());
        assert((a + c).last() == c.last());
        lemma_last_slash_past(a, c.drop_last());
    } else {
        assert(a + c =~= a);
    }
}

/// The final name of `dir/c`, for a name `c` without `/`, is `c`.
proof fn lemma_file_name_of_child(dir: Seq<char>, c: Seq<char>)
    requires
        c.len() > 0,
        c != seq!['.'],
        c != seq!['.', '.'],
        forall|j: int| 0 <= j < c.len() ==> c[j] != '/',
    ensures
        last_slash(dir + seq!['/'] + c) == dir.len(),
        file_name_of(dir + seq!['/'] + c) == Some(c),
{
    let d = dir + seq!['/'];
    lemma_last_slash_past(d, c);
    assert(d.drop_last() =~= dir);
    assert(last_slash(d) == dir.len());
    assert((d + c).skip(dir.len() + 1int) =~= c);
}

/// A venv that a scan finds at `dir/c`, with no record there yet, is named
/// `c`, its own directory's name; for `dir/c/.venv` it is named `c`, its
/// project's name.
pub proof fn lemma_scanned_name(
    n: NewEnvironment,
    dir: Seq<char>,
    c: Seq<char>,
    path: String,
    probe: Probe,
    fresh: String,
    now: String,
)
    requires
        c.len() > 0,
        c != seq!['.'],
        c != seq!['.', '.'],
        forall|j: int| 0 <= j < c.len() ==> c[j] != '/',
        is_scanned_record(n, None, path, probe, fresh, now),
    ensures
        path@ == dir + seq!['/'] + c && c != seq!['.', 'v', 'e', 'n', 'v'] ==> n.name@ == c,
        path@ == dir + seq!['/'] + c + seq!['/', '.', 'v', 'e', 'n', 'v'] ==> n.name@ == c,
{
    if path@ == dir + seq!['/'] + c && c != seq!['.', 'v', 'e', 'n', 'v'] {
        lemma_file_name_of_child(dir, c);
    }
    let v = seq!['.', 'v', 'e', 'n', 'v'];
    if path@ == dir + seq!['/'] + c + seq!['/', '.', 'v', 'e', 'n', 'v'] {
        let q = dir + seq!['/'] + c;
        assert(path@ =~= q + seq!['/'] + v);
        lemma_file_name_of_child(q, v);
        lemma_file_name_of_child(dir, c);
        assert(q.len() > 0);
        assert(path@.take(q.len() as int) =~= q);
    }
}

/// `a`'s version key is later than `b`'s, comparing major, minor and patch
/// numbers in turn.
pub open spec fn newer_key(a: (u64, u64, u64), b: (u64, u64, u64)) -> bool {
    ||| a.0 > b.0
    ||| (a.0 == b.0 && a.1 > b.1)
    ||| (a.0 == b.0 && a.1 == b.1 && a.2 > b.2)
}

/// An interpreter of a later version comes strictly before one of an
/// earlier version, so a sorted list of interpreters is newest first.
pub proof fn lemma_newest_first(a: PythonInterpreter, b: PythonInterpreter, s: Seq<PythonInterpreter>)
    ensures
        newer_key(version_key_of(a.version), version_key_of(b.version)) ==> ByVersionThenPath::le(a, b)
            && !ByVersionThenPath::le(b, a),
        sorted_by::<PythonInterpreter, ByVersionThenPath>(s) ==> forall|i: int, j: int|
            0 <= i < j < s.len() ==> !newer_key(
                version_key_of((#[trigger] s[j]).version),
                version_key_of((#[trigger] s[i]).version),
            ),
{
    if sorted_by::<PythonInterpreter, ByVersionThenPath>(s) {
        assert forall|i: int, j: int| 0 <= i < j < s.len() implies !newer_key(
            version_key_of((#[trigger] s[j]).version),
            version_key_of((#[trigger] s[i]).version),
        ) by {
            assert(ByVersionThenPath::le(s[i], s[j]));
        }
    }
}

/// A live record is one that is not deleted; missing ones count.
pub open spec fn live_with_name(e: Environment, n: Seq<char>) -> bool {
    e.status != EnvStatus::Deleted && e.name@ == n
}

/// The records counted under a name are exactly those with that name that
/// are not deleted, missing ones included.
pub proof fn lemma_live_named_members(s: Seq<Environment>, n: Seq<char>, e: Environment)
    ensures
        live_named(s, n).contains(e) <==> (s.contains(e) && live_with_name(e, n)),
    decreases s.len(),
{
    reveal_with_fuel(Seq::filter, 1);
    if s.len() > 0 {
        let r = s.drop_last();
        lemma_live_named_members(r, n, e);
        assert(s =~= r.push(s.last()));
        if r.contains(e) {
            let k = choose|k: int| 0 <= k < r.len() && r[k] == e;
            assert(s[k] == e);
        }
        if s.contains(e) && !r.contains(e) {
            let k = choose|k: int| 0 <= k < s.len() && s[k] == e;
            if k < s.len() - 1 {
                assert(r[k] == e);
            }
            assert(e == s.last());
        }
        if live_named(s, n).contains(e) && !live_named(r, n).contains(e) {
            let f = live_named(s, n);
            let k = choose|k: int| 0 <= k < f.len() && f[k] == e;
            if live_with_name(s.last(), n) {
                assert(f == live_named(r, n).push(s.last()));
                if k < f.len() - 1 {
                    assert(live_named(r, n)[k] == e);
                }
            } else {
                assert(f == live_named(r, n));
            }
        }
        if live_with_name(s.last(), n) {
            assert(live_named(s, n) == live_named(r, n).push(s.last()));
            assert(live_named(s, n)[live_named(r, n).len() as int] == s.last());
            if live_named(r, n).contains(e) {
                let k = choose|k: int| 0 <= k < live_named(r, n).len() && live_named(r, n)[k] == e;
                assert(live_named(s, n)[k] == e);
            }
        } else {
            assert(live_named(s, n) == live_named(r, n));
        }
    }
}

proof fn lemma_live_named_step(s: Seq<Environment>, n: Seq<char>)
    requires
        s.len() > 0,
    ensures
        live_named(s, n).len() == live_named(s.drop_last(), n).len() + if live_with_name(
            s.last(),
            n,
        ) {
            1int
        } else {
            0int
        },
{
    reveal_with_fuel(Seq::filter, 1);
}

/// No live record holds name `n`: none is counted under it.
pub proof fn lemma_live_named_none(s: Seq<Environment>, n: Seq<char>)
    requires
        forall|j: int| 0 <= j < s.len() ==> !live_with_name(#[trigger] s[j], n),
    ensures
        live_named(s, n).len() == 0,
    decreases s.len(),
{
    reveal_with_fuel(Seq::filter, 1);
    if s.len() > 0 {
        let r = s.drop_last();
        assert forall|j: int| 0 <= j < r.len() implies !live_with_name(#[trigger] r[j], n) by {
            assert(r[j] == s[j]);
        }
        lemma_live_named_none(r, n);
        lemma_live_named_step(s, n);
        assert(!live_with_name(s[s.len() - 1], n));
    }
}

proof fn lemma_live_named_some(s: Seq<Environment>, n: Seq<char>, i: int)
    requires
        0 <= i < s.len(),
        live_with_name(s[i], n),
    ensures
        live_named(s, n).len() >= 1,
    decreases s.len(),
{
    let r = s.drop_last();
    lemma_live_named_step(s, n);
    if i < s.len() - 1 {
        assert(r[i] == s[i]);
        lemma_live_named_some(r, n, i);
    }
}

/// Exactly one live record, `s[i]`, holds name `n`: one is counted.
pub proof fn lemma_live_named_one(s: Seq<Environment>, n: Seq<char>, i: int)
    requires
        0 <= i < s.len(),
        live_with_name(s[i], n),
        forall|j: int| 0 <= j < s.len() && j != i ==> !live_with_name(#[trigger] s[j], n),
    ensures
        live_named(s, n).len() == 1,
    decreases s.len(),
{
    let r = s.drop_last();
    lemma_live_named_step(s, n);
    if i == s.len() - 1 {
        assert forall|j: int| 0 <= j < r.len() implies !live_with_name(#[trigger] r[j], n) by {
            assert(r[j] == s[j]);
        }
        lemma_live_named_none(r, n);
    } else {
        assert(r[i] == s[i]);
        assert forall|j: int| 0 <= j < r.len() && j != i implies !live_with_name(
            #[trigger] r[j],
            n,
        ) by {
            assert(r[j] == s[j]);
        }
        lemma_live_named_one(r, n, i);
        assert(!live_with_name(s[s.len() - 1], n));
    }
}

/// Two different live records hold name `n`, whether active or missing: at
/// least two are counted, so the name is reported as a duplicate.
pub proof fn lemma_live_named_two(s: Seq<Environment>, n: Seq<char>, i: int, j: int)
    requires
        0 <= i < j < s.len(),
        live_with_name(s[i], n),
        live_with_name(s[j], n),
    ensures
        live_named(s, n).len() >= 2,
    decreases s.len(),
{
    let r = s.drop_last();
    lemma_live_named_step(s, n);
    assert(r[i] == s[i]);
    if j == s.len() - 1 {
        lemma_live_named_some(r, n, i);
    } else {
        assert(r[j] == s[j]);
        lemma_live_named_two(r, n, i, j);
    }
}

/// `a` was used more recently than `b`: `b` never was, or `a`'s last use
/// is the later time stamp.
pub open spec fn used_later(a: Environment, b: Environment) -> bool {
    match (a.last_used_at, b.last_used_at) {
        (Some(x), Some(y)) => text_order(x@, y@) > 0,
        (Some(_), None) => true,
        _ => false,
    }
}

/// Listing puts the more recently used of two records strictly first, and
/// between records last used at the same time, the one whose lower-cased
/// name sorts first; so a sorted listing never has a record used later
/// after one used earlier.
pub proof fn lemma_recent_first(a: Environment, b: Environment, s: Seq<Environment>)
    ensures
        used_later(a, b) ==> ByListOrder::le(a, b) && !ByListOrder::le(b, a),
        a.last_used_at == b.last_used_at && text_order(ascii_lower(a.name@), ascii_lower(b.name@))
            < 0 ==> ByListOrder::le(a, b) && !ByListOrder::le(b, a),
        sorted_by::<Environment, ByListOrder>(s) ==> forall|i: int, j: int|
            0 <= i < j < s.len() ==> !used_later(#[trigger] s[j], #[trigger] s[i]),
{
    lemma_list_order(a, b, a);
    if let (Some(x), Some(y)) = (a.last_used_at, b.last_used_at) {
        lemma_text_order_antisym(x@, y@);
    }
    if sorted_by::<Environment, ByListOrder>(s) {
        assert forall|i: int, j: int| 0 <= i < j < s.len() implies !used_later(
            #[trigger] s[j],
            #[trigger] s[i],
        ) by {
            assert(ByListOrder::le(s[i], s[j]));
            lemma_list_order(s[j], s[i], s[j]);
            if let (Some(x), Some(y)) = (s[j].last_used_at, s[i].last_used_at) {
                lemma_text_order_antisym(x@, y@);
            }
        }
    }
}

/// A venv that a scan finds at `q/c`, with no record there yet, belongs to
/// the project directory `q`, the path without its last component.
pub proof fn lemma_scanned_project(
    n: NewEnvironment,
    q: Seq<char>,
    c: Seq<char>,
    path: String,
    probe: Probe,
    fresh: String,
    now: String,
)
    requires
        q.len() > 0,
        c.len() > 0,
        c != seq!['.'],
        c != seq!['.', '.'],
        forall|j: int| 0 <= j < c.len() ==> c[j] != '/',
        path@ == q + seq!['/'] + c,
        is_scanned_record(n, None, path, probe, fresh, now),
    ensures
        n.project_dir matches Some(d) && d@ == q,
        n.source == EnvSource::Scanned,
        n.last_used_at is None,
{
    lemma_file_name_of_child(q, c);
    assert(path@.take(q.len() as int) =~= q);
}

/// A venv created with `--here` at `q/c` belongs to the project directory
/// `q`; one created elsewhere belongs to none. Either way it is new: active,
/// never used, created and updated at the same time.
pub proof fn lemma_created_project(
    n: NewEnvironment,
    name: String,
    target: String,
    here: bool,
    managed_dir: Seq<char>,
    probe: Probe,
    id: String,
    now: String,
    q: Seq<char>,
    c: Seq<char>,
)
    requires
        is_created_record(n, name, target, here, managed_dir, probe, id, now),
    ensures
        !here ==> n.project_dir is None,
        here && q.len() > 0 && c.len() > 0 && c != seq!['.'] && c != seq!['.', '.'] && (forall|j: int|
            0 <= j < c.len() ==> c[j] != '/') && target@ == q + seq!['/'] + c ==> (n.project_dir matches Some(
            d,
        ) && d@ == q),
        n.status == EnvStatus::Active,
        n.last_used_at is None,
        n.created_at == now && n.updated_at == now,
        n.source == EnvSource::Managed || n.source == EnvSource::Manual,
{
    if here && q.len() > 0 && c.len() > 0 && c != seq!['.'] && c != seq!['.', '.'] && (forall|j: int|
        0 <= j < c.len() ==> c[j] != '/') && target@ == q + seq!['/'] + c {
        lemma_file_name_of_child(q, c);
        assert(target@.take(q.len() as int) =~= q);
    }
}

} // verus!
