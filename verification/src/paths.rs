//! Paths as text: joining, the files that make a directory a venv, names and
//! parents of normalized paths, component-wise prefixes, and the rules for
//! where environments are created and when a directory may be deleted.
use vstd::prelude::*;
use crate::errors::VmnError;
use crate::text::{all_ws, chars_contain, chars_equal, chars_of, extend_chars, is_blank, slice_chars,
    string_of};

verus! {

/// `base.join(comp)` for a Unix path: an absolute `comp` replaces `base`,
/// otherwise a separator is put between them where `base` has none at its end.
pub open spec fn path_join(base: Seq<char>, comp: Seq<char>) -> Seq<char> {
    if comp.len() > 0 && comp[0] == '/' {
        comp
    } else if base.len() == 0 || base.last() == '/' {
        base + comp
    } else {
        base + seq!['/'] + comp
    }
}

pub fn join_path(base: &str, comp: &str) -> (res: String)
    ensures
        res@ == path_join(base@, comp@),
{
    let b = chars_of(base);
    let c = chars_of(comp);
    if c.len() > 0 && c[0] == '/' {
        return string_of(&c);
    }
    let mut v = b;
    if v.len() > 0 && v[v.len() - 1] != '/' {
        v.push('/');
    }
    extend_chars(&mut v, &c);
    string_of(&v)
}

/// `<root>/bin/activate`, the script that activates a venv on Unix.
pub open spec fn activation_script_of(root: Seq<char>) -> Seq<char> {
    path_join(path_join(root, "bin"@), "activate"@)
}

/// `<root>/bin/python`, the venv's interpreter on Unix.
pub open spec fn python_executable_of(root: Seq<char>) -> Seq<char> {
    path_join(path_join(root, "bin"@), "python"@)
}

/// `<root>/pyvenv.cfg`, the file every venv has at its root.
pub open spec fn pyvenv_cfg_of(root: Seq<char>) -> Seq<char> {
    path_join(root, "pyvenv.cfg"@)
}

pub fn activation_script(root: &str) -> (res: String)
    ensures
        res@ == activation_script_of(root@),
{
    let bin = join_path(root, "bin");
    join_path(bin.as_str(), "activate")
}

pub fn python_executable(root: &str) -> (res: String)
    ensures
        res@ == python_executable_of(root@),
{
    let bin = join_path(root, "bin");
    join_path(bin.as_str(), "python")
}

pub fn pyvenv_cfg(root: &str) -> (res: String)
    ensures
        res@ == pyvenv_cfg_of(root@),
{
    join_path(root, "pyvenv.cfg")
}

/// What the file system says of a directory that may be a venv.
#[derive(Debug)]
pub struct PathFacts {
    pub exists: bool,
    pub is_dir: bool,
    /// `pyvenv_cfg(root)` is a file.
    pub pyvenv_cfg_is_file: bool,
    /// `activation_script(root)` is a file.
    pub activation_script_is_file: bool,
}

/// A venv root has both `pyvenv.cfg` and the activation script.
pub fn is_venv_root(facts: &PathFacts) -> (res: bool)
    ensures
        res == (facts.pyvenv_cfg_is_file && facts.activation_script_is_file),
{
    facts.pyvenv_cfg_is_file && facts.activation_script_is_file
}

/// The failure that refusing to delete `path` reports, where `facts` show
/// it is not a venv directory: the first failing check decides.
pub open spec fn delete_refusal(path: Seq<char>, facts: PathFacts, e: VmnError) -> bool {
    if !facts.exists {
        e matches VmnError::PathDoesNotExist { path: p } && p@ == path
    } else if !facts.is_dir {
        e matches VmnError::NotADirectory { path: p } && p@ == path
    } else if !facts.pyvenv_cfg_is_file {
        e matches VmnError::NoPyvenvCfg { path: p } && p@ == path
    } else {
        e matches VmnError::NoActivationScript { path: p } && p@ == path
    }
}

/// Refuses to delete `path` unless it exists, is a directory, and holds both
/// `pyvenv.cfg` and the activation script; the first failing check decides.
pub fn ensure_safe_venv_delete(path: &str, facts: &PathFacts) -> (res: Result<(), VmnError>)
    ensures
        res is Ok <==> (facts.exists && facts.is_dir && facts.pyvenv_cfg_is_file
            && facts.activation_script_is_file),
        res matches Err(e) ==> delete_refusal(path@, *facts, e),
        !facts.exists ==> (res matches Err(VmnError::PathDoesNotExist { path: p }) && p@ == path@),
        facts.exists && !facts.is_dir ==> (res matches Err(VmnError::NotADirectory { path: p })
            && p@ == path@),
        facts.exists && facts.is_dir && !facts.pyvenv_cfg_is_file ==> (res matches Err(
            VmnError::NoPyvenvCfg { path: p },
        ) && p@ == path@),
        facts.exists && facts.is_dir && facts.pyvenv_cfg_is_file
            && !facts.activation_script_is_file ==> (res matches Err(
            VmnError::NoActivationScript { path: p },
        ) && p@ == path@),
{
    let p = string_of(&chars_of(path));
    if !facts.exists {
        return Err(VmnError::PathDoesNotExist { path: p });
    }
    if !facts.is_dir {
        return Err(VmnError::NotADirectory { path: p });
    }
    if !facts.pyvenv_cfg_is_file {
        return Err(VmnError::NoPyvenvCfg { path: p });
    }
    if !facts.activation_script_is_file {
        return Err(VmnError::NoActivationScript { path: p });
    }
    Ok(())
}

/// A managed environment's name is its directory name: not blank, and free
/// of path separators.
pub fn validate_managed_name(name: &str) -> (res: Result<(), VmnError>)
    ensures
        all_ws(name@) ==> res == Err::<(), VmnError>(VmnError::EmptyName),
        !all_ws(name@) && (name@.contains('/') || name@.contains('\\')) ==> res == Err::<
            (),
            VmnError,
        >(VmnError::NameHasSeparator),
        res is Ok <==> !all_ws(name@) && !name@.contains('/') && !name@.contains('\\'),
{
    if is_blank(name) {
        return Err(VmnError::EmptyName);
    }
    let v = chars_of(name);
    if chars_contain(&v, '/') || chars_contain(&v, '\\') {
        return Err(VmnError::NameHasSeparator);
    }
    Ok(())
}

/// The index of the last `/` in `s`, or -1.
pub open spec fn last_slash(s: Seq<char>) -> int
    decreases s.len(),
{
    if s.len() == 0 {
        -1
    } else if s.last() == '/' {
        s.len() - 1
    } else {
        last_slash(s.drop_last())
    }
}

/// The final name of a normalized path: what follows its last `/`, unless
/// that is empty, `.` or `..`.
pub open spec fn file_name_of(s: Seq<char>) -> Option<Seq<char>> {
    let n = s.skip(last_slash(s) + 1);
    if n.len() == 0 || n == seq!['.'] || n == seq!['.', '.'] {
        None
    } else {
        Some(n)
    }
}

/// The parent of a normalized path: what precedes its last `/`; `/` for a
/// child of the root; the empty path for a bare name; none for the root or
/// the empty path.
pub open spec fn parent_of(s: Seq<char>) -> Option<Seq<char>> {
    let k = last_slash(s);
    if k < 0 {
        if s.len() == 0 {
            None
        } else {
            Some(Seq::empty())
        }
    } else if k == 0 {
        if s.len() == 1 {
            None
        } else {
            Some(seq!['/'])
        }
    } else {
        Some(s.take(k))
    }
}

fn last_slash_exec(v: &Vec<char>) -> (res: Option<usize>)
    ensures
        match res {
            Some(k) => k as int == last_slash(v@) && k < v@.len(),
            None => last_slash(v@) == -1,
        },
        last_slash(v@) >= -1,
        last_slash(v@) < v@.len(),
{
    let mut j: usize = v.len();
    assert(v@.take(v.len() as int) =~= v@);
    while j > 0 && v[j - 1] != '/'
        invariant
            j <= v.len(),
            last_slash(v@) == last_slash(v@.take(j as int)),
        decreases j,
    {
        assert(v@.take(j as int).drop_last() =~= v@.take(j - 1));
        j = j - 1;
    }
    proof {
        assert(v@.take(v.len() as int) =~= v@);
        lemma_last_slash_bounds(v@);
    }
    if j == 0 {
        assert(v@.take(0) =~= Seq::<char>::empty());
        None
    } else {
        Some(j - 1)
    }
}

proof fn lemma_last_slash_bounds(s: Seq<char>)
    ensures
        -1 <= last_slash(s) < s.len(),
        last_slash(s) >= 0 ==> s[last_slash(s)] == '/',
    decreases s.len(),
{
    if s.len() > 0 && s.last() != '/' {
        lemma_last_slash_bounds(s.drop_last());
    }
}

pub fn file_name(path: &str) -> (res: Option<String>)
    ensures
        match res {
            Some(n) => file_name_of(path@) == Some(n@),
            None => file_name_of(path@) is None,
        },
{
    let v = chars_of(path);
    let start: usize = match last_slash_exec(&v) {
        Some(k) => k + 1,
        None => 0,
    };
    let n = slice_chars(&v, start, v.len());
    assert(n@ =~= v@.skip(last_slash(v@) + 1));
    let dot: Vec<char> = vec!['.'];
    let dotdot: Vec<char> = vec!['.', '.'];
    assert(dot@ =~= seq!['.']);
    assert(dotdot@ =~= seq!['.', '.']);
    if n.len() == 0 || chars_equal(&n, &dot) || chars_equal(&n, &dotdot) {
        None
    } else {
        Some(string_of(&n))
    }
}

pub fn parent(path: &str) -> (res: Option<String>)
    ensures
        match res {
            Some(p) => parent_of(path@) == Some(p@),
            None => parent_of(path@) is None,
        },
{
    let v = chars_of(path);
    match last_slash_exec(&v) {
        None => {
            if v.len() == 0 {
                None
            } else {
                Some(String::new())
            }
        },
        Some(k) => {
            if k == 0 {
                if v.len() == 1 {
                    None
                } else {
                    let root: Vec<char> = vec!['/'];
                    assert(root@ =~= seq!['/']);
                    Some(string_of(&root))
                }
            } else {
                let p = slice_chars(&v, 0, k);
                assert(p@ =~= v@.take(k as int));
                Some(string_of(&p))
            }
        },
    }
}

/// The name a scanned venv is registered under: the project directory's name
/// for a `.venv`, otherwise the venv directory's own name.
pub open spec fn scanned_name_of(path: Seq<char>) -> Seq<char> {
    if file_name_of(path) == Some(seq!['.', 'v', 'e', 'n', 'v']) {
        match parent_of(path) {
            Some(p) => match file_name_of(p) {
                Some(n) => n,
                None => seq!['.', 'v', 'e', 'n', 'v'],
            },
            None => seq!['.', 'v', 'e', 'n', 'v'],
        }
    } else {
        match file_name_of(path) {
            Some(n) => n,
            None => seq!['v', 'e', 'n', 'v'],
        }
    }
}

pub fn scanned_name(path: &str) -> (res: String)
    ensures
        res@ == scanned_name_of(path@),
{
    let dot_venv: Vec<char> = vec!['.', 'v', 'e', 'n', 'v'];
    assert(dot_venv@ =~= seq!['.', 'v', 'e', 'n', 'v']);
    let name = file_name(path);
    let is_dot_venv = match &name {
        Some(n) => {
            let nv = chars_of(n.as_str());
            chars_equal(&nv, &dot_venv)
        },
        None => false,
    };
    if is_dot_venv {
        match parent(path) {
            Some(p) => match file_name(p.as_str()) {
                Some(n) => n,
                None => string_of(&dot_venv),
            },
            None => string_of(&dot_venv),
        }
    } else {
        match name {
            Some(n) => n,
            None => {
                let venv: Vec<char> = vec!['v', 'e', 'n', 'v'];
                assert(venv@ =~= seq!['v', 'e', 'n', 'v']);
                string_of(&venv)
            },
        }
    }
}

/// A segment between separators joins the components unless it is empty, or
/// is `.` anywhere but at the very start of a relative path.
pub open spec fn add_segment(acc: Seq<Seq<char>>, seg: Seq<char>) -> Seq<Seq<char>> {
    if seg.len() == 0 || (seg == seq!['.'] && acc.len() > 0) {
        acc
    } else {
        acc.push(seg)
    }
}

pub open spec fn components_from(s: Seq<char>, i: int, seg: Seq<char>, acc: Seq<Seq<char>>) -> Seq<
    Seq<char>,
>
    decreases s.len() - i,
{
    if i >= s.len() {
        add_segment(acc, seg)
    } else if s[i] == '/' {
        components_from(s, i + 1, Seq::empty(), add_segment(acc, seg))
    } else {
        components_from(s, i + 1, seg.push(s[i]), acc)
    }
}

/// The components of a Unix path, as `Path::components` gives them: the root
/// (written `/`) for an absolute path, then each name, with repeated
/// separators and inner `.` dropped.
pub open spec fn components(s: Seq<char>) -> Seq<Seq<char>> {
    if s.len() > 0 && s[0] == '/' {
        components_from(s, 1, Seq::empty(), seq![seq!['/']])
    } else {
        components_from(s, 0, Seq::empty(), Seq::empty())
    }
}

/// `Path::starts_with`: the components of `base` begin those of `p`.
pub open spec fn path_starts_with(p: Seq<char>, base: Seq<char>) -> bool {
    let a = components(p);
    let b = components(base);
    b.len() <= a.len() && a.take(b.len() as int) == b
}

fn add_segment_exec(acc: &mut Vec<Vec<char>>, seg: Vec<char>)
    ensures
        final(acc)@.map_values(|c: Vec<char>| c@) == add_segment(
            old(acc)@.map_values(|c: Vec<char>| c@),
            seg@,
        ),
{
    let dot: Vec<char> = vec!['.'];
    assert(dot@ =~= seq!['.']);
    if seg.len() == 0 || (chars_equal(&seg, &dot) && acc.len() > 0) {
        return;
    }
    let ghost before = acc@;
    let ghost s = seg@;
    acc.push(seg);
    assert(acc@.map_values(|c: Vec<char>| c@) =~= before.map_values(|c: Vec<char>| c@).push(s));
}

/// The components of `path`.
pub fn path_components(path: &str) -> (res: Vec<Vec<char>>)
    ensures
        res@.map_values(|c: Vec<char>| c@) == components(path@),
{
    let v = chars_of(path);
    let mut acc: Vec<Vec<char>> = Vec::new();
    let mut i: usize = 0;
    if v.len() > 0 && v[0] == '/' {
        let root: Vec<char> = vec!['/'];
        assert(root@ =~= seq!['/']);
        acc.push(root);
        i = 1;
        assert(acc@.map_values(|c: Vec<char>| c@) =~= seq![seq!['/']]);
    } else {
        assert(acc@.map_values(|c: Vec<char>| c@) =~= Seq::<Seq<char>>::empty());
    }
    let mut seg: Vec<char> = Vec::new();
    while i < v.len()
        invariant
            i <= v.len(),
            components(path@) == components_from(
                v@,
                i as int,
                seg@,
                acc@.map_values(|c: Vec<char>| c@),
            ),
            v@ == path@,
        decreases v.len() - i,
    {
        if v[i] == '/' {
            let done = seg;
            add_segment_exec(&mut acc, done);
            seg = Vec::new();
            assert(seg@ =~= Seq::<char>::empty());
        } else {
            seg.push(v[i]);
        }
        i = i + 1;
    }
    add_segment_exec(&mut acc, seg);
    acc
}

/// Whether `p` lies under `base`, component by component.
pub fn path_starts_with_exec(p: &str, base: &str) -> (res: bool)
    ensures
        res == path_starts_with(p@, base@),
{
    let a = path_components(p);
    let b = path_components(base);
    let ghost av = a@.map_values(|c: Vec<char>| c@);
    let ghost bv = b@.map_values(|c: Vec<char>| c@);
    if b.len() > a.len() {
        return false;
    }
    let mut i: usize = 0;
    while i < b.len()
        invariant
            b.len() <= a.len(),
            i <= b.len(),
            av == a@.map_values(|c: Vec<char>| c@),
            bv == b@.map_values(|c: Vec<char>| c@),
            av == components(p@),
            bv == components(base@),
            forall|k: int| 0 <= k < i ==> av[k] == bv[k],
        decreases b.len() - i,
    {
        if !chars_equal(&a[i], &b[i]) {
            assert(av.take(b.len() as int)[i as int] != bv[i as int]);
            return false;
        }
        i = i + 1;
    }
    assert(av.take(b.len() as int) =~= bv);
    true
}

/// Where `create` puts an environment's files.
#[derive(Debug)]
pub struct AppPaths {
    pub config_dir: String,
    pub data_dir: String,
    pub config_path: String,
    pub db_path: String,
    pub managed_envs_dir: String,
}

impl AppPaths {
    /// The layout under a configuration and a data directory.
    pub fn from_dirs(config_dir: String, data_dir: String) -> (res: AppPaths)
        ensures
            res.config_dir == config_dir,
            res.data_dir == data_dir,
            res.config_path@ == path_join(config_dir@, "config.toml"@),
            res.db_path@ == path_join(data_dir@, "vmn.db"@),
            res.managed_envs_dir@ == path_join(data_dir@, "envs"@),
    {
        let config_path = join_path(config_dir.as_str(), "config.toml");
        let db_path = join_path(data_dir.as_str(), "vmn.db");
        let managed_envs_dir = join_path(data_dir.as_str(), "envs");
        AppPaths { config_dir, data_dir, config_path, db_path, managed_envs_dir }
    }
}

/// The absolute target of `create`: the resolved path where the target
/// exists, the path itself where it is absolute, else the path under `cwd`.
pub fn absolute_for_create(path: &str, canonical: Option<String>, cwd: &str) -> (res: String)
    ensures
        canonical matches Some(c) ==> res == c,
        canonical is None && path@.len() > 0 && path@[0] == '/' ==> res@ == path@,
        canonical is None && !(path@.len() > 0 && path@[0] == '/') ==> res@ == path_join(
            cwd@,
            path@,
        ),
{
    match canonical {
        Some(c) => c,
        None => {
            let v = chars_of(path);
            if v.len() > 0 && v[0] == '/' {
                string_of(&v)
            } else {
                join_path(cwd, path)
            }
        },
    }
}

} // verus!
