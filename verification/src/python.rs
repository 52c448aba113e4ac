//! Python interpreters: which file names are interpreters, what their
//! `--version` output says, how they are ordered, and which one a `--python`
//! selector picks.
use vstd::prelude::*;
use crate::errors::VmnError;
use crate::order::{Order, sort_by_order, sorted_by};
use crate::paths::{components, file_name, file_name_of, path_components};
use crate::text::{
    all_ws, chars_end_with, chars_equal, chars_of, chars_start_with, compare_chars, ends_with,
    extend_chars, is_blank, lemma_text_order_antisym, lemma_text_order_trans, slice_chars,
    starts_with, str_equal, string_of, text_order, trim, trim_chars,
};

verus! {

pub open spec fn is_digit(c: char) -> bool {
    '0' <= c && c <= '9'
}

pub open spec fn is_version_char(c: char) -> bool {
    is_digit(c) || c == '.'
}

/// `name` without a trailing `.exe`.
pub open spec fn strip_exe(name: Seq<char>) -> Seq<char> {
    if ends_with(name, ".exe"@) {
        name.take(name.len() - 4)
    } else {
        name
    }
}

/// `python`, `python3`, or `python` followed by digits and dots, with an
/// optional `.exe`.
pub open spec fn python_executable_name(name: Seq<char>) -> bool {
    let n = strip_exe(name);
    ||| n == "python"@
    ||| n == "python3"@
    ||| (starts_with(n, "python"@) && n.len() > 6 && forall|k: int|
        6 <= k < n.len() ==> is_version_char(#[trigger] n[k]))
}

pub fn is_python_executable_name(name: &str) -> (res: bool)
    ensures
        res == python_executable_name(name@),
{
    proof {
        reveal_strlit(".exe");
        reveal_strlit("python");
        reveal_strlit("python3");
    }
    let v = chars_of(name);
    let exe = chars_of(".exe");
    let n = if chars_end_with(&v, &exe) {
        slice_chars(&v, 0, v.len() - 4)
    } else {
        v
    };
    assert(n@ =~= strip_exe(name@));
    let python = chars_of("python");
    let python3 = chars_of("python3");
    if chars_equal(&n, &python) || chars_equal(&n, &python3) {
        return true;
    }
    if !chars_start_with(&n, &python) || n.len() <= 6 {
        return false;
    }
    let mut k: usize = 6;
    while k < n.len()
        invariant
            6 <= k <= n.len(),
            forall|j: int| 6 <= j < k ==> is_version_char(#[trigger] n@[j]),
            n@ == strip_exe(name@),
            n@ != "python"@,
            n@ != "python3"@,
        decreases n.len() - k,
    {
        if !(('0' <= n[k] && n[k] <= '9') || n[k] == '.') {
            return false;
        }
        k = k + 1;
    }
    true
}

/// The length of the longest prefix of `s` made of digits and dots.
pub open spec fn version_prefix_len(s: Seq<char>) -> nat
    decreases s.len(),
{
    if s.len() > 0 && is_version_char(s[0]) {
        1 + version_prefix_len(s.drop_first())
    } else {
        0
    }
}

proof fn lemma_version_prefix_len(s: Seq<char>, i: int)
    requires
        0 <= i <= s.len(),
        forall|k: int| 0 <= k < i ==> is_version_char(#[trigger] s[k]),
        i == s.len() || !is_version_char(s[i]),
    ensures
        version_prefix_len(s) == i,
    decreases i,
{
    if i > 0 {
        let t = s.drop_first();
        assert forall|k: int| 0 <= k < i - 1 implies is_version_char(#[trigger] t[k]) by {
            assert(t[k] == s[k + 1]);
        }
        lemma_version_prefix_len(t, i - 1);
    }
}

/// The version in `Python X.Y.Z` output: the digits and dots after
/// `Python `, if there are any.
pub open spec fn python_version_of(output: Seq<char>) -> Option<Seq<char>> {
    let t = trim(output);
    if starts_with(t, "Python "@) {
        let v = t.skip(7);
        let n = version_prefix_len(v);
        if n == 0 {
            None
        } else {
            Some(v.take(n as int))
        }
    } else {
        None
    }
}

pub fn parse_python_version(output: &str) -> (res: Option<String>)
    ensures
        match res {
            Some(v) => python_version_of(output@) == Some(v@),
            None => python_version_of(output@) is None,
        },
{
    proof {
        reveal_strlit("Python ");
    }
    let raw = chars_of(output);
    let t = trim_chars(&raw);
    let prefix = chars_of("Python ");
    if !chars_start_with(&t, &prefix) {
        return None;
    }
    let v = slice_chars(&t, 7, t.len());
    assert(v@ =~= t@.skip(7));
    let mut i: usize = 0;
    while i < v.len() && (('0' <= v[i] && v[i] <= '9') || v[i] == '.')
        invariant
            i <= v.len(),
            forall|k: int| 0 <= k < i ==> is_version_char(#[trigger] v@[k]),
        decreases v.len() - i,
    {
        i = i + 1;
    }
    proof {
        lemma_version_prefix_len(v@, i as int);
    }
    if i == 0 {
        None
    } else {
        let c = slice_chars(&v, 0, i);
        assert(c@ =~= v@.take(i as int));
        Some(string_of(&c))
    }
}

pub open spec fn split_from(s: Seq<char>, i: int, cur: Seq<char>, acc: Seq<Seq<char>>) -> Seq<
    Seq<char>,
>
    decreases s.len() - i,
{
    if i >= s.len() {
        acc.push(cur)
    } else if s[i] == '.' {
        split_from(s, i + 1, Seq::empty(), acc.push(cur))
    } else {
        split_from(s, i + 1, cur.push(s[i]), acc)
    }
}

/// `s.split('.')`: the pieces between dots, empty ones included; never none.
pub open spec fn split_dots(s: Seq<char>) -> Seq<Seq<char>> {
    split_from(s, 0, Seq::empty(), Seq::empty())
}

proof fn lemma_split_from_len(s: Seq<char>, i: int, cur: Seq<char>, acc: Seq<Seq<char>>)
    ensures
        split_from(s, i, cur, acc).len() >= acc.len() + 1,
        forall|k: int| 0 <= k < acc.len() ==> #[trigger] split_from(s, i, cur, acc)[k] == acc[k],
    decreases s.len() - i,
{
    if i < s.len() {
        if s[i] == '.' {
            lemma_split_from_len(s, i + 1, Seq::empty(), acc.push(cur));
            assert forall|k: int| 0 <= k < acc.len() implies #[trigger] split_from(
                s,
                i,
                cur,
                acc,
            )[k] == acc[k] by {
                assert(acc.push(cur)[k] == acc[k]);
            }
        } else {
            lemma_split_from_len(s, i + 1, cur.push(s[i]), acc);
        }
    }
}

/// The pieces of `s` between dots.
pub fn split_dots_exec(s: &str) -> (res: Vec<Vec<char>>)
    ensures
        res@.map_values(|c: Vec<char>| c@) == split_dots(s@),
        res@.len() >= 1,
{
    let v = chars_of(s);
    let mut acc: Vec<Vec<char>> = Vec::new();
    let mut cur: Vec<char> = Vec::new();
    let mut i: usize = 0;
    assert(acc@.map_values(|c: Vec<char>| c@) =~= Seq::<Seq<char>>::empty());
    while i < v.len()
        invariant
            i <= v.len(),
            v@ == s@,
            split_dots(s@) == split_from(v@, i as int, cur@, acc@.map_values(|c: Vec<char>| c@)),
        decreases v.len() - i,
    {
        if v[i] == '.' {
            let ghost before = acc@;
            let ghost c = cur@;
            let done = cur;
            acc.push(done);
            cur = Vec::new();
            assert(acc@.map_values(|x: Vec<char>| x@) =~= before.map_values(|x: Vec<char>| x@).push(
                c,
            ));
            assert(cur@ =~= Seq::<char>::empty());
        } else {
            cur.push(v[i]);
        }
        i = i + 1;
    }
    let ghost before = acc@;
    let ghost c = cur@;
    acc.push(cur);
    assert(acc@.map_values(|x: Vec<char>| x@) =~= before.map_values(|x: Vec<char>| x@).push(c));
    acc
}

/// `major.minor` of a version: its first two dot-separated pieces.
pub open spec fn major_minor_of(version: Seq<char>) -> Option<Seq<char>> {
    let parts = split_dots(version);
    if parts.len() >= 2 {
        Some(parts[0] + seq!['.'] + parts[1])
    } else {
        None
    }
}

pub fn major_minor_version(version: &str) -> (res: Option<String>)
    ensures
        match res {
            Some(v) => major_minor_of(version@) == Some(v@),
            None => major_minor_of(version@) is None,
        },
{
    let parts = split_dots_exec(version);
    let ghost pv = parts@.map_values(|c: Vec<char>| c@);
    if parts.len() < 2 {
        return None;
    }
    let mut out: Vec<char> = Vec::new();
    extend_chars(&mut out, &parts[0]);
    out.push('.');
    extend_chars(&mut out, &parts[1]);
    assert(out@ =~= pv[0] + seq!['.'] + pv[1]);
    Some(string_of(&out))
}

/// The decimal value of a run of digits.
pub open spec fn digits_value(s: Seq<char>) -> int
    decreases s.len(),
{
    if s.len() == 0 {
        0
    } else {
        digits_value(s.drop_last()) * 10 + (s.last() as int - '0' as int)
    }
}

pub open spec fn all_digits(s: Seq<char>) -> bool {
    forall|k: int| 0 <= k < s.len() ==> is_digit(#[trigger] s[k])
}

/// `str::parse::<u64>`: an optional `+` (not alone), then one or more
/// digits whose value fits.
pub open spec fn parse_u64_of(s: Seq<char>) -> Option<u64> {
    let d = if s.len() > 1 && s[0] == '+' {
        s.skip(1)
    } else {
        s
    };
    if d.len() > 0 && all_digits(d) && digits_value(d) <= u64::MAX {
        Some(digits_value(d) as u64)
    } else {
        None
    }
}

proof fn lemma_digits_value_mono(s: Seq<char>, i: int)
    requires
        0 <= i <= s.len(),
        all_digits(s),
    ensures
        digits_value(s.take(i)) <= digits_value(s),
        0 <= digits_value(s.take(i)),
    decreases s.len() - i,
{
    if i < s.len() {
        lemma_digits_value_mono(s, i + 1);
        assert(s.take(i + 1).drop_last() =~= s.take(i));
        lemma_digits_value_nonneg(s.take(i));
        assert(is_digit(s[i]));
    } else {
        assert(s.take(i) =~= s);
        lemma_digits_value_nonneg(s);
    }
}

proof fn lemma_digits_value_nonneg(s: Seq<char>)
    requires
        all_digits(s),
    ensures
        digits_value(s) >= 0,
    decreases s.len(),
{
    if s.len() > 0 {
        assert(is_digit(s[s.len() - 1]));
        lemma_digits_value_nonneg(s.drop_last());
    }
}

/// `part.parse::<u64>()`, as an option.
pub fn parse_u64(part: &Vec<char>) -> (res: Option<u64>)
    ensures
        res == parse_u64_of(part@),
{
    let start: usize = if part.len() > 1 && part[0] == '+' {
        1
    } else {
        0
    };
    let ghost d = if part@.len() > 1 && part@[0] == '+' {
        part@.skip(1)
    } else {
        part@
    };
    let d_exec = slice_chars(part, start, part.len());
    assert(d_exec@ =~= d);
    if d_exec.len() == 0 {
        return None;
    }
    let mut value: u64 = 0;
    let mut i: usize = 0;
    while i < d_exec.len()
        invariant
            i <= d_exec.len(),
            d_exec@ == d,
            d == (if part@.len() > 1 && part@[0] == '+' {
                part@.skip(1)
            } else {
                part@
            }),
            all_digits(d.take(i as int)),
            value as int == digits_value(d.take(i as int)),
        decreases d_exec.len() - i,
    {
        let c = d_exec[i];
        if !('0' <= c && c <= '9') {
            assert(!is_digit(d[i as int]));
            return None;
        }
        let digit: u64 = (c as u32 - '0' as u32) as u64;
        assert(d.take(i + 1).drop_last() =~= d.take(i as int));
        if value > (u64::MAX - digit) / 10 {
            proof {
                assert(digits_value(d.take(i + 1)) == value * 10 + digit);
                if all_digits(d) {
                    lemma_digits_value_mono(d, i + 1);
                }
            }
            return None;
        }
        value = value * 10 + digit;
        i = i + 1;
        assert forall|k: int| 0 <= k < i implies is_digit(#[trigger] d.take(i as int)[k]) by {
            if k < i - 1 {
                assert(d.take(i as int)[k] == d.take(i - 1)[k]);
            }
        }
    }
    assert(d.take(d.len() as int) =~= d);
    Some(value)
}

/// A discovered interpreter.
#[derive(Debug)]
pub struct PythonInterpreter {
    pub path: String,
    pub executable: String,
    pub version: Option<String>,
    pub version_key: Option<String>,
}

/// The piece at `i`, read as a number, or zero.
pub open spec fn key_part(parts: Seq<Seq<char>>, i: int) -> u64 {
    if i < parts.len() {
        match parse_u64_of(parts[i]) {
            Some(n) => n,
            None => 0,
        }
    } else {
        0
    }
}

/// The first three dot-separated numbers of a version, zero where missing or
/// not a number.
pub open spec fn version_key_of(version: Option<String>) -> (u64, u64, u64) {
    match version {
        Some(v) => {
            let parts = split_dots(v@);
            (key_part(parts, 0), key_part(parts, 1), key_part(parts, 2))
        },
        None => (0, 0, 0),
    }
}

fn key_part_exec(parts: &Vec<Vec<char>>, i: usize) -> (res: u64)
    ensures
        res == key_part(parts@.map_values(|c: Vec<char>| c@), i as int),
{
    if i < parts.len() {
        match parse_u64(&parts[i]) {
            Some(n) => n,
            None => 0,
        }
    } else {
        0
    }
}

pub fn python_version_sort_key(interpreter: &PythonInterpreter) -> (res: (u64, u64, u64))
    ensures
        res == version_key_of(interpreter.version),
{
    match &interpreter.version {
        Some(v) => {
            let parts = split_dots_exec(v.as_str());
            (key_part_exec(&parts, 0), key_part_exec(&parts, 1), key_part_exec(&parts, 2))
        },
        None => (0, 0, 0),
    }
}

/// Newer versions first; equal versions by path.
pub open spec fn interpreter_before_eq(a: PythonInterpreter, b: PythonInterpreter) -> bool {
    let ka = version_key_of(a.version);
    let kb = version_key_of(b.version);
    ||| ka.0 > kb.0
    ||| (ka.0 == kb.0 && ka.1 > kb.1)
    ||| (ka.0 == kb.0 && ka.1 == kb.1 && ka.2 > kb.2)
    ||| (ka == kb && text_order(a.path@, b.path@) <= 0)
}

pub struct ByVersionThenPath;

impl Order<PythonInterpreter> for ByVersionThenPath {
    open spec fn le(a: PythonInterpreter, b: PythonInterpreter) -> bool {
        interpreter_before_eq(a, b)
    }

    fn le_exec(a: &PythonInterpreter, b: &PythonInterpreter) -> (res: bool) {
        let ka = python_version_sort_key(a);
        let kb = python_version_sort_key(b);
        if ka.0 != kb.0 {
            return ka.0 > kb.0;
        }
        if ka.1 != kb.1 {
            return ka.1 > kb.1;
        }
        if ka.2 != kb.2 {
            return ka.2 > kb.2;
        }
        let pa = chars_of(a.path.as_str());
        let pb = chars_of(b.path.as_str());
        compare_chars(&pa, &pb) <= 0
    }

    proof fn lemma_total(a: PythonInterpreter, b: PythonInterpreter) {
        lemma_text_order_antisym(a.path@, b.path@);
    }

    proof fn lemma_trans(a: PythonInterpreter, b: PythonInterpreter, c: PythonInterpreter) {
        lemma_text_order_trans(a.path@, b.path@, c.path@);
    }
}

/// Orders interpreters newest first, then by path.
pub fn sort_interpreters(v: Vec<PythonInterpreter>) -> (res: Vec<PythonInterpreter>)
    ensures
        res@.to_multiset() == v@.to_multiset(),
        sorted_by::<PythonInterpreter, ByVersionThenPath>(res@),
{
    sort_by_order::<PythonInterpreter, ByVersionThenPath>(v)
}

/// The interpreter that a path answering `--version` with `version_output`
/// is, if the output names a version.
pub open spec fn interpreter_of(path: Seq<char>, version_output: Seq<char>) -> Option<
    (Seq<char>, Seq<char>, Seq<char>, Option<Seq<char>>),
> {
    match python_version_of(version_output) {
        Some(v) => Some(
            (
                path,
                match file_name_of(path) {
                    Some(n) => n,
                    None => path,
                },
                v,
                major_minor_of(v),
            ),
        ),
        None => None,
    }
}

pub open spec fn opt_view(o: Option<String>) -> Option<Seq<char>> {
    match o {
        Some(s) => Some(s@),
        None => None,
    }
}

pub fn interpreter_from_output(path: &str, version_output: &str) -> (res: Option<PythonInterpreter>)
    ensures
        match res {
            Some(i) => interpreter_of(path@, version_output@) == Some(
                (i.path@, i.executable@, i.version.unwrap()@, opt_view(i.version_key)),
            ) && i.version is Some,
            None => interpreter_of(path@, version_output@) is None,
        },
{
    let version = match parse_python_version(version_output) {
        Some(v) => v,
        None => return None,
    };
    let version_key = major_minor_version(version.as_str());
    let executable = match file_name(path) {
        Some(n) => n,
        None => string_of(&chars_of(path)),
    };
    Some(
        PythonInterpreter {
            path: string_of(&chars_of(path)),
            executable,
            version: Some(version),
            version_key,
        },
    )
}

/// The texts of `s` with each text kept only where it first occurs.
pub open spec fn first_occurrences(s: Seq<String>) -> Seq<String>
    decreases s.len(),
{
    if s.len() == 0 {
        s
    } else {
        let r = first_occurrences(s.drop_last());
        if exists|k: int| 0 <= k < s.len() - 1 && (#[trigger] s[k])@ == s.last()@ {
            r
        } else {
            r.push(s.last())
        }
    }
}

/// Drops every path that an earlier entry already named.
pub fn dedup_paths(paths: Vec<String>) -> (res: Vec<String>)
    ensures
        res@ == first_occurrences(paths@),
{
    let mut out: Vec<String> = Vec::new();
    let mut i: usize = 0;
    while i < paths.len()
        invariant
            i <= paths.len(),
            out@ == first_occurrences(paths@.take(i as int)),
        decreases paths.len() - i,
    {
        let mut seen = false;
        let mut k: usize = 0;
        while k < i
            invariant
                k <= i < paths.len(),
                seen == exists|m: int| 0 <= m < k && (#[trigger] paths@[m])@ == paths@[i as int]@,
            decreases i - k,
        {
            if str_equal(paths[k].as_str(), paths[i].as_str()) {
                seen = true;
            }
            k = k + 1;
        }
        proof {
            let t = paths@.take(i + 1);
            assert(t.drop_last() =~= paths@.take(i as int));
            assert(t.last() == paths@[i as int]);
            assert((exists|m: int| 0 <= m < t.len() - 1 && (#[trigger] t[m])@ == t.last()@)
                == seen) by {
                if seen {
                    let m = choose|m: int| 0 <= m < i && (#[trigger] paths@[m])@ == paths@[i as int]@;
                    assert(t[m] == paths@[m]);
                }
                if exists|m: int| 0 <= m < t.len() - 1 && (#[trigger] t[m])@ == t.last()@ {
                    let m = choose|m: int| 0 <= m < t.len() - 1 && (#[trigger] t[m])@ == t.last()@;
                    assert(t[m] == paths@[m]);
                }
            }
        }
        if !seen {
            out.push(paths[i].clone());
        }
        i = i + 1;
    }
    assert(paths@.take(paths.len() as int) =~= paths@);
    out
}

/// `python` removed from the front of a selector, where it is there.
pub open spec fn normalized_selector(selector: Seq<char>) -> Seq<char> {
    if starts_with(selector, "python"@) {
        selector.skip(6)
    } else {
        selector
    }
}

/// A selector names an interpreter by `major.minor`, by full version (with
/// or without a leading `python`), or by executable name.
pub open spec fn selector_names(selector: Seq<char>, i: PythonInterpreter) -> bool {
    let n = normalized_selector(selector);
    ||| opt_view(i.version_key) == Some(selector)
    ||| opt_view(i.version_key) == Some(n)
    ||| (i.version is Some && (i.version.unwrap()@ == selector || i.version.unwrap()@ == n))
    ||| i.executable@ == selector
}

fn opt_equals(o: &Option<String>, s: &Vec<char>) -> (res: bool)
    ensures
        res == (opt_view(*o) == Some(s@)),
{
    match o {
        Some(x) => {
            let xv = chars_of(x.as_str());
            chars_equal(&xv, s)
        },
        None => false,
    }
}

pub fn python_selector_matches(selector: &str, interpreter: &PythonInterpreter) -> (res: bool)
    ensures
        res == selector_names(selector@, *interpreter),
{
    proof {
        reveal_strlit("python");
    }
    let sel = chars_of(selector);
    let python = chars_of("python");
    let normalized = if chars_start_with(&sel, &python) {
        slice_chars(&sel, 6, sel.len())
    } else {
        slice_chars(&sel, 0, sel.len())
    };
    assert(normalized@ =~= normalized_selector(selector@));
    let exe = chars_of(interpreter.executable.as_str());
    opt_equals(&interpreter.version_key, &sel) || opt_equals(&interpreter.version_key, &normalized)
        || opt_equals(&interpreter.version, &sel) || opt_equals(&interpreter.version, &normalized)
        || chars_equal(&exe, &sel)
}

/// How a `--python` selector is resolved.
#[derive(Debug)]
pub enum PythonSelector {
    /// A path: more than one component, or absolute.
    Path,
    /// A name to look up on `PATH`, or a version.
    Name,
}

/// Classifies a `--python` selector; a blank one is refused.
pub fn python_selector_kind(selector: &str) -> (res: Result<PythonSelector, VmnError>)
    ensures
        all_ws(selector@) ==> res == Err::<PythonSelector, VmnError>(VmnError::EmptyPythonSelector),
        !all_ws(selector@) && (components(selector@).len() > 1 || (selector@.len() > 0
            && selector@[0] == '/')) ==> res == Ok::<PythonSelector, VmnError>(
            PythonSelector::Path,
        ),
        !all_ws(selector@) && !(components(selector@).len() > 1 || (selector@.len() > 0
            && selector@[0] == '/')) ==> res == Ok::<PythonSelector, VmnError>(
            PythonSelector::Name,
        ),
{
    if is_blank(selector) {
        return Err(VmnError::EmptyPythonSelector);
    }
    let comps = path_components(selector);
    assert(comps@.len() == components(selector@).len());
    let v = chars_of(selector);
    if comps.len() > 1 || (v.len() > 0 && v[0] == '/') {
        Ok(PythonSelector::Path)
    } else {
        Ok(PythonSelector::Name)
    }
}

/// The path of the first interpreter in `interpreters` that `selector` names.
pub fn pick_interpreter(selector: &str, interpreters: &Vec<PythonInterpreter>) -> (res: Result<
    String,
    VmnError,
>)
    ensures
        match res {
            Ok(p) => exists|i: int|
                0 <= i < interpreters@.len() && selector_names(selector@, #[trigger] interpreters@[i])
                    && p == interpreters@[i].path && forall|k: int|
                    0 <= k < i ==> !selector_names(selector@, #[trigger] interpreters@[k]),
            Err(e) => (forall|i: int|
                0 <= i < interpreters@.len() ==> !selector_names(
                    selector@,
                    #[trigger] interpreters@[i],
                )) && (e matches VmnError::NoPythonMatch { selector: s } && s@ == selector@),
        },
{
    let mut i: usize = 0;
    while i < interpreters.len()
        invariant
            i <= interpreters.len(),
            forall|k: int| 0 <= k < i ==> !selector_names(selector@, #[trigger] interpreters@[k]),
        decreases interpreters.len() - i,
    {
        if python_selector_matches(selector, &interpreters[i]) {
            return Ok(interpreters[i].path.clone());
        }
        i = i + 1;
    }
    Err(VmnError::NoPythonMatch { selector: string_of(&chars_of(selector)) })
}

/// `stdout` trimmed, or `stderr` trimmed where `stdout` is blank: what
/// `--version` printed, wherever the interpreter printed it.
pub open spec fn version_text_of(stdout: Seq<char>, stderr: Seq<char>) -> Seq<char> {
    if trim(stdout).len() > 0 {
        trim(stdout)
    } else {
        trim(stderr)
    }
}

pub fn version_text(stdout: &str, stderr: &str) -> (res: String)
    ensures
        res@ == version_text_of(stdout@, stderr@),
{
    let out = trim_chars(&chars_of(stdout));
    if out.len() > 0 {
        return string_of(&out);
    }
    string_of(&trim_chars(&chars_of(stderr)))
}

} // verus!
