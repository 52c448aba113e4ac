//! What the commands print: fzf rows, list lines, doctor checks, and the
//! shell text that `init` hands out.
use vstd::prelude::*;
use crate::errors::VmnError;
use crate::model::{Environment, PackageRecord, source_text, status_text};
use crate::python::PythonInterpreter;
use crate::text::{chars_of, extend_chars, extend_str, string_of};

verus! {

/// Tabs and line breaks become spaces, so that a field stays on its line and
/// in its column.
pub open spec fn clean_char(c: char) -> char {
    if c == '\t' || c == '\n' || c == '\r' {
        ' '
    } else {
        c
    }
}

pub open spec fn clean(s: Seq<char>) -> Seq<char> {
    s.map_values(|c: char| clean_char(c))
}

fn clean_chars(v: &Vec<char>) -> (res: Vec<char>)
    ensures
        res@ == clean(v@),
{
    let mut out: Vec<char> = Vec::new();
    let mut i: usize = 0;
    while i < v.len()
        invariant
            i <= v.len(),
            out@ == clean(v@.take(i as int)),
        decreases v.len() - i,
    {
        let c = v[i];
        let d = if c == '\t' || c == '\n' || c == '\r' {
            ' '
        } else {
            c
        };
        out.push(d);
        i = i + 1;
        assert(clean(v@.take(i as int)) =~= clean(v@.take(i - 1)).push(clean_char(v@[i - 1])));
    }
    assert(v@.take(v.len() as int) =~= v@);
    out
}

pub fn clean_field(value: &str) -> (res: String)
    ensures
        res@ == clean(value@),
{
    string_of(&clean_chars(&chars_of(value)))
}

/// The number of bytes that UTF-8 takes for `c`.
pub open spec fn utf8_width(c: char) -> int {
    if (c as u32) < 0x80 {
        1
    } else if (c as u32) < 0x800 {
        2
    } else if (c as u32) < 0x10000 {
        3
    } else {
        4
    }
}

pub open spec fn utf8_len(s: Seq<char>) -> int
    decreases s.len(),
{
    if s.len() == 0 {
        0
    } else {
        utf8_len(s.drop_last()) + utf8_width(s.last())
    }
}

/// `id.get(..8).unwrap_or(id)`: the characters that fill exactly the first 8
/// bytes, or the whole id where no character boundary falls there.
pub open spec fn short_id_of(id: Seq<char>) -> Seq<char> {
    if exists|k: int| 0 <= k <= id.len() && #[trigger] utf8_len(id.take(k)) == 8 {
        id.take(choose|k: int| 0 <= k <= id.len() && #[trigger] utf8_len(id.take(k)) == 8)
    } else {
        id
    }
}

proof fn lemma_utf8_len_mono(s: Seq<char>, a: int, b: int)
    requires
        0 <= a <= b <= s.len(),
    ensures
        utf8_len(s.take(a)) + (b - a) <= utf8_len(s.take(b)),
    decreases b - a,
{
    if a < b {
        lemma_utf8_len_mono(s, a, b - 1);
        assert(s.take(b).drop_last() =~= s.take(b - 1));
    }
}

pub fn short_id(id: &str) -> (res: &str)
    ensures
        res@ == short_id_of(id@),
{
    let v = chars_of(id);
    let mut total: usize = 0;
    let mut i: usize = 0;
    assert(v@.take(0) =~= Seq::<char>::empty());
    while i < v.len() && total < 8
        invariant
            i <= v.len(),
            total as int == utf8_len(v@.take(i as int)),
            total <= 11,
            forall|k: int| 0 <= k < i ==> #[trigger] utf8_len(v@.take(k)) < 8,
        decreases v.len() - i,
    {
        let c = v[i];
        let w: usize = if (c as u32) < 0x80 {
            1
        } else if (c as u32) < 0x800 {
            2
        } else if (c as u32) < 0x10000 {
            3
        } else {
            4
        };
        assert(v@.take(i + 1).drop_last() =~= v@.take(i as int));
        total = total + w;
        i = i + 1;
    }
    if total == 8 {
        proof {
            assert(utf8_len(id@.take(i as int)) == 8);
            let k = choose|k: int| 0 <= k <= id@.len() && #[trigger] utf8_len(id@.take(k)) == 8;
            if k < i {
            } else if k > i {
                lemma_utf8_len_mono(id@, i as int, k);
            }
            assert(k == i);
        }
        id.substring_char(0, i)
    } else {
        proof {
            assert forall|k: int| 0 <= k <= id@.len() implies #[trigger] utf8_len(id@.take(k)) != 8 by {
                if k > i {
                    lemma_utf8_len_mono(id@, i as int, k);
                }
            }
        }
        id
    }
}

/// `s` followed by spaces up to `width` characters, as `{:<width}` pads.
pub open spec fn padded(s: Seq<char>, width: int) -> Seq<char> {
    if s.len() < width {
        s + Seq::new((width - s.len()) as nat, |i: int| ' ')
    } else {
        s
    }
}

fn pad_into(out: &mut Vec<char>, s: &str, width: usize)
    ensures
        final(out)@ == old(out)@ + padded(s@, width as int),
{
    let v = chars_of(s);
    extend_chars(out, &v);
    if v.len() < width {
        let ghost base = out@;
        let mut k: usize = v.len();
        while k < width
            invariant
                v.len() <= k <= width,
                out@ == base + Seq::new((k - v.len()) as nat, |i: int| ' '),
            decreases width - k,
        {
            out.push(' ');
            k = k + 1;
            assert(out@ =~= base + Seq::new((k - v.len()) as nat, |i: int| ' '));
        }
        assert(out@ =~= old(out)@ + padded(s@, width as int));
    } else {
        assert(out@ =~= old(out)@ + padded(s@, width as int));
    }
}

pub open spec fn opt_text(o: Option<String>, default: Seq<char>) -> Seq<char> {
    match o {
        Some(s) => s@,
        None => default,
    }
}

/// One `list --fzf` row: id, name, status, path, Python version and last use,
/// cleaned and separated by tabs.
pub open spec fn fzf_row_of(e: Environment) -> Seq<char> {
    clean(e.id@) + seq!['\t'] + clean(e.name@) + seq!['\t'] + clean(status_text(e.status)) + seq![
        '\t',
    ] + clean(e.path@) + seq!['\t'] + clean(opt_text(e.python_version, Seq::empty())) + seq!['\t']
        + clean(opt_text(e.last_used_at, Seq::empty()))
}

fn opt_str_chars(o: &Option<String>, default: &str) -> (res: Vec<char>)
    ensures
        res@ == opt_text(*o, default@),
{
    match o {
        Some(s) => chars_of(s.as_str()),
        None => chars_of(default),
    }
}

pub fn fzf_row(env: &Environment) -> (res: String)
    ensures
        res@ == fzf_row_of(*env),
{
    let mut out: Vec<char> = Vec::new();
    extend_chars(&mut out, &clean_chars(&chars_of(env.id.as_str())));
    out.push('\t');
    extend_chars(&mut out, &clean_chars(&chars_of(env.name.as_str())));
    out.push('\t');
    extend_chars(&mut out, &clean_chars(&chars_of(env.status.as_str())));
    out.push('\t');
    extend_chars(&mut out, &clean_chars(&chars_of(env.path.as_str())));
    out.push('\t');
    let empty: Vec<char> = Vec::new();
    let python = match &env.python_version {
        Some(s) => chars_of(s.as_str()),
        None => Vec::new(),
    };
    extend_chars(&mut out, &clean_chars(&python));
    out.push('\t');
    let last = match &env.last_used_at {
        Some(s) => chars_of(s.as_str()),
        None => Vec::new(),
    };
    extend_chars(&mut out, &clean_chars(&last));
    assert(out@ =~= fzf_row_of(*env));
    string_of(&out)
}

/// The number of times `c` occurs in `s`.
pub open spec fn count_char(s: Seq<char>, c: char) -> int
    decreases s.len(),
{
    if s.len() == 0 {
        0
    } else {
        count_char(s.drop_last(), c) + if s.last() == c {
            1int
        } else {
            0int
        }
    }
}

proof fn lemma_count_concat(a: Seq<char>, b: Seq<char>, c: char)
    ensures
        count_char(a + b, c) == count_char(a, c) + count_char(b, c),
    decreases b.len(),
{
    if b.len() > 0 {
        lemma_count_concat(a, b.drop_last(), c);
        assert((a + b).drop_last() =~= a + b.drop_last());
    } else {
        assert(a + b =~= a);
    }
}

proof fn lemma_clean_has_no_tab(s: Seq<char>)
    ensures
        count_char(clean(s), '\t') == 0,
        !clean(s).contains('\t'),
    decreases s.len(),
{
    if s.len() > 0 {
        lemma_clean_has_no_tab(s.drop_last());
        assert(clean(s).drop_last() =~= clean(s.drop_last()));
    }
}

/// An fzf row has six fields: five tabs, and the id, cleaned, before the
/// first of them, which is what the shell picker cuts out.
pub proof fn lemma_fzf_row_fields(e: Environment)
    ensures
        count_char(fzf_row_of(e), '\t') == 5,
        fzf_row_of(e).take(clean(e.id@).len() as int) == clean(e.id@),
        fzf_row_of(e)[clean(e.id@).len() as int] == '\t',
        !clean(e.id@).contains('\t'),
{
    let t = seq!['\t'];
    let f1 = clean(e.id@);
    let f2 = clean(e.name@);
    let f3 = clean(status_text(e.status));
    let f4 = clean(e.path@);
    let f5 = clean(opt_text(e.python_version, Seq::empty()));
    let f6 = clean(opt_text(e.last_used_at, Seq::empty()));
    lemma_clean_has_no_tab(e.id@);
    lemma_clean_has_no_tab(e.name@);
    lemma_clean_has_no_tab(status_text(e.status));
    lemma_clean_has_no_tab(e.path@);
    lemma_clean_has_no_tab(opt_text(e.python_version, Seq::empty()));
    lemma_clean_has_no_tab(opt_text(e.last_used_at, Seq::empty()));
    reveal_with_fuel(count_char, 2);
    assert(count_char(t, '\t') == 1) by {
        assert(t.drop_last() =~= Seq::<char>::empty());
    }
    let r1 = f1 + t;
    let r2 = r1 + f2;
    let r3 = r2 + t;
    let r4 = r3 + f3;
    let r5 = r4 + t;
    let r6 = r5 + f4;
    let r7 = r6 + t;
    let r8 = r7 + f5;
    let r9 = r8 + t;
    let r10 = r9 + f6;
    lemma_count_concat(f1, t, '\t');
    lemma_count_concat(r1, f2, '\t');
    lemma_count_concat(r2, t, '\t');
    lemma_count_concat(r3, f3, '\t');
    lemma_count_concat(r4, t, '\t');
    lemma_count_concat(r5, f4, '\t');
    lemma_count_concat(r6, t, '\t');
    lemma_count_concat(r7, f5, '\t');
    lemma_count_concat(r8, t, '\t');
    lemma_count_concat(r9, f6, '\t');
    assert(fzf_row_of(e) == r10);
    assert(r10.take(f1.len() as int) =~= f1);
}

/// The two lines `list` prints for a record.
pub open spec fn list_lines_of(e: Environment, short: Seq<char>) -> (Seq<char>, Seq<char>) {
    (
        short + "  "@ + padded(e.name@, 24) + " "@ + padded(status_text(e.status), 8) + " "@
            + padded(opt_text(e.python_version, "-"@), 12) + " "@ + e.path@,
        "    last used: "@ + opt_text(e.last_used_at, "-"@),
    )
}

pub fn list_lines(env: &Environment) -> (res: (String, String))
    ensures
        res.0@ == list_lines_of(*env, short_id_of(env.id@)).0,
        res.1@ == list_lines_of(*env, short_id_of(env.id@)).1,
{
    let mut first: Vec<char> = Vec::new();
    extend_str(&mut first, short_id(env.id.as_str()));
    extend_str(&mut first, "  ");
    pad_into(&mut first, env.name.as_str(), 24);
    extend_str(&mut first, " ");
    pad_into(&mut first, env.status.as_str(), 8);
    extend_str(&mut first, " ");
    let python = opt_str_chars(&env.python_version, "-");
    let python = string_of(&python);
    pad_into(&mut first, python.as_str(), 12);
    extend_str(&mut first, " ");
    extend_str(&mut first, env.path.as_str());
    let mut second: Vec<char> = Vec::new();
    extend_str(&mut second, "    last used: ");
    let last = opt_str_chars(&env.last_used_at, "-");
    extend_chars(&mut second, &last);
    (string_of(&first), string_of(&second))
}

/// The character of a decimal digit.
pub open spec fn digit_char(d: int) -> char {
    if d == 0 {
        '0'
    } else if d == 1 {
        '1'
    } else if d == 2 {
        '2'
    } else if d == 3 {
        '3'
    } else if d == 4 {
        '4'
    } else if d == 5 {
        '5'
    } else if d == 6 {
        '6'
    } else if d == 7 {
        '7'
    } else if d == 8 {
        '8'
    } else {
        '9'
    }
}

/// `n` written in decimal, without leading zeros.
pub open spec fn decimal_of(n: nat) -> Seq<char>
    decreases n,
{
    if n < 10 {
        seq![digit_char(n as int)]
    } else {
        decimal_of(n / 10) + seq![digit_char((n % 10) as int)]
    }
}

fn digit(d: usize) -> (c: char)
    requires
        d < 10,
    ensures
        c == digit_char(d as int),
{
    if d == 0 {
        '0'
    } else if d == 1 {
        '1'
    } else if d == 2 {
        '2'
    } else if d == 3 {
        '3'
    } else if d == 4 {
        '4'
    } else if d == 5 {
        '5'
    } else if d == 6 {
        '6'
    } else if d == 7 {
        '7'
    } else if d == 8 {
        '8'
    } else {
        '9'
    }
}

/// Appends `n` in decimal.
pub fn extend_decimal(v: &mut Vec<char>, n: usize)
    ensures
        final(v)@ == old(v)@ + decimal_of(n as nat),
    decreases n,
{
    if n >= 10 {
        extend_decimal(v, n / 10);
    }
    v.push(digit(n % 10));
    proof {
        assert(final(v)@ =~= old(v)@ + decimal_of(n as nat));
    }
}

/// The lines `info` prints for a record: its fields, one per line, `-` for
/// what is unknown, then, when `show_packages`, one line per package.
pub open spec fn info_lines_of(
    e: Environment,
    package_count: nat,
    packages: Seq<PackageRecord>,
    show_packages: bool,
) -> Seq<Seq<char>> {
    seq![
        "Name: "@ + e.name@,
        "ID: "@ + e.id@,
        "Status: "@ + status_text(e.status),
        "Path: "@ + e.path@,
        "Project: "@ + opt_text(e.project_dir, "-"@),
        "Python: "@ + opt_text(e.python_version, "-"@),
        "Pip: "@ + opt_text(e.pip_version, "-"@),
        "Packages: "@ + decimal_of(package_count),
        "Source: "@ + source_text(e.source),
        "Last used: "@ + opt_text(e.last_used_at, "-"@),
    ] + if show_packages {
        packages.map_values(|p: PackageRecord| "  "@ + p.name@ + " "@ + p.version@)
    } else {
        Seq::empty()
    }
}

fn labelled(label: &str, value: &Vec<char>) -> (res: String)
    ensures
        res@ == label@ + value@,
{
    let mut v: Vec<char> = Vec::new();
    extend_str(&mut v, label);
    extend_chars(&mut v, value);
    string_of(&v)
}

/// The lines `info` prints for `env`.
pub fn info_lines(
    env: &Environment,
    package_count: usize,
    packages: &Vec<PackageRecord>,
    show_packages: bool,
) -> (res: Vec<String>)
    ensures
        res@.map_values(|l: String| l@) == info_lines_of(
            *env,
            package_count as nat,
            packages@,
            show_packages,
        ),
{
    let mut lines: Vec<String> = Vec::new();
    lines.push(labelled("Name: ", &chars_of(env.name.as_str())));
    lines.push(labelled("ID: ", &chars_of(env.id.as_str())));
    lines.push(labelled("Status: ", &chars_of(env.status.as_str())));
    lines.push(labelled("Path: ", &chars_of(env.path.as_str())));
    lines.push(labelled("Project: ", &opt_str_chars(&env.project_dir, "-")));
    lines.push(labelled("Python: ", &opt_str_chars(&env.python_version, "-")));
    lines.push(labelled("Pip: ", &opt_str_chars(&env.pip_version, "-")));
    let mut count: Vec<char> = Vec::new();
    extend_decimal(&mut count, package_count);
    lines.push(labelled("Packages: ", &count));
    lines.push(labelled("Source: ", &chars_of(env.source.as_str())));
    lines.push(labelled("Last used: ", &opt_str_chars(&env.last_used_at, "-")));
    let ghost head = lines@;
    let ghost fields = seq![
        "Name: "@ + env.name@,
        "ID: "@ + env.id@,
        "Status: "@ + status_text(env.status),
        "Path: "@ + env.path@,
        "Project: "@ + opt_text(env.project_dir, "-"@),
        "Python: "@ + opt_text(env.python_version, "-"@),
        "Pip: "@ + opt_text(env.pip_version, "-"@),
        "Packages: "@ + decimal_of(package_count as nat),
        "Source: "@ + source_text(env.source),
        "Last used: "@ + opt_text(env.last_used_at, "-"@),
    ];
    assert(head.map_values(|l: String| l@) =~= fields);
    if show_packages {
        let mut i: usize = 0;
        while i < packages.len()
            invariant
                i <= packages.len(),
                lines@.len() == 10 + i,
                head.len() == 10,
                forall|k: int| 0 <= k < 10 ==> #[trigger] lines@[k] == head[k],
                forall|k: int|
                    0 <= k < i ==> (#[trigger] lines@[10 + k])@ == "  "@ + packages@[k].name@
                        + " "@ + packages@[k].version@,
            decreases packages.len() - i,
        {
            let mut v: Vec<char> = Vec::new();
            extend_str(&mut v, "  ");
            extend_str(&mut v, packages[i].name.as_str());
            extend_str(&mut v, " ");
            extend_str(&mut v, packages[i].version.as_str());
            lines.push(string_of(&v));
            i = i + 1;
        }
        let ghost want = info_lines_of(*env, package_count as nat, packages@, show_packages);
        assert forall|k: int| 0 <= k < lines@.len() implies #[trigger] lines@[k]@ == want[k] by {
            let rows = packages@.map_values(|p: PackageRecord| "  "@ + p.name@ + " "@ + p.version@);
            assert(want == fields + rows);
            if k < 10 {
                assert(head.map_values(|l: String| l@)[k] == fields[k]);
            } else {
                let j = k - 10;
                assert(lines@[10 + j]@ == rows[j]);
            }
        }
        assert(lines@.map_values(|l: String| l@) =~= info_lines_of(
            *env,
            package_count as nat,
            packages@,
            show_packages,
        ));
    } else {
        assert(lines@.map_values(|l: String| l@) =~= info_lines_of(
            *env,
            package_count as nat,
            packages@,
            show_packages,
        ));
    }
    lines
}

/// One `prune --dry-run` row: id, name, status and path, separated by tabs.
pub open spec fn prune_row_of(e: Environment) -> Seq<char> {
    e.id@ + "\t"@ + e.name@ + "\t"@ + status_text(e.status) + "\t"@ + e.path@
}

pub fn prune_row(env: &Environment) -> (res: String)
    ensures
        res@ == prune_row_of(*env),
{
    let mut v: Vec<char> = Vec::new();
    extend_str(&mut v, env.id.as_str());
    extend_str(&mut v, "\t");
    extend_str(&mut v, env.name.as_str());
    extend_str(&mut v, "\t");
    extend_str(&mut v, env.status.as_str());
    extend_str(&mut v, "\t");
    extend_str(&mut v, env.path.as_str());
    string_of(&v)
}

/// One `pythons` row: the version key and the version, padded to their
/// columns, `-` where unknown, then the interpreter's path.
pub open spec fn python_row_of(i: PythonInterpreter) -> Seq<char> {
    padded(opt_text(i.version_key, "-"@), 10) + " "@ + padded(opt_text(i.version, "-"@), 14) + " "@
        + i.path@
}

pub fn python_row(interpreter: &PythonInterpreter) -> (res: String)
    ensures
        res@ == python_row_of(*interpreter),
{
    let mut v: Vec<char> = Vec::new();
    let key = string_of(&opt_str_chars(&interpreter.version_key, "-"));
    pad_into(&mut v, key.as_str(), 10);
    extend_str(&mut v, " ");
    let version = string_of(&opt_str_chars(&interpreter.version, "-"));
    pad_into(&mut v, version.as_str(), 14);
    extend_str(&mut v, " ");
    extend_str(&mut v, interpreter.path.as_str());
    string_of(&v)
}

/// What `doctor` prints of duplicate names: `ok`, or `found` and one line
/// per name with the number of records that hold it.
pub open spec fn duplicate_report_of(dups: Seq<(String, usize)>) -> Seq<Seq<char>> {
    if dups.len() == 0 {
        seq!["check duplicate names: ok"@]
    } else {
        seq!["check duplicate names: found"@] + dups.map_values(
            |d: (String, usize)| "  "@ + d.0@ + ": "@ + decimal_of(d.1 as nat),
        )
    }
}

pub fn duplicate_report(dups: &Vec<(String, usize)>) -> (res: Vec<String>)
    ensures
        res@.map_values(|l: String| l@) == duplicate_report_of(dups@),
{
    let mut lines: Vec<String> = Vec::new();
    if dups.len() == 0 {
        lines.push(string_of(&chars_of("check duplicate names: ok")));
        assert(lines@.map_values(|l: String| l@) =~= duplicate_report_of(dups@));
        return lines;
    }
    lines.push(string_of(&chars_of("check duplicate names: found")));
    let mut i: usize = 0;
    while i < dups.len()
        invariant
            i <= dups.len(),
            lines@.len() == 1 + i,
            lines@[0]@ == "check duplicate names: found"@,
            forall|k: int|
                0 <= k < i ==> (#[trigger] lines@[1 + k])@ == "  "@ + dups@[k].0@ + ": "@
                    + decimal_of(dups@[k].1 as nat),
        decreases dups.len() - i,
    {
        let mut v: Vec<char> = Vec::new();
        extend_str(&mut v, "  ");
        extend_str(&mut v, dups[i].0.as_str());
        extend_str(&mut v, ": ");
        extend_decimal(&mut v, dups[i].1);
        lines.push(string_of(&v));
        i = i + 1;
    }
    let ghost want = duplicate_report_of(dups@);
    let ghost rows = dups@.map_values(
        |d: (String, usize)| "  "@ + d.0@ + ": "@ + decimal_of(d.1 as nat),
    );
    assert forall|k: int| 0 <= k < lines@.len() implies #[trigger] lines@[k]@ == want[k] by {
        assert(want == seq!["check duplicate names: found"@] + rows);
        if k > 0 {
            let j = k - 1;
            assert(lines@[1 + j]@ == rows[j]);
        }
    }
    assert(lines@.map_values(|l: String| l@) =~= duplicate_report_of(dups@));
    lines
}

/// `check <name>: ok` or `check <name>: failed`; a failed check adds one to
/// `issues`.
pub fn report_check(name: &str, ok: bool, issues: &mut usize) -> (res: String)
    requires
        !ok ==> *old(issues) < usize::MAX,
    ensures
        res@ == "check "@ + name@ + ": "@ + (if ok {
            "ok"@
        } else {
            "failed"@
        }),
        *final(issues) == *old(issues) + (if ok {
            0int
        } else {
            1int
        }),
{
    let mut v: Vec<char> = Vec::new();
    extend_str(&mut v, "check ");
    extend_str(&mut v, name);
    extend_str(&mut v, ": ");
    if ok {
        extend_str(&mut v, "ok");
    } else {
        extend_str(&mut v, "failed");
        *issues = *issues + 1;
    }
    string_of(&v)
}

/// `check <name>: ok`, or a warning that counts as no issue.
pub fn report_optional_check(name: &str, ok: bool) -> (res: String)
    ensures
        res@ == "check "@ + name@ + ": "@ + (if ok {
            "ok"@
        } else {
            "warning (optional)"@
        }),
{
    let mut v: Vec<char> = Vec::new();
    extend_str(&mut v, "check ");
    extend_str(&mut v, name);
    extend_str(&mut v, ": ");
    if ok {
        extend_str(&mut v, "ok");
    } else {
        extend_str(&mut v, "warning (optional)");
    }
    string_of(&v)
}

/// `<context>: <stderr><stdout>`, the report of a command that failed.
pub fn command_failure_message(context: &str, stderr: &str, stdout: &str) -> (res: String)
    ensures
        res@ == context@ + ": "@ + stderr@ + stdout@,
{
    let mut v: Vec<char> = Vec::new();
    extend_str(&mut v, context);
    extend_str(&mut v, ": ");
    extend_str(&mut v, stderr);
    extend_str(&mut v, stdout);
    string_of(&v)
}

/// The text `String::from_utf8_lossy` makes of `bytes`: valid UTF-8 as it
/// is, each invalid sequence replaced by U+FFFD.
pub uninterp spec fn lossy_text(bytes: Seq<u8>) -> Seq<char>;

/// `String::from_utf8_lossy`, owned: the result is named `lossy_text`, and
/// valid UTF-8 is decoded as it is. How invalid sequences are replaced is
/// left to the name.
#[verifier::external_body]
fn utf8_lossy(bytes: &[u8]) -> (res: String)
    ensures
        res@ == lossy_text(bytes@),
        vstd::utf8::valid_utf8(bytes@) ==> res@ == vstd::utf8::decode_utf8(bytes@),
{
    String::from_utf8_lossy(bytes).into_owned()
}

/// A path's bytes as text, as `String::from_utf8_lossy` makes it; valid
/// UTF-8 is kept as it is.
pub fn path_to_string(bytes: &[u8]) -> (res: String)
    ensures
        res@ == lossy_text(bytes@),
        vstd::utf8::valid_utf8(bytes@) ==> res@ == vstd::utf8::decode_utf8(bytes@),
{
    utf8_lossy(bytes)
}

/// The resolved form of an existing path, or the failure to resolve it.
pub fn absolute_existing(path: &str, resolved: Option<String>) -> (res: Result<String, VmnError>)
    ensures
        resolved is Some ==> res == Ok::<String, VmnError>(resolved.unwrap()),
        resolved is None ==> (res matches Err(VmnError::ResolveFailed { path: p }) && p@ == path@),
{
    match resolved {
        Some(p) => Ok(p),
        None => Err(VmnError::ResolveFailed { path: string_of(&chars_of(path)) }),
    }
}

/// The config file that `init` writes where none exists.
pub const CONFIG_TEMPLATE: &'static str = "# vmn configuration\n# Generated by vmn init.\n";

/// What `deactivate` prints when it runs outside the shell integration.
pub const DEACTIVATE_GUIDANCE: &'static str = "vmn deactivate must run through shell integration to affect your current shell.\nRun `vmn init --shell zsh` or `vmn init --shell bash`, add the snippet to your shell config, then use `vmn deactivate`.\nWithout shell integration, `vmn activate <selector>` starts an activated subshell; type `exit` to leave it.";

/// The script an activated subshell runs: change to the project directory
/// (`$1`), source the activation script (`$2`), announce the name (`$3`) and
/// hand over to an interactive shell.
pub const SUBSHELL_SCRIPT: &'static str = r#"if [ -n "$1" ]; then
  cd "$1" || exit 101
fi
. "$2" || exit 102
if [ -n "${VMN_ACTIVATE_TEST_NO_EXEC:-}" ]; then
  printf '%s\n' "${VIRTUAL_ENV:-}"
  pwd
  exit 0
fi
printf 'vmn: activated %s. Type exit to return to the previous shell.\n' "$3" >&2
exec "${SHELL:-/bin/sh}" -i
exit 103"#;

/// The zsh integration that `init --shell zsh` prints.
pub const ZSH_SNIPPET: &'static str = r##"# VMN zsh integration
_vmn_activate() {
  local selector project_dir activate_path
  selector="$1"
  [[ -z "$selector" ]] && return 1

  project_dir=$(command vmn project-dir "$selector") || return
  if [[ -n "$project_dir" ]]; then
    cd "$project_dir" || return
  fi

  activate_path=$(command vmn activate-path "$selector") || return
  source "$activate_path"
}

_vmn_deactivate() {
  if (( $+functions[deactivate] )); then
    deactivate
  else
    echo "No active Python virtual environment." >&2
    return 1
  fi
}

vmn() {
  case "$1" in
    activate)
      shift
      if [[ $# -ne 1 ]]; then
        echo "usage: vmn activate <name-or-id>" >&2
        return 2
      fi
      _vmn_activate "$1"
      ;;
    deactivate)
      shift
      if [[ $# -ne 0 ]]; then
        echo "usage: vmn deactivate" >&2
        return 2
      fi
      _vmn_deactivate
      ;;
    *)
      command vmn "$@"
      ;;
  esac
}

v() {
  local selected id

  if ! command -v fzf >/dev/null 2>&1; then
    echo 'vmn: fzf is required for the interactive picker. Install fzf or use "vmn list" and "vmn activate <selector>".' >&2
    return 1
  fi

  selected=$(command vmn list --fzf | fzf --delimiter=$'\t' --with-nth=2,3,4 --height=40% --reverse) || return
  id=${selected%%$'\t'*}
  [[ -z "$id" ]] && return
  _vmn_activate "$id"
}

vd() {
  _vmn_deactivate
}

_vmn_widget() {
  zle -I
  v
  zle reset-prompt
}

_vmn_deactivate_widget() {
  zle -I
  vd
  zle reset-prompt
}

if [[ -o interactive ]]; then
  zle -N _vmn_widget 2>/dev/null
  zle -N _vmn_deactivate_widget 2>/dev/null

  # Ctrl-F opens the VMN picker.
  bindkey '^F' _vmn_widget 2>/dev/null

  # Ctrl-Shift-F is only distinguishable in terminals that emit CSI-u keys.
  # Ctrl-X Ctrl-F is a portable fallback for deactivating the current venv.
  bindkey $'\e[70;6u' _vmn_deactivate_widget 2>/dev/null
  bindkey '^X^F' _vmn_deactivate_widget 2>/dev/null
fi"##;

/// The bash integration that `init --shell bash` prints.
pub const BASH_SNIPPET: &'static str = r##"# VMN bash integration
_vmn_activate() {
  local selector project_dir activate_path
  selector="$1"
  [[ -z "$selector" ]] && return 1

  project_dir=$(command vmn project-dir "$selector") || return
  if [[ -n "$project_dir" ]]; then
    cd "$project_dir" || return
  fi

  activate_path=$(command vmn activate-path "$selector") || return
  source "$activate_path"
}

_vmn_deactivate() {
  if declare -F deactivate >/dev/null; then
    deactivate
  else
    echo "No active Python virtual environment." >&2
    return 1
  fi
}

vmn() {
  case "$1" in
    activate)
      shift
      if [[ $# -ne 1 ]]; then
        echo "usage: vmn activate <name-or-id>" >&2
        return 2
      fi
      _vmn_activate "$1"
      ;;
    deactivate)
      shift
      if [[ $# -ne 0 ]]; then
        echo "usage: vmn deactivate" >&2
        return 2
      fi
      _vmn_deactivate
      ;;
    *)
      command vmn "$@"
      ;;
  esac
}

v() {
  local selected id

  if ! command -v fzf >/dev/null 2>&1; then
    echo 'vmn: fzf is required for the interactive picker. Install fzf or use "vmn list" and "vmn activate <selector>".' >&2
    return 1
  fi

  selected=$(command vmn list --fzf | fzf --delimiter=$'\t' --with-nth=2,3,4 --height=40% --reverse) || return
  id=${selected%%$'\t'*}
  [[ -z "$id" ]] && return
  _vmn_activate "$id"
}

vd() {
  _vmn_deactivate
}

if [[ $- == *i* ]]; then
  # Ctrl-F opens the VMN picker.
  bind -x '"\C-f": v' 2>/dev/null

  # Ctrl-Shift-F is only distinguishable in terminals that emit CSI-u keys.
  # Ctrl-X Ctrl-F is a portable fallback for deactivating the current venv.
  bind -x '"\e[70;6u": vd' 2>/dev/null
  bind -x '"\C-x\C-f": vd' 2>/dev/null
fi"##;

/// The configuration file that `init` writes where there is none.
pub fn config_template() -> (res: &'static str)
    ensures
        res == CONFIG_TEMPLATE,
{
    CONFIG_TEMPLATE
}

/// What `deactivate` says when it runs outside the shell integration.
pub fn deactivate_guidance() -> (res: &'static str)
    ensures
        res == DEACTIVATE_GUIDANCE,
{
    DEACTIVATE_GUIDANCE
}

/// The script an activated subshell runs: `$1` is the project directory, `$2`
/// the activation script, `$3` the environment's name.
pub fn subshell_script() -> (res: &'static str)
    ensures
        res == SUBSHELL_SCRIPT,
{
    SUBSHELL_SCRIPT
}

/// The zsh integration that `init --shell zsh` prints.
pub fn zsh_snippet() -> (res: &'static str)
    ensures
        res == ZSH_SNIPPET,
{
    ZSH_SNIPPET
}

/// The bash integration that `init --shell bash` prints.
pub fn bash_snippet() -> (res: &'static str)
    ensures
        res == BASH_SNIPPET,
{
    BASH_SNIPPET
}

/// The integration `init` prints for `shell`.
pub fn init_snippet(shell: crate::cli::Shell) -> (res: &'static str)
    ensures
        res == (match shell {
            crate::cli::Shell::Zsh => ZSH_SNIPPET,
            crate::cli::Shell::Bash => BASH_SNIPPET,
        }),
{
    match shell {
        crate::cli::Shell::Zsh => zsh_snippet(),
        crate::cli::Shell::Bash => bash_snippet(),
    }
}

} // verus!
