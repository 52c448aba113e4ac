//! The command line as data, and the choices each command makes from its
//! arguments alone.
use vstd::prelude::*;
use crate::errors::VmnError;
use crate::model::{EnvStatus, StatusFilter};
use crate::paths::{join_path, path_join, validate_managed_name};
use crate::text::{all_ws, chars_of, string_of};

verus! {

/// A parsed command line.
pub struct Cli {
    pub command: Commands,
}

pub enum Commands {
    Init(InitArgs),
    List(ListArgs),
    Activate(SelectorArgs),
    Deactivate,
    ActivatePath(SelectorArgs),
    Path(SelectorArgs),
    ProjectDir(SelectorArgs),
    Create(CreateArgs),
    Scan(ScanArgs),
    Info(InfoArgs),
    Refresh(RefreshArgs),
    Remove(RemoveArgs),
    Prune(PruneArgs),
    Pythons(PythonsArgs),
    Doctor,
}

pub struct InitArgs {
    pub shell: Shell,
    pub print_shell: bool,
}

#[derive(Clone, Copy, Debug, PartialEq, Eq, Structural)]
pub enum Shell {
    Zsh,
    Bash,
}

pub struct ListArgs {
    pub fzf: bool,
    pub json: bool,
    pub include_missing: bool,
    pub all: bool,
}

pub struct SelectorArgs {
    pub selector: String,
}

pub struct CreateArgs {
    pub name: String,
    pub here: bool,
    pub path: Option<String>,
    pub python: String,
    pub no_activate_output: bool,
}

pub struct ScanArgs {
    pub dirs: Vec<String>,
    pub max_depth: Option<usize>,
    pub dry_run: bool,
    pub json: bool,
}

pub struct InfoArgs {
    pub selector: String,
    pub packages: bool,
    pub json: bool,
    pub live: bool,
}

pub struct RefreshArgs {
    pub selector: Option<String>,
    pub all: bool,
}

pub struct RemoveArgs {
    pub selector: String,
    pub delete_files: bool,
    pub yes: bool,
}

pub struct PruneArgs {
    pub dry_run: bool,
    pub missing: bool,
    pub deleted: bool,
    pub yes: bool,
}

pub struct PythonsArgs {
    pub json: bool,
}

/// `list` shows active records; `--include-missing` adds missing ones and
/// `--all` every record.
pub fn list_filter(args: &ListArgs) -> (res: StatusFilter)
    ensures
        res == (if args.all {
            StatusFilter::All
        } else if args.include_missing {
            StatusFilter::ActiveAndMissing
        } else {
            StatusFilter::ActiveOnly
        }),
{
    if args.all {
        StatusFilter::All
    } else if args.include_missing {
        StatusFilter::ActiveAndMissing
    } else {
        StatusFilter::ActiveOnly
    }
}

/// What `refresh` works on: every active or missing record (`None`), or the
/// record a selector names.
pub fn refresh_selection(args: &RefreshArgs) -> (res: Result<Option<String>, VmnError>)
    ensures
        args.all && args.selector is Some ==> res == Err::<Option<String>, VmnError>(
            VmnError::RefreshBoth,
        ),
        !args.all && args.selector is None ==> res == Err::<Option<String>, VmnError>(
            VmnError::RefreshNeither,
        ),
        args.all && args.selector is None ==> res == Ok::<Option<String>, VmnError>(None),
        !args.all && args.selector is Some ==> (res matches Ok(Some(s)) && s@
            == args.selector.unwrap()@),
{
    match &args.selector {
        Some(s) => {
            if args.all {
                Err(VmnError::RefreshBoth)
            } else {
                Ok(Some(string_of(&chars_of(s.as_str()))))
            }
        },
        None => {
            if args.all {
                Ok(None)
            } else {
                Err(VmnError::RefreshNeither)
            }
        },
    }
}

/// The statuses `prune` removes: those asked for, or missing and deleted
/// where neither is.
pub fn prune_statuses(missing: bool, deleted: bool) -> (res: Vec<EnvStatus>)
    ensures
        res@ == (if !missing && !deleted {
            seq![EnvStatus::Missing, EnvStatus::Deleted]
        } else if missing && deleted {
            seq![EnvStatus::Missing, EnvStatus::Deleted]
        } else if missing {
            seq![EnvStatus::Missing]
        } else {
            seq![EnvStatus::Deleted]
        }),
        !res@.contains(EnvStatus::Active),
{
    let mut statuses: Vec<EnvStatus> = Vec::new();
    if missing {
        statuses.push(EnvStatus::Missing);
    }
    if deleted {
        statuses.push(EnvStatus::Deleted);
    }
    if statuses.len() == 0 {
        statuses.push(EnvStatus::Missing);
        statuses.push(EnvStatus::Deleted);
    }
    assert(statuses@ =~= (if !missing && !deleted {
        seq![EnvStatus::Missing, EnvStatus::Deleted]
    } else if missing && deleted {
        seq![EnvStatus::Missing, EnvStatus::Deleted]
    } else if missing {
        seq![EnvStatus::Missing]
    } else {
        seq![EnvStatus::Deleted]
    }));
    statuses
}

/// Where `create` puts the environment: `./.venv` with `--here`, the given
/// path with `--path`, else a directory named after it among the managed
/// environments. `--here` with `--path` and a bad managed name are refused.
pub fn create_target(args: &CreateArgs, cwd: Option<&str>, managed_dir: &str) -> (res: Result<
    String,
    VmnError,
>)
    requires
        args.here && args.path is None ==> cwd is Some,
    ensures
        args.here && args.path is Some ==> res == Err::<String, VmnError>(VmnError::HereWithPath),
        args.here && args.path is None ==> (res matches Ok(t) && t@ == path_join(
            cwd.unwrap()@,
            ".venv"@,
        )),
        !args.here && args.path is Some ==> (res matches Ok(t) && t@ == args.path.unwrap()@),
        !args.here && args.path is None && all_ws(args.name@) ==> res == Err::<String, VmnError>(
            VmnError::EmptyName,
        ),
        !args.here && args.path is None && !all_ws(args.name@) && (args.name@.contains('/')
            || args.name@.contains('\\')) ==> res == Err::<String, VmnError>(
            VmnError::NameHasSeparator,
        ),
        !args.here && args.path is None && !all_ws(args.name@) && !args.name@.contains('/')
            && !args.name@.contains('\\') ==> (res matches Ok(t) && t@ == path_join(
            managed_dir@,
            args.name@,
        )),
{
    if args.here && args.path.is_some() {
        return Err(VmnError::HereWithPath);
    }
    if args.here {
        match cwd {
            Some(dir) => Ok(join_path(dir, ".venv")),
            None => Err(VmnError::HereWithPath),
        }
    } else {
        match &args.path {
            Some(p) => Ok(string_of(&chars_of(p.as_str()))),
            None => {
                validate_managed_name(args.name.as_str())?;
                Ok(join_path(managed_dir, args.name.as_str()))
            },
        }
    }
}

/// `yes`, give or take surrounding white space, confirms.
pub fn confirmation_accepted(input: &str) -> (res: bool)
    ensures
        res == (crate::text::trim(input@) == "yes"@),
{
    let t = crate::text::trim_str(input);
    crate::text::str_equal(t.as_str(), "yes")
}

/// The shell an activated subshell runs: `$SHELL` where it is set and not
/// blank, else `/bin/sh`.
pub fn choose_shell(var: Option<String>) -> (res: String)
    ensures
        var is Some && !all_ws(var.unwrap()@) ==> res == var.unwrap(),
        (var is None || all_ws(var.unwrap()@)) ==> res@ == "/bin/sh"@,
{
    match var {
        Some(v) => {
            if crate::text::is_blank(v.as_str()) {
                string_of(&chars_of("/bin/sh"))
            } else {
                v
            }
        },
        None => string_of(&chars_of("/bin/sh")),
    }
}

/// What the activated subshell's exit code means.
pub fn subshell_outcome(code: Option<i32>, project_dir: &str, activate: &str, shell: &str) -> (res:
    Result<(), VmnError>)
    ensures
        code == Some(101i32) ==> (res matches Err(VmnError::ProjectDirFailed { dir }) && dir@
            == project_dir@),
        code == Some(102i32) ==> (res matches Err(VmnError::ActivateFailed { path }) && path@
            == activate@),
        code == Some(103i32) ==> (res matches Err(VmnError::ShellFailed { shell: s }) && s@
            == shell@),
        code != Some(101i32) && code != Some(102i32) && code != Some(103i32) ==> res is Ok,
{
    match code {
        Some(101) => Err(VmnError::ProjectDirFailed { dir: string_of(&chars_of(project_dir)) }),
        Some(102) => Err(VmnError::ActivateFailed { path: string_of(&chars_of(activate)) }),
        Some(103) => Err(VmnError::ShellFailed { shell: string_of(&chars_of(shell)) }),
        _ => Ok(()),
    }
}

} // verus!
