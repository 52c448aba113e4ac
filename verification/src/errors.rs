//! The ways a command can fail, each with the text it is reported with.
use vstd::prelude::*;
use crate::model::{EnvStatus, Environment, status_text};
use crate::output::{decimal_of, extend_decimal};
use crate::text::{extend_str, string_of};

verus! {

#[derive(Debug)]
pub enum VmnError {
    /// No environment matches the selector.
    NoMatch { selector: String },
    /// Several environments match the selector; they are listed by id.
    Ambiguous { selector: String, matches: Vec<Environment> },
    /// A new record's id is already taken by a record with another path.
    DuplicateId { id: String },
    /// A package snapshot names an environment the registry does not hold.
    UnknownEnvironment { id: String },
    /// A package snapshot names one package twice.
    DuplicatePackage,
    /// The environment cannot be activated in its present state.
    NotActive { name: String, status: EnvStatus },
    /// The environment's directory is gone.
    PathMissing { path: String },
    /// The environment's activation script is gone.
    ActivationScriptMissing { path: String },
    /// `create` was given both `--here` and `--path`.
    HereWithPath,
    /// A managed environment's name is empty or white space.
    EmptyName,
    /// A managed environment's name holds a path separator.
    NameHasSeparator,
    /// The target of `create` exists and is not a venv.
    NotAVenv { path: String },
    /// The target of `create` has no parent directory.
    NoParent { path: String },
    /// `refresh` was given both `--all` and a selector.
    RefreshBoth,
    /// `refresh` was given neither `--all` nor a selector.
    RefreshNeither,
    /// Deletion target does not exist.
    PathDoesNotExist { path: String },
    /// Deletion target is not a directory.
    NotADirectory { path: String },
    /// Deletion target has no `pyvenv.cfg`.
    NoPyvenvCfg { path: String },
    /// Deletion target has no activation script.
    NoActivationScript { path: String },
    /// `--python` was empty.
    EmptyPythonSelector,
    /// `--python` named a path that does not exist.
    PythonNotFound { selector: String },
    /// No discovered interpreter matches `--python`.
    NoPythonMatch { selector: String },
    /// The activated subshell could not enter the project directory.
    ProjectDirFailed { dir: String },
    /// The activated subshell could not source the activation script.
    ActivateFailed { path: String },
    /// The activated subshell could not start an interactive shell.
    ShellFailed { shell: String },
    /// The user did not confirm.
    Aborted,
    /// An existing path could not be resolved.
    ResolveFailed { path: String },
    /// The system clock reads a time before 1970, or one too far ahead to
    /// write down.
    ClockUnavailable,
    /// `doctor` found problems; `count` of them.
    DoctorIssues { count: usize },
}

/// The lines that list the matches of an ambiguous selector.
pub open spec fn match_lines(m: Seq<Environment>) -> Seq<char>
    decreases m.len(),
{
    if m.len() == 0 {
        Seq::empty()
    } else {
        match_lines(m.drop_last()) + "\n  "@ + m.last().id@ + "  "@ + m.last().name@ + "  "@
            + m.last().path@
    }
}

/// The text a failure is reported with.
pub open spec fn error_text(e: VmnError) -> Seq<char> {
    match e {
        VmnError::NoMatch { selector } => "no environment matches selector '"@ + selector@ + "'"@,
        VmnError::Ambiguous { selector, matches } => "selector '"@ + selector@ + "' is ambiguous:"@
            + match_lines(matches@),
        VmnError::DuplicateId { id } => "UNIQUE constraint failed: environments.id"@,
        VmnError::UnknownEnvironment { id } => "FOREIGN KEY constraint failed"@,
        VmnError::DuplicatePackage => "UNIQUE constraint failed: packages.env_id, packages.name"@,
        VmnError::NotActive { name, status } => "environment '"@ + name@ + "' is "@ + status_text(
            status,
        ),
        VmnError::PathMissing { path } => "environment path is missing: "@ + path@,
        VmnError::ActivationScriptMissing { path } => "activation script is missing: "@ + path@,
        VmnError::HereWithPath => "--here and --path cannot be used together"@,
        VmnError::EmptyName => "environment name cannot be empty"@,
        VmnError::NameHasSeparator => "managed environment name cannot contain path separators"@,
        VmnError::NotAVenv { path } => "target path exists but is not a Python venv: "@ + path@,
        VmnError::NoParent { path } => "target path has no parent: "@ + path@,
        VmnError::RefreshBoth => "pass either --all or a selector, not both"@,
        VmnError::RefreshNeither => "refresh requires a selector or --all"@,
        VmnError::PathDoesNotExist { path } => "path does not exist: "@ + path@,
        VmnError::NotADirectory { path } => "path is not a directory: "@ + path@,
        VmnError::NoPyvenvCfg { path } => "refusing to delete path without pyvenv.cfg: "@ + path@,
        VmnError::NoActivationScript { path } => "refusing to delete path without activation script: "@
            + path@,
        VmnError::EmptyPythonSelector => "Python selector cannot be empty"@,
        VmnError::PythonNotFound { selector } => "Python executable not found: "@ + selector@,
        VmnError::NoPythonMatch { selector } => "no Python interpreter matches '"@ + selector@
            + "'. Run 'vmn pythons' to see installed versions"@,
        VmnError::ProjectDirFailed { dir } => "failed to change to project directory "@ + dir@,
        VmnError::ActivateFailed { path } => "failed to activate "@ + path@,
        VmnError::ShellFailed { shell } => "failed to start interactive shell "@ + shell@,
        VmnError::Aborted => "aborted"@,
        VmnError::ResolveFailed { path } => "failed to resolve "@ + path@,
        VmnError::ClockUnavailable => "system time before Unix epoch"@,
        VmnError::DoctorIssues { count } => "doctor found "@ + decimal_of(count as nat)
            + " issue(s)"@,
    }
}

fn push2(v: &mut Vec<char>, a: &str, b: &str)
    ensures
        final(v)@ == old(v)@ + a@ + b@,
{
    extend_str(v, a);
    extend_str(v, b);
}

fn push3(v: &mut Vec<char>, a: &str, b: &str, c: &str)
    ensures
        final(v)@ == old(v)@ + a@ + b@ + c@,
{
    extend_str(v, a);
    extend_str(v, b);
    extend_str(v, c);
}

impl VmnError {
    /// The text this failure is reported with.
    pub fn message(&self) -> (res: String)
        ensures
            res@ == error_text(*self),
    {
        let mut v: Vec<char> = Vec::new();
        match self {
            VmnError::NoMatch { selector } => {
                push3(&mut v, "no environment matches selector '", selector.as_str(), "'");
            },
            VmnError::Ambiguous { selector, matches } => {
                push3(&mut v, "selector '", selector.as_str(), "' is ambiguous:");
                let ghost head = v@;
                let mut i: usize = 0;
                while i < matches.len()
                    invariant
                        i <= matches.len(),
                        v@ == head + match_lines(matches@.take(i as int)),
                    decreases matches.len() - i,
                {
                    let e = &matches[i];
                    push3(&mut v, "\n  ", e.id.as_str(), "  ");
                    push3(&mut v, e.name.as_str(), "  ", e.path.as_str());
                    proof {
                        assert(matches@.take(i + 1).drop_last() =~= matches@.take(i as int));
                        assert(matches@.take(i + 1).last() == matches@[i as int]);
                        assert(v@ =~= head + match_lines(matches@.take(i + 1)));
                    }
                    i = i + 1;
                }
                assert(matches@.take(matches.len() as int) =~= matches@);
            },
            VmnError::DuplicateId { id } => {
                extend_str(&mut v, "UNIQUE constraint failed: environments.id");
            },
            VmnError::UnknownEnvironment { id } => {
                extend_str(&mut v, "FOREIGN KEY constraint failed");
            },
            VmnError::DuplicatePackage => {
                extend_str(&mut v, "UNIQUE constraint failed: packages.env_id, packages.name");
            },
            VmnError::NotActive { name, status } => {
                push3(&mut v, "environment '", name.as_str(), "' is ");
                extend_str(&mut v, status.as_str());
            },
            VmnError::PathMissing { path } => {
                push2(&mut v, "environment path is missing: ", path.as_str());
            },
            VmnError::ActivationScriptMissing { path } => {
                push2(&mut v, "activation script is missing: ", path.as_str());
            },
            VmnError::HereWithPath => {
                extend_str(&mut v, "--here and --path cannot be used together");
            },
            VmnError::EmptyName => {
                extend_str(&mut v, "environment name cannot be empty");
            },
            VmnError::NameHasSeparator => {
                extend_str(&mut v, "managed environment name cannot contain path separators");
            },
            VmnError::NotAVenv { path } => {
                push2(&mut v, "target path exists but is not a Python venv: ", path.as_str());
            },
            VmnError::NoParent { path } => {
                push2(&mut v, "target path has no parent: ", path.as_str());
            },
            VmnError::RefreshBoth => {
                extend_str(&mut v, "pass either --all or a selector, not both");
            },
            VmnError::RefreshNeither => {
                extend_str(&mut v, "refresh requires a selector or --all");
            },
            VmnError::PathDoesNotExist { path } => {
                push2(&mut v, "path does not exist: ", path.as_str());
            },
            VmnError::NotADirectory { path } => {
                push2(&mut v, "path is not a directory: ", path.as_str());
            },
            VmnError::NoPyvenvCfg { path } => {
                push2(&mut v, "refusing to delete path without pyvenv.cfg: ", path.as_str());
            },
            VmnError::NoActivationScript { path } => {
                push2(&mut v, "refusing to delete path without activation script: ", path.as_str());
            },
            VmnError::EmptyPythonSelector => {
                extend_str(&mut v, "Python selector cannot be empty");
            },
            VmnError::PythonNotFound { selector } => {
                push2(&mut v, "Python executable not found: ", selector.as_str());
            },
            VmnError::NoPythonMatch { selector } => {
                push3(
                    &mut v,
                    "no Python interpreter matches '",
                    selector.as_str(),
                    "'. Run 'vmn pythons' to see installed versions",
                );
            },
            VmnError::ProjectDirFailed { dir } => {
                push2(&mut v, "failed to change to project directory ", dir.as_str());
            },
            VmnError::ActivateFailed { path } => {
                push2(&mut v, "failed to activate ", path.as_str());
            },
            VmnError::ShellFailed { shell } => {
                push2(&mut v, "failed to start interactive shell ", shell.as_str());
            },
            VmnError::Aborted => {
                extend_str(&mut v, "aborted");
            },
            VmnError::ResolveFailed { path } => {
                push2(&mut v, "failed to resolve ", path.as_str());
            },
            VmnError::ClockUnavailable => {
                extend_str(&mut v, "system time before Unix epoch");
            },
            VmnError::DoctorIssues { count } => {
                extend_str(&mut v, "doctor found ");
                extend_decimal(&mut v, *count);
                extend_str(&mut v, " issue(s)");
            },
        }
        string_of(&v)
    }
}

} // verus!
