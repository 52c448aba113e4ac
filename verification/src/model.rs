//! The records the registry keeps: environments, their origin and state, and
//! the package snapshots taken of them.
use vstd::prelude::*;

verus! {

/// How an environment came to be registered.
#[derive(Clone, Copy, Debug, PartialEq, Eq, Structural)]
pub enum EnvSource {
    Managed,
    Scanned,
    Manual,
}

/// The text stored for a source.
pub open spec fn source_text(s: EnvSource) -> Seq<char> {
    match s {
        EnvSource::Managed => "managed"@,
        EnvSource::Scanned => "scanned"@,
        EnvSource::Manual => "manual"@,
    }
}

/// The source whose stored text is `t`, if any.
pub open spec fn source_from_text(t: Seq<char>) -> Option<EnvSource> {
    if t == "managed"@ {
        Some(EnvSource::Managed)
    } else if t == "scanned"@ {
        Some(EnvSource::Scanned)
    } else if t == "manual"@ {
        Some(EnvSource::Manual)
    } else {
        None
    }
}

impl EnvSource {
    pub fn as_str(self) -> (s: &'static str)
        ensures
            s@ == source_text(self),
    {
        match self {
            EnvSource::Managed => "managed",
            EnvSource::Scanned => "scanned",
            EnvSource::Manual => "manual",
        }
    }

    pub fn from_str(value: &str) -> (res: Option<EnvSource>)
        ensures
            res == source_from_text(value@),
    {
        if crate::text::str_equal(value, "managed") {
            Some(EnvSource::Managed)
        } else if crate::text::str_equal(value, "scanned") {
            Some(EnvSource::Scanned)
        } else if crate::text::str_equal(value, "manual") {
            Some(EnvSource::Manual)
        } else {
            None
        }
    }
}

/// Whether an environment is usable, gone from disk, or removed by the user.
#[derive(Clone, Copy, Debug, PartialEq, Eq, Structural)]
pub enum EnvStatus {
    Active,
    Missing,
    Deleted,
}

pub open spec fn status_text(s: EnvStatus) -> Seq<char> {
    match s {
        EnvStatus::Active => "active"@,
        EnvStatus::Missing => "missing"@,
        EnvStatus::Deleted => "deleted"@,
    }
}

pub open spec fn status_from_text(t: Seq<char>) -> Option<EnvStatus> {
    if t == "active"@ {
        Some(EnvStatus::Active)
    } else if t == "missing"@ {
        Some(EnvStatus::Missing)
    } else if t == "deleted"@ {
        Some(EnvStatus::Deleted)
    } else {
        None
    }
}

impl EnvStatus {
    pub fn as_str(self) -> (s: &'static str)
        ensures
            s@ == status_text(self),
    {
        match self {
            EnvStatus::Active => "active",
            EnvStatus::Missing => "missing",
            EnvStatus::Deleted => "deleted",
        }
    }

    /// The status stored as `value`, if `value` names one.
    pub fn from_str(value: &str) -> (res: Option<EnvStatus>)
        ensures
            res == status_from_text(value@),
    {
        if crate::text::str_equal(value, "active") {
            Some(EnvStatus::Active)
        } else if crate::text::str_equal(value, "missing") {
            Some(EnvStatus::Missing)
        } else if crate::text::str_equal(value, "deleted") {
            Some(EnvStatus::Deleted)
        } else {
            None
        }
    }
}

/// Which statuses a listing shows.
#[derive(Clone, Copy, Debug, PartialEq, Eq, Structural)]
pub enum StatusFilter {
    ActiveOnly,
    ActiveAndMissing,
    All,
}

pub open spec fn filter_admits(f: StatusFilter, s: EnvStatus) -> bool {
    match f {
        StatusFilter::ActiveOnly => s == EnvStatus::Active,
        StatusFilter::ActiveAndMissing => s == EnvStatus::Active || s == EnvStatus::Missing,
        StatusFilter::All => true,
    }
}

impl StatusFilter {
    pub fn admits(self, s: EnvStatus) -> (b: bool)
        ensures
            b == filter_admits(self, s),
    {
        match self {
            StatusFilter::ActiveOnly => s == EnvStatus::Active,
            StatusFilter::ActiveAndMissing => s == EnvStatus::Active || s == EnvStatus::Missing,
            StatusFilter::All => true,
        }
    }
}

/// A registered virtual environment.
#[derive(Debug)]
pub struct Environment {
    pub id: String,
    pub name: String,
    pub path: String,
    pub project_dir: Option<String>,
    pub source: EnvSource,
    pub status: EnvStatus,
    pub python_version: Option<String>,
    pub pip_version: Option<String>,
    pub created_at: String,
    pub updated_at: String,
    pub last_used_at: Option<String>,
    pub last_scanned_at: Option<String>,
}

/// An exact copy of an optional text.
pub fn clone_opt(o: &Option<String>) -> (res: Option<String>)
    ensures
        res == *o,
{
    match o {
        Some(s) => Some(s.clone()),
        None => None,
    }
}

impl Clone for Environment {
    fn clone(&self) -> (res: Self)
        ensures
            res == *self,
    {
        Environment {
            id: self.id.clone(),
            name: self.name.clone(),
            path: self.path.clone(),
            project_dir: clone_opt(&self.project_dir),
            source: self.source,
            status: self.status,
            python_version: clone_opt(&self.python_version),
            pip_version: clone_opt(&self.pip_version),
            created_at: self.created_at.clone(),
            updated_at: self.updated_at.clone(),
            last_used_at: clone_opt(&self.last_used_at),
            last_scanned_at: clone_opt(&self.last_scanned_at),
        }
    }
}

impl Environment {
    /// Builds a record from the columns of a stored row; `None` where the
    /// stored source or status is not one the schema admits.
    pub fn from_columns(
        id: String,
        name: String,
        path: String,
        project_dir: Option<String>,
        source: &str,
        status: &str,
        python_version: Option<String>,
        pip_version: Option<String>,
        created_at: String,
        updated_at: String,
        last_used_at: Option<String>,
        last_scanned_at: Option<String>,
    ) -> (res: Option<Environment>)
        ensures
            res is Some <==> (source_from_text(source@) is Some && status_from_text(status@) is Some),
            res matches Some(e) ==> {
                &&& e.id == id
                &&& e.name == name
                &&& e.path == path
                &&& e.project_dir == project_dir
                &&& Some(e.source) == source_from_text(source@)
                &&& Some(e.status) == status_from_text(status@)
                &&& e.python_version == python_version
                &&& e.pip_version == pip_version
                &&& e.created_at == created_at
                &&& e.updated_at == updated_at
                &&& e.last_used_at == last_used_at
                &&& e.last_scanned_at == last_scanned_at
            },
    {
        let source = EnvSource::from_str(source);
        let status = EnvStatus::from_str(status);
        match (source, status) {
            (Some(source), Some(status)) => Some(
                Environment {
                    id,
                    name,
                    path,
                    project_dir,
                    source,
                    status,
                    python_version,
                    pip_version,
                    created_at,
                    updated_at,
                    last_used_at,
                    last_scanned_at,
                },
            ),
            _ => None,
        }
    }
}

/// A record to insert into the registry, or to merge into the record that
/// already has its path.
#[derive(Debug)]
pub struct NewEnvironment {
    pub id: String,
    pub name: String,
    pub path: String,
    pub project_dir: Option<String>,
    pub source: EnvSource,
    pub status: EnvStatus,
    pub python_version: Option<String>,
    pub pip_version: Option<String>,
    pub created_at: String,
    pub updated_at: String,
    pub last_used_at: Option<String>,
    pub last_scanned_at: Option<String>,
}

/// One package of a stored snapshot, as `info --packages` shows it.
#[derive(Debug)]
pub struct PackageRecord {
    pub name: String,
    pub version: String,
    pub captured_at: String,
}

/// One package of a snapshot, with the environment it belongs to.
#[derive(Debug)]
pub struct StoredPackage {
    pub env_id: String,
    pub name: String,
    pub version: String,
    pub captured_at: String,
}

impl Clone for StoredPackage {
    fn clone(&self) -> (res: Self)
        ensures
            res == *self,
    {
        StoredPackage {
            env_id: self.env_id.clone(),
            name: self.name.clone(),
            version: self.version.clone(),
            captured_at: self.captured_at.clone(),
        }
    }
}

/// One entry of `pip list --format=json`.
#[derive(Debug)]
pub struct PipPackage {
    pub name: String,
    pub version: String,
}

/// What asking an environment's Python for its versions gave.
#[derive(Debug)]
pub struct Probe {
    pub python_version: Option<String>,
    pub pip_version: Option<String>,
}

} // verus!
