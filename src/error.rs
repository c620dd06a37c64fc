//! Error values shared by every part of the library.
use vstd::prelude::*;
use vstd::string::*;

use crate::text::{decimal, decimal_text};

verus! {

/// What went wrong, as a closed set of kinds with stable numeric codes.
#[derive(Debug, Clone, Copy, PartialEq, Eq, Structural)]
pub enum ErrorKind {
    InstanceNotFound,
    InstanceRunning,
    InstanceNotRunning,
    VersionNotFound,
    VersionInUse,
    Config,
    Io,
    Network,
    Python,
    PythonNotInstalled,
    Process,
    PortOccupied,
    StartupTimeout,
    Backup,
    GitHub,
    Other,
}

/// The numeric code reported to clients for each kind.
pub open spec fn kind_code(k: ErrorKind) -> u32 {
    match k {
        ErrorKind::InstanceNotFound => 1001,
        ErrorKind::InstanceRunning => 1002,
        ErrorKind::InstanceNotRunning => 1003,
        ErrorKind::VersionNotFound => 1004,
        ErrorKind::VersionInUse => 1005,
        ErrorKind::Config => 2001,
        ErrorKind::Io => 2002,
        ErrorKind::Network => 2003,
        ErrorKind::Python => 3001,
        ErrorKind::PythonNotInstalled => 3002,
        ErrorKind::Process => 3003,
        ErrorKind::PortOccupied => 3004,
        ErrorKind::StartupTimeout => 3005,
        ErrorKind::Backup => 4001,
        ErrorKind::GitHub => 4002,
        ErrorKind::Other => 9999,
    }
}

/// The name of a kind, as it appears in messages.
pub open spec fn kind_name(k: ErrorKind) -> Seq<char> {
    match k {
        ErrorKind::InstanceNotFound => "InstanceNotFound"@,
        ErrorKind::InstanceRunning => "InstanceRunning"@,
        ErrorKind::InstanceNotRunning => "InstanceNotRunning"@,
        ErrorKind::VersionNotFound => "VersionNotFound"@,
        ErrorKind::VersionInUse => "VersionInUse"@,
        ErrorKind::Config => "Config"@,
        ErrorKind::Io => "Io"@,
        ErrorKind::Network => "Network"@,
        ErrorKind::Python => "Python"@,
        ErrorKind::PythonNotInstalled => "PythonNotInstalled"@,
        ErrorKind::Process => "Process"@,
        ErrorKind::PortOccupied => "PortOccupied"@,
        ErrorKind::StartupTimeout => "StartupTimeout"@,
        ErrorKind::Backup => "Backup"@,
        ErrorKind::GitHub => "GitHub"@,
        ErrorKind::Other => "Other"@,
    }
}

impl ErrorKind {
    pub fn name(&self) -> (r: &'static str)
        ensures
            r@ == kind_name(*self),
    {
        match self {
            ErrorKind::InstanceNotFound => "InstanceNotFound",
            ErrorKind::InstanceRunning => "InstanceRunning",
            ErrorKind::InstanceNotRunning => "InstanceNotRunning",
            ErrorKind::VersionNotFound => "VersionNotFound",
            ErrorKind::VersionInUse => "VersionInUse",
            ErrorKind::Config => "Config",
            ErrorKind::Io => "Io",
            ErrorKind::Network => "Network",
            ErrorKind::Python => "Python",
            ErrorKind::PythonNotInstalled => "PythonNotInstalled",
            ErrorKind::Process => "Process",
            ErrorKind::PortOccupied => "PortOccupied",
            ErrorKind::StartupTimeout => "StartupTimeout",
            ErrorKind::Backup => "Backup",
            ErrorKind::GitHub => "GitHub",
            ErrorKind::Other => "Other",
        }
    }

    pub fn code(&self) -> (r: u32)
        ensures
            r == kind_code(*self),
    {
        match self {
            ErrorKind::InstanceNotFound => 1001,
            ErrorKind::InstanceRunning => 1002,
            ErrorKind::InstanceNotRunning => 1003,
            ErrorKind::VersionNotFound => 1004,
            ErrorKind::VersionInUse => 1005,
            ErrorKind::Config => 2001,
            ErrorKind::Io => 2002,
            ErrorKind::Network => 2003,
            ErrorKind::Python => 3001,
            ErrorKind::PythonNotInstalled => 3002,
            ErrorKind::Process => 3003,
            ErrorKind::PortOccupied => 3004,
            ErrorKind::StartupTimeout => 3005,
            ErrorKind::Backup => 4001,
            ErrorKind::GitHub => 4002,
            ErrorKind::Other => 9999,
        }
    }
}

/// The payload of an error as (key, value) text pairs.
pub open spec fn pairs_view(p: Seq<(String, String)>) -> Seq<(Seq<char>, Seq<char>)> {
    p.map_values(|kv: (String, String)| (kv.0@, kv.1@))
}

/// `key=value` pairs joined by `, `.
pub open spec fn pairs_text(p: Seq<(Seq<char>, Seq<char>)>) -> Seq<char>
    decreases p.len(),
{
    if p.len() == 0 {
        seq![]
    } else if p.len() == 1 {
        p[0].0 + "="@ + p[0].1
    } else {
        pairs_text(p.drop_last()) + ", "@ + p.last().0 + "="@ + p.last().1
    }
}

/// The text of an error: its kind's name, then its payload if there is one.
pub open spec fn error_text(k: ErrorKind, p: Seq<(Seq<char>, Seq<char>)>) -> Seq<char> {
    if p.len() == 0 {
        kind_name(k)
    } else {
        kind_name(k) + ": "@ + pairs_text(p)
    }
}

/// No key occurs twice in a payload.
pub open spec fn keys_distinct(p: Seq<(Seq<char>, Seq<char>)>) -> bool {
    forall|i: int, j: int| 0 <= i < p.len() && 0 <= j < p.len() && i != j ==> p[i].0 != p[j].0
}

/// An error: a kind and a small key/value payload with distinct keys.
#[derive(Debug)]
pub struct AppError {
    payload: Vec<(String, String)>,
    kind: ErrorKind,
}

impl AppError {
    pub closed spec fn spec_kind(&self) -> ErrorKind {
        self.kind
    }

    pub closed spec fn spec_payload(&self) -> Seq<(Seq<char>, Seq<char>)> {
        pairs_view(self.payload@)
    }

    pub open spec fn wf(&self) -> bool {
        keys_distinct(self.spec_payload())
    }

    /// The payload that a single detail message gives: none for an empty message.
    pub open spec fn detail_payload(detail: Seq<char>) -> Seq<(Seq<char>, Seq<char>)> {
        if detail.len() == 0 {
            seq![]
        } else {
            seq![("detail"@, detail)]
        }
    }

    pub fn new(kind: ErrorKind, payload: Vec<(String, String)>) -> (r: Self)
        requires
            keys_distinct(pairs_view(payload@)),
        ensures
            r.spec_kind() == kind,
            r.spec_payload() == pairs_view(payload@),
            r.wf(),
    {
        AppError { payload, kind }
    }

    fn with_detail(kind: ErrorKind, detail: &str) -> (r: Self)
        ensures
            r.spec_kind() == kind,
            r.spec_payload() == Self::detail_payload(detail@),
            r.wf(),
    {
        let mut payload: Vec<(String, String)> = Vec::new();
        if detail.unicode_len() != 0 {
            payload.push((String::from_str("detail"), detail.to_owned()));
        }
        proof {
            reveal_strlit("detail");
            assert(pairs_view(payload@) =~= Self::detail_payload(detail@));
        }
        AppError { payload, kind }
    }

    fn single(kind: ErrorKind, key: &str, value: &str) -> (r: Self)
        ensures
            r.spec_kind() == kind,
            r.spec_payload() == seq![(key@, value@)],
            r.wf(),
    {
        let mut payload: Vec<(String, String)> = Vec::new();
        payload.push((String::from_str(key), value.to_owned()));
        proof {
            assert(pairs_view(payload@) =~= seq![(key@, value@)]);
        }
        AppError { payload, kind }
    }

    fn pair(kind: ErrorKind, k1: &str, v1: &str, k2: &str, v2: &str) -> (r: Self)
        requires
            k1@ != k2@,
        ensures
            r.spec_kind() == kind,
            r.spec_payload() == seq![(k1@, v1@), (k2@, v2@)],
            r.wf(),
    {
        let mut payload: Vec<(String, String)> = Vec::new();
        payload.push((String::from_str(k1), v1.to_owned()));
        payload.push((String::from_str(k2), v2.to_owned()));
        proof {
            assert(pairs_view(payload@) =~= seq![(k1@, v1@), (k2@, v2@)]);
        }
        AppError { payload, kind }
    }

    fn bare(kind: ErrorKind) -> (r: Self)
        ensures
            r.spec_kind() == kind,
            r.spec_payload() == Seq::<(Seq<char>, Seq<char>)>::empty(),
            r.wf(),
    {
        let payload: Vec<(String, String)> = Vec::new();
        proof {
            assert(pairs_view(payload@) =~= Seq::<(Seq<char>, Seq<char>)>::empty());
        }
        AppError { payload, kind }
    }

    pub fn instance_not_found(id: &str) -> (r: Self)
        ensures
            r.spec_kind() == ErrorKind::InstanceNotFound,
            r.spec_payload() == seq![("id"@, id@)],
            r.wf(),
    {
        Self::single(ErrorKind::InstanceNotFound, "id", id)
    }

    pub fn instance_running() -> (r: Self)
        ensures
            r.spec_kind() == ErrorKind::InstanceRunning,
            r.spec_payload().len() == 0,
            r.wf(),
    {
        Self::bare(ErrorKind::InstanceRunning)
    }

    pub fn instance_not_running() -> (r: Self)
        ensures
            r.spec_kind() == ErrorKind::InstanceNotRunning,
            r.spec_payload().len() == 0,
            r.wf(),
    {
        Self::bare(ErrorKind::InstanceNotRunning)
    }

    pub fn version_not_found(version: &str) -> (r: Self)
        ensures
            r.spec_kind() == ErrorKind::VersionNotFound,
            r.spec_payload() == seq![("version"@, version@)],
            r.wf(),
    {
        Self::single(ErrorKind::VersionNotFound, "version", version)
    }

    pub fn version_in_use(version: &str, instance_name: &str) -> (r: Self)
        ensures
            r.spec_kind() == ErrorKind::VersionInUse,
            r.spec_payload() == seq![("version"@, version@), ("instance"@, instance_name@)],
            r.wf(),
    {
        proof {
            reveal_strlit("version");
            reveal_strlit("instance");
            assert("version"@.len() != "instance"@.len());
        }
        Self::pair(ErrorKind::VersionInUse, "version", version, "instance", instance_name)
    }

    pub fn config(message: &str) -> (r: Self)
        ensures
            r.spec_kind() == ErrorKind::Config,
            r.spec_payload() == Self::detail_payload(message@),
            r.wf(),
    {
        Self::with_detail(ErrorKind::Config, message)
    }

    pub fn io(message: &str) -> (r: Self)
        ensures
            r.spec_kind() == ErrorKind::Io,
            r.spec_payload() == Self::detail_payload(message@),
            r.wf(),
    {
        Self::with_detail(ErrorKind::Io, message)
    }

    pub fn network(message: &str) -> (r: Self)
        ensures
            r.spec_kind() == ErrorKind::Network,
            r.spec_payload() == Self::detail_payload(message@),
            r.wf(),
    {
        Self::with_detail(ErrorKind::Network, message)
    }

    pub fn network_with_url(url: &str, detail: &str) -> (r: Self)
        ensures
            r.spec_kind() == ErrorKind::Network,
            r.spec_payload() == seq![("url"@, url@), ("detail"@, detail@)],
            r.wf(),
    {
        proof {
            reveal_strlit("url");
            reveal_strlit("detail");
            assert("url"@.len() != "detail"@.len());
        }
        Self::pair(ErrorKind::Network, "url", url, "detail", detail)
    }

    pub fn python(message: &str) -> (r: Self)
        ensures
            r.spec_kind() == ErrorKind::Python,
            r.spec_payload() == Self::detail_payload(message@),
            r.wf(),
    {
        Self::with_detail(ErrorKind::Python, message)
    }

    pub fn python_not_installed() -> (r: Self)
        ensures
            r.spec_kind() == ErrorKind::PythonNotInstalled,
            r.spec_payload().len() == 0,
            r.wf(),
    {
        Self::bare(ErrorKind::PythonNotInstalled)
    }

    pub fn process(message: &str) -> (r: Self)
        ensures
            r.spec_kind() == ErrorKind::Process,
            r.spec_payload() == Self::detail_payload(message@),
            r.wf(),
    {
        Self::with_detail(ErrorKind::Process, message)
    }

    pub fn port_occupied(port: u16) -> (r: Self)
        ensures
            r.spec_kind() == ErrorKind::PortOccupied,
            r.spec_payload() == seq![("port"@, decimal(port as nat))],
            r.wf(),
    {
        let text = decimal_text(port as u64);
        Self::single(ErrorKind::PortOccupied, "port", text.as_str())
    }

    pub fn startup_timeout() -> (r: Self)
        ensures
            r.spec_kind() == ErrorKind::StartupTimeout,
            r.spec_payload().len() == 0,
            r.wf(),
    {
        Self::bare(ErrorKind::StartupTimeout)
    }

    pub fn backup(message: &str) -> (r: Self)
        ensures
            r.spec_kind() == ErrorKind::Backup,
            r.spec_payload() == Self::detail_payload(message@),
            r.wf(),
    {
        Self::with_detail(ErrorKind::Backup, message)
    }

    pub fn backup_arch_mismatch(backup_arch: &str, current_arch: &str) -> (r: Self)
        ensures
            r.spec_kind() == ErrorKind::Backup,
            r.spec_payload() == seq![("backup_arch"@, backup_arch@), ("current_arch"@, current_arch@)],
            r.wf(),
    {
        proof {
            reveal_strlit("backup_arch");
            reveal_strlit("current_arch");
            assert("backup_arch"@.len() != "current_arch"@.len());
        }
        Self::pair(ErrorKind::Backup, "backup_arch", backup_arch, "current_arch", current_arch)
    }

    pub fn github(message: &str) -> (r: Self)
        ensures
            r.spec_kind() == ErrorKind::GitHub,
            r.spec_payload() == Self::detail_payload(message@),
            r.wf(),
    {
        Self::with_detail(ErrorKind::GitHub, message)
    }

    pub fn other(message: &str) -> (r: Self)
        ensures
            r.spec_kind() == ErrorKind::Other,
            r.spec_payload() == Self::detail_payload(message@),
            r.wf(),
    {
        Self::with_detail(ErrorKind::Other, message)
    }

    /// The error as text: `Kind` or `Kind: key=value, key=value`.
    pub fn to_display_string(&self) -> (r: String)
        ensures
            r@ == error_text(self.spec_kind(), self.spec_payload()),
    {
        let ghost p = self.spec_payload();
        let mut text = String::from_str(self.kind.name());
        if self.payload.len() == 0 {
            return text;
        }
        text.append(": ");
        let mut i: usize = 0;
        while i < self.payload.len()
            invariant
                p == self.spec_payload(),
                p.len() == self.payload.len(),
                1 <= self.payload.len(),
                i <= self.payload.len(),
                i == 0 ==> text@ == kind_name(self.kind) + ": "@,
                i > 0 ==> text@ == kind_name(self.kind) + ": "@ + pairs_text(p.take(i as int)),
            decreases self.payload.len() - i,
        {
            let (k, v) = (&self.payload[i].0, &self.payload[i].1);
            proof {
                assert(p[i as int] == (k@, v@));
                assert(p.take(i + 1).drop_last() =~= p.take(i as int));
                assert(p.take(i + 1).last() == p[i as int]);
            }
            if i > 0 {
                text.append(", ");
            }
            text.append(k.as_str());
            text.append("=");
            text.append(v.as_str());
            proof {
                if i == 0 {
                    assert(p.take(1)[0] == p[0]);
                    assert(text@ =~= kind_name(self.kind) + ": "@ + pairs_text(p.take(1)));
                } else {
                    assert(text@ =~= kind_name(self.kind) + ": "@ + pairs_text(p.take(i + 1)));
                }
            }
            i = i + 1;
        }
        assert(p.take(self.payload.len() as int) =~= p);
        text
    }

    pub fn kind(&self) -> (r: ErrorKind)
        ensures
            r == self.spec_kind(),
    {
        self.kind
    }

    pub fn payload(&self) -> (r: &Vec<(String, String)>)
        ensures
            pairs_view(r@) == self.spec_payload(),
    {
        &self.payload
    }
}

/// Why an extraction stopped. Each of these ends the whole extraction.
#[derive(Debug, Clone, Copy, PartialEq, Eq, Structural)]
pub enum ArchiveError {
    /// An entry path is empty, rooted, drive-designated or traverses with `..`.
    UnsafeEntryPath,
    /// A resolved output or link target lies outside the destination root.
    EscapesDestination,
    /// An entry is neither a directory, a file, a symlink nor a hard link.
    UnsupportedEntryType,
    /// The bytes written differ from the size the archive declared.
    SizeMismatch { expected: u64, written: u64 },
    /// A hard link names no file written earlier in this extraction.
    BrokenHardLink,
    /// A link entry has an empty target.
    EmptyLinkTarget,
    /// A link entry has a rooted target.
    AbsoluteLinkTarget,
    /// A link entry has a drive-designated target.
    PrefixedLinkTarget,
    /// A link or file path has no parent directory.
    NoParent,
    /// Canonicalization climbed to the filesystem root without finding anything.
    ReachedRoot,
    /// The filesystem refused an operation.
    Filesystem,
    /// An earlier entry already failed this extraction.
    Aborted,
}

/// The message that describes an extraction error.
pub open spec fn archive_message(e: ArchiveError) -> Seq<char> {
    match e {
        ArchiveError::UnsafeEntryPath => "archive contains unsafe entry path"@,
        ArchiveError::EscapesDestination => "archive contains path escaping destination"@,
        ArchiveError::UnsupportedEntryType => "unsupported archive entry type"@,
        ArchiveError::SizeMismatch { .. } => "archive entry size mismatch"@,
        ArchiveError::BrokenHardLink => "hard link target is unsafe or was not extracted earlier in the archive"@,
        ArchiveError::EmptyLinkTarget => "link target path is empty"@,
        ArchiveError::AbsoluteLinkTarget => "absolute link targets are not allowed in archives"@,
        ArchiveError::PrefixedLinkTarget => "link target uses unsupported Windows path prefix"@,
        ArchiveError::NoParent => "entry has no parent directory"@,
        ArchiveError::ReachedRoot => "failed to canonicalize path: reached filesystem root"@,
        ArchiveError::Filesystem => "filesystem operation failed"@,
        ArchiveError::Aborted => "extraction already failed"@,
    }
}

impl ArchiveError {
    /// The error as reported to callers: an I/O error with its message.
    pub fn into_app_error(&self) -> (r: AppError)
        ensures
            r.spec_kind() == ErrorKind::Io,
            r.spec_payload() == AppError::detail_payload(archive_message(*self)),
            r.wf(),
    {
        let message = match self {
            ArchiveError::UnsafeEntryPath => "archive contains unsafe entry path",
            ArchiveError::EscapesDestination => "archive contains path escaping destination",
            ArchiveError::UnsupportedEntryType => "unsupported archive entry type",
            ArchiveError::SizeMismatch { .. } => "archive entry size mismatch",
            ArchiveError::BrokenHardLink => "hard link target is unsafe or was not extracted earlier in the archive",
            ArchiveError::EmptyLinkTarget => "link target path is empty",
            ArchiveError::AbsoluteLinkTarget => "absolute link targets are not allowed in archives",
            ArchiveError::PrefixedLinkTarget => "link target uses unsupported Windows path prefix",
            ArchiveError::NoParent => "entry has no parent directory",
            ArchiveError::ReachedRoot => "failed to canonicalize path: reached filesystem root",
            ArchiveError::Filesystem => "filesystem operation failed",
            ArchiveError::Aborted => "extraction already failed",
        };
        AppError::io(message)
    }
}

} // verus!
