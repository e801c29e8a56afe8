//! What the embedded TFTP server is allowed to serve.

use vstd::prelude::*;

verus! {

/// Which requests a directory handler serves.
#[derive(Clone, Copy, Debug, PartialEq, Eq, Structural)]
pub enum DirHandlerMode {
    /// Serve only read requests.
    ReadOnly,
    /// Serve only write requests.
    WriteOnly,
    /// Serve read and write requests.
    ReadWrite,
}

impl DirHandlerMode {
    /// Whether read requests are served.
    pub open spec fn spec_serves_reads(self) -> bool {
        self != DirHandlerMode::WriteOnly
    }

    /// Whether write requests are served.
    pub open spec fn spec_serves_writes(self) -> bool {
        self != DirHandlerMode::ReadOnly
    }

    /// Whether read requests are served.
    #[verifier::when_used_as_spec(spec_serves_reads)]
    pub fn serves_reads(self) -> (r: bool)
        ensures
            r == self.spec_serves_reads(),
    {
        match self {
            DirHandlerMode::ReadOnly => true,
            DirHandlerMode::WriteOnly => false,
            DirHandlerMode::ReadWrite => true,
        }
    }

    /// Whether write requests are served.
    #[verifier::when_used_as_spec(spec_serves_writes)]
    pub fn serves_writes(self) -> (r: bool)
        ensures
            r == self.spec_serves_writes(),
    {
        match self {
            DirHandlerMode::ReadOnly => false,
            DirHandlerMode::WriteOnly => true,
            DirHandlerMode::ReadWrite => true,
        }
    }
}

/// Handler that serves requests for the files of one directory.
#[derive(Debug)]
pub struct DirHandler {
    /// The directory, as an absolute path.
    pub dir: String,
    pub serve_rrq: bool,
    pub serve_wrq: bool,
}

impl DirHandler {
    /// A handler for a directory, given as an absolute path.
    pub fn new(dir: String, flags: DirHandlerMode) -> (r: DirHandler)
        ensures
            r.dir == dir,
            r.serve_rrq == flags.serves_reads(),
            r.serve_wrq == flags.serves_writes(),
    {
        DirHandler { dir, serve_rrq: flags.serves_reads(), serve_wrq: flags.serves_writes() }
    }
}

/// A component of a path, by its kind.
#[derive(Clone, Copy, Debug, PartialEq, Eq, Structural)]
pub enum PathPart {
    /// A prefix of a volume or a share.
    Prefix,
    /// The root directory.
    RootDir,
    /// A reference to the current directory.
    CurDir,
    /// A reference to the parent directory.
    ParentDir,
    /// A name.
    Normal,
}

/// Whether a requested path stays below the served directory: it begins
/// with a name and nowhere refers to a parent directory.
pub open spec fn path_allowed(parts: Seq<PathPart>) -> bool {
    parts.len() > 0 && parts[0] is Normal && forall|i: int|
        0 <= i < parts.len() ==> !(#[trigger] parts[i] is ParentDir)
}

/// Whether a requested path, given by its components, stays below the
/// served directory.
pub fn path_is_allowed(parts: &Vec<PathPart>) -> (r: bool)
    ensures
        r == path_allowed(parts@),
{
    if parts.len() == 0 {
        return false;
    }
    match parts[0] {
        PathPart::Normal => {},
        _ => {
            return false;
        },
    }
    let mut i: usize = 0;
    while i < parts.len()
        invariant
            i <= parts@.len(),
            parts@.len() > 0,
            parts@[0] is Normal,
            forall|j: int| 0 <= j < i ==> !(#[trigger] parts@[j] is ParentDir),
        decreases parts@.len() - i,
    {
        match parts[i] {
            PathPart::ParentDir => {
                return false;
            },
            _ => {},
        }
        i = i + 1;
    }
    true
}

} // verus!
