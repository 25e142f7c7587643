use vstd::prelude::*;

use crate::error::Error;

verus! {

/// Whether a stream is opened to read from or to write to.
#[derive(Clone, Copy, Debug, PartialEq, Eq, Structural)]
pub enum Direction {
    Read,
    Write,
}

/// What a host stream object can do.
#[derive(Clone, Copy, Debug, PartialEq, Eq, Structural)]
pub struct Capabilities {
    pub read: bool,
    pub write: bool,
    pub seek: bool,
}

/// What the host handed over to back a stream: text is a path, anything else
/// an object with some capabilities.
#[derive(Clone, Debug)]
pub enum StreamSource {
    Path(String),
    Object(Capabilities),
}

/// How a stream is to be backed.
#[derive(Clone, Debug)]
pub enum Backing {
    /// Open the existing file at the path, to read.
    OpenFile(String),
    /// Create the file at the path, or truncate it, to write.
    CreateFile(String),
    /// Use the host object.
    HostObject,
}

/// The capabilities that a host object needs for a direction: read and seek
/// to read; write and seek to write.
pub open spec fn sufficient(c: Capabilities, d: Direction) -> bool {
    match d {
        Direction::Read => c.read && c.seek,
        Direction::Write => c.write && c.seek,
    }
}

/// Decides how to back a stream in the given direction: a path is opened (to
/// read) or created (to write); a host object is used when it has the needed
/// capabilities, and refused with `Capability` when it lacks one.
pub fn choose_backing(source: StreamSource, direction: Direction) -> (r: Result<Backing, Error>)
    ensures
        source matches StreamSource::Path(p) ==> r matches Ok(b) && match direction {
            Direction::Read => b matches Backing::OpenFile(q) && q@ == p@,
            Direction::Write => b matches Backing::CreateFile(q) && q@ == p@,
        },
        source matches StreamSource::Object(c) ==> (r is Ok == sufficient(c, direction)),
        source matches StreamSource::Object(c) ==> (r matches Ok(b) ==> b is HostObject),
        r matches Err(e) ==> e is Capability,
{
    match source {
        StreamSource::Path(p) => match direction {
            Direction::Read => Ok(Backing::OpenFile(p)),
            Direction::Write => Ok(Backing::CreateFile(p)),
        },
        StreamSource::Object(c) => {
            let ok = match direction {
                Direction::Read => c.read && c.seek,
                Direction::Write => c.write && c.seek,
            };
            if ok {
                Ok(Backing::HostObject)
            } else {
                Err(Error::Capability)
            }
        },
    }
}

} // verus!
