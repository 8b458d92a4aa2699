use vstd::prelude::*;
use super::method::str_eq;

verus! {

/// The protocol versions this server speaks.
#[derive(Debug, Clone, Copy, PartialEq, Eq, Structural)]
pub enum Version {
    HTTP11,
}

impl Version {
    pub open spec fn token(self) -> Seq<char> {
        "HTTP/1.1"@
    }

    pub fn as_str(&self) -> (s: &'static str)
        ensures
            s@ == self.token(),
    {
        match self {
            Version::HTTP11 => "HTTP/1.1",
        }
    }

    /// Reads a version token; only `HTTP/1.1` is known.
    pub fn from_str(s: &str) -> (r: Result<Version, ()>)
        ensures
            r is Ok <==> s@ == "HTTP/1.1"@,
            r is Ok ==> r == Ok::<Version, ()>(Version::HTTP11),
    {
        if str_eq(s, "HTTP/1.1") {
            Ok(Version::HTTP11)
        } else {
            Err(())
        }
    }
}

} // verus!
