use vstd::prelude::*;

verus! {

/// The statuses this server answers with.
#[derive(Debug, Clone, Copy, PartialEq, Eq, Structural)]
pub enum Reason {
    OK200,
    BADREQUEST400,
    INTERNAL500,
    NOTFOUND404,
}

impl Reason {
    /// The status code as a number.
    pub open spec fn number(self) -> int {
        match self {
            Reason::BADREQUEST400 => 400,
            Reason::INTERNAL500 => 500,
            Reason::OK200 => 200,
            Reason::NOTFOUND404 => 404,
        }
    }

    /// The reason phrase that goes with the code.
    pub open spec fn phrase(self) -> Seq<char> {
        match self {
            Reason::BADREQUEST400 => "Bad Request"@,
            Reason::INTERNAL500 => "Internal Server Error"@,
            Reason::OK200 => "Ok"@,
            Reason::NOTFOUND404 => "Not Found"@,
        }
    }

    pub fn code(&self) -> (c: i32)
        ensures
            c == self.number(),
    {
        match self {
            Reason::BADREQUEST400 => 400,
            Reason::INTERNAL500 => 500,
            Reason::OK200 => 200,
            Reason::NOTFOUND404 => 404,
        }
    }

    pub fn reason(&self) -> (s: String)
        ensures
            s@ == self.phrase(),
    {
        match self {
            Reason::BADREQUEST400 => "Bad Request".to_owned(),
            Reason::INTERNAL500 => "Internal Server Error".to_owned(),
            Reason::OK200 => "Ok".to_owned(),
            Reason::NOTFOUND404 => "Not Found".to_owned(),
        }
    }
}

} // verus!
