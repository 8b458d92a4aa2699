use vstd::prelude::*;

verus! {

/// The request methods this server understands.
#[derive(Debug, Clone, Copy, PartialEq, Eq, Structural)]
pub enum Method {
    GET,
    POST,
    PUT,
    DELETE,
}

impl Method {
    /// The method token as it stands on the request line.
    pub open spec fn token(self) -> Seq<char> {
        match self {
            Method::GET => "GET"@,
            Method::POST => "POST"@,
            Method::PUT => "PUT"@,
            Method::DELETE => "DELETE"@,
        }
    }

    /// The method named by a request-line token, if there is one.
    pub open spec fn of_token(s: Seq<char>) -> Option<Method> {
        if s == "GET"@ {
            Some(Method::GET)
        } else if s == "POST"@ {
            Some(Method::POST)
        } else if s == "DELETE"@ {
            Some(Method::DELETE)
        } else if s == "PUT"@ {
            Some(Method::PUT)
        } else {
            None
        }
    }

    pub fn as_str(&self) -> (s: &'static str)
        ensures
            s@ == self.token(),
    {
        match self {
            Method::GET => "GET",
            Method::POST => "POST",
            Method::PUT => "PUT",
            Method::DELETE => "DELETE",
        }
    }

    /// Reads a method token; anything but the four known tokens is refused.
    pub fn from_str(s: &str) -> (r: Result<Method, ()>)
        ensures
            r == match Method::of_token(s@) {
                Some(m) => Ok::<Method, ()>(m),
                None => Err::<Method, ()>(()),
            },
    {
        if str_eq(s, "GET") {
            Ok(Method::GET)
        } else if str_eq(s, "POST") {
            Ok(Method::POST)
        } else if str_eq(s, "DELETE") {
            Ok(Method::DELETE)
        } else if str_eq(s, "PUT") {
            Ok(Method::PUT)
        } else {
            Err(())
        }
    }
}

/// Token round trip: every method is read back from its own token.
pub proof fn lemma_token_round_trip(m: Method)
    ensures
        Method::of_token(m.token()) == Some(m),
{
    reveal_strlit("GET");
    reveal_strlit("POST");
    reveal_strlit("PUT");
    reveal_strlit("DELETE");
    assert("GET"@.len() == 3);
    assert("POST"@.len() == 4);
    assert("PUT"@.len() == 3 && "PUT"@[0] == 'P');
    assert("DELETE"@.len() == 6);
    assert("GET"@[0] == 'G');
    assert("POST"@[1] == 'O');
    assert("PUT"@[1] == 'U');
}

/// Whether two string slices hold the same characters.
pub(crate) fn str_eq(a: &str, b: &str) -> (r: bool)
    ensures
        r == (a@ == b@),
{
    let left = a.to_owned();
    let right = b.to_owned();
    left == right
}

} // verus!
