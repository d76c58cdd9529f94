//! The OAuth 2.0 access token that authorizes the API requests.
use vstd::prelude::*;

verus! {

/// An OAuth 2.0 access token.
#[derive(Debug)]
pub struct Token(pub String);

impl Clone for Token {
    fn clone(&self) -> (r: Self)
        ensures
            r.0@ == self.0@,
    {
        Token(self.0.clone())
    }
}

} // verus!
