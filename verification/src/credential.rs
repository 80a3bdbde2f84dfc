//! The credential a client signs its requests with.

use vstd::prelude::*;
use vstd::utf8::encode_utf8;
use vstd::slice::slice_to_vec;
use crate::error::Error;

verus! {

/// An access-key id, the shared secret, and an optional session token,
/// all held as bytes for signing.
#[derive(Debug, Clone)]
pub struct Credential {
    pub id: Vec<u8>,
    pub secret: Vec<u8>,
    pub token: Option<Vec<u8>>,
}

impl Credential {
    /// A credential from an access-key id and secret, with no session
    /// token.
    pub fn new(id: String, secret: String) -> (r: Result<Credential, Error>)
        ensures
            r matches Ok(c) && c.id@ == encode_utf8(id@) && c.secret@ == encode_utf8(secret@)
                && c.token is None,
    {
        Ok(
            Credential {
                id: slice_to_vec(id.as_str().as_bytes()),
                secret: slice_to_vec(secret.as_str().as_bytes()),
                token: None,
            },
        )
    }
}

} // verus!
