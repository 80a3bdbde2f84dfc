//! Where the service lives: a base address and an instance name.

use vstd::prelude::*;
use crate::error::Error;

verus! {

/// The service endpoint: the base URL that requests are sent to, and the
/// name of the storage instance addressed within it.
#[derive(Debug, Clone)]
pub struct Endpoint {
    pub address: String,
    pub instance: String,
}

impl Endpoint {
    pub fn new(address: String, instance: String) -> (r: Result<Endpoint, Error>)
        ensures
            r matches Ok(e) && e.address@ == address@ && e.instance@ == instance@,
    {
        Ok(Endpoint { address, instance })
    }
}

} // verus!
