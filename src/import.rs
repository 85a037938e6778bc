//! Import of libraries from formats other than JSON.

use vstd::prelude::*;
use vstd::string::*;
use crate::models::library::Library;

verus! {

/// YAML import, which this library does not offer: always an error.
pub fn import_yaml(path: &str) -> (r: Result<Library, String>)
    ensures
        r is Err,
{
    Err(String::from_str("YAML import is not supported"))
}

} // verus!
