//! The addresses the watcher talks to, and what it makes of an answer.

use vstd::prelude::*;
use vstd::string::StringExecFns;

verus! {

/// The address that tells whether the session with the torrent client is
/// still good: `endpoint` followed by `/auth/verify`.
pub fn verify_endpoint(endpoint: &str) -> (address: String)
    ensures
        address@ == endpoint@ + "/auth/verify"@,
{
    String::from_str(endpoint).concat("/auth/verify")
}

/// The address that serves the snapshot: `endpoint` followed by `/torrents`.
pub fn torrents_endpoint(endpoint: &str) -> (address: String)
    ensures
        address@ == endpoint@ + "/torrents"@,
{
    String::from_str(endpoint).concat("/torrents")
}

/// The address that makes the downstream cache forget `directory`:
/// `rclone_remote`, then `/vfs/forget?dir=`, then the directory.
pub fn forget_endpoint(rclone_remote: &str, directory: &str) -> (address: String)
    ensures
        address@ == rclone_remote@ + "/vfs/forget?dir="@ + directory@,
{
    String::from_str(rclone_remote).concat("/vfs/forget?dir=").concat(directory)
}

/// Whether the answer to a session check, given by its status code, says
/// that the session is good: the codes from 200 to 299 do.
pub fn session_is_valid(status: u16) -> (valid: bool)
    ensures
        valid == (200 <= status < 300),
{
    200 <= status && status < 300
}

} // verus!
