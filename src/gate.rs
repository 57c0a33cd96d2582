//! The security gate: only the configured identity may call in.
use vstd::prelude::*;
use crate::error::ChookError;

verus! {

/// The credentials the operating system reports for the peer of a local
/// socket connection.
#[derive(Clone, Copy, Debug, PartialEq, Eq, Structural)]
pub struct PeerCredentials {
    pub pid: i32,
    pub uid: u32,
    pub gid: u32,
}

/// Whether a peer with these credentials may call in.
pub open spec fn admits(peer: PeerCredentials, allowed_pid: i32) -> bool {
    peer.pid == allowed_pid
}

/// Admits the peer whose identity is `allowed_pid`, and rejects any other
/// with an access-denied error.
pub fn check_peer(peer: &PeerCredentials, allowed_pid: i32) -> (r: Result<(), ChookError>)
    ensures
        r is Ok <==> admits(*peer, allowed_pid),
{
    if peer.pid != allowed_pid {
        return Err(ChookError::new("access denied: bad PID"));
    }
    Ok(())
}

} // verus!
