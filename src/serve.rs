//! The decisions of the injected runtime on one connection. The caller does
//! the I/O each phase asks for and hands the outcome back.
use vstd::prelude::*;
use crate::error::ChookError;
use crate::gate::{admits, check_peer, PeerCredentials};
use crate::wire::{body_len, encode_frame, frame_of, le_bytes};

verus! {

/// Where a connection stands.
#[derive(Clone, Copy, Debug, PartialEq, Eq, Structural)]
pub enum Phase {
    /// The peer's credentials are to be checked.
    Gate,
    /// The eight-byte request header is to be read.
    Header,
    /// A request body of this many bytes is to be read.
    Body(usize),
    /// The request payload is with the user function.
    Call,
    /// The response frame has been handed out; nothing more happens.
    Closed,
}

/// Phases are only ever left for later ones.
pub open spec fn rank(p: Phase) -> nat {
    match p {
        Phase::Gate => 0,
        Phase::Header => 1,
        Phase::Body(_) => 2,
        Phase::Call => 3,
        Phase::Closed => 4,
    }
}

/// One accepted connection, serving at most one call.
pub struct Connection {
    pub allowed_pid: i32,
    pub phase: Phase,
}

impl Connection {
        /// A freshly accepted connection whose peer is not yet checked.
    pub fn new(allowed_pid: i32) -> (r: Connection)
        ensures
            r.allowed_pid == allowed_pid,
            r.phase == Phase::Gate,
    {
        Connection { allowed_pid, phase: Phase::Gate }
    }

    /// The peer's credentials are known. A peer other than the authorized
    /// one closes the connection before any of its data is read.
    pub fn on_peer(&mut self, peer: &PeerCredentials) -> (r: Result<(), ChookError>)
        requires
            old(self).phase == Phase::Gate,
        ensures
            final(self).allowed_pid == old(self).allowed_pid,
            r is Ok <==> admits(*peer, old(self).allowed_pid),
            r is Ok ==> final(self).phase == Phase::Header,
            r is Err ==> final(self).phase == Phase::Closed,
            rank(final(self).phase) > rank(old(self).phase),
    {
        match check_peer(peer, self.allowed_pid) {
            Ok(()) => {
                self.phase = Phase::Header;
                Ok(())
            },
            Err(e) => {
                self.phase = Phase::Closed;
                Err(e)
            },
        }
    }

    /// The request header was read; returns how many body bytes to read.
    pub fn on_header(&mut self, header: &[u8]) -> (r: Result<usize, ChookError>)
        requires
            old(self).phase == Phase::Header,
        ensures
            final(self).allowed_pid == old(self).allowed_pid,
            match r {
                Ok(n) => header@ == le_bytes(n as u64) && final(self).phase == Phase::Body(n),
                Err(_) => final(self).phase == Phase::Closed && (header@.len() != 8 || (exists|
                    n: u64,
                | n > usize::MAX && header@ == le_bytes(n))),
            },
            rank(final(self).phase) > rank(old(self).phase),
    {
        match body_len(header) {
            Ok(n) => {
                self.phase = Phase::Body(n);
                Ok(n)
            },
            Err(e) => {
                self.phase = Phase::Closed;
                Err(e)
            },
        }
    }

    /// The request body was read; hands back the payload for the user
    /// function when it is as long as the header announced.
    pub fn on_body(&mut self, body: Vec<u8>) -> (r: Result<Vec<u8>, ChookError>)
        requires
            old(self).phase is Body,
        ensures
            final(self).allowed_pid == old(self).allowed_pid,
            r is Ok <==> body@.len() == old(self).phase->Body_0,
            r matches Ok(p) ==> p@ == body@ && final(self).phase == Phase::Call,
            r is Err ==> final(self).phase == Phase::Closed,
            rank(final(self).phase) > rank(old(self).phase),
    {
        let n = match self.phase {
            Phase::Body(n) => n,
            _ => 0,
        };
        if body.len() != n {
            self.phase = Phase::Closed;
            return Err(ChookError::new("reading arg body: short read"));
        }
        self.phase = Phase::Call;
        Ok(body)
    }

    /// The user function returned this encoded result; gives the response
    /// frame to write, after which the connection is done.
    pub fn on_result(&mut self, ret: &[u8]) -> (r: Vec<u8>)
        requires
            old(self).phase == Phase::Call,
        ensures
            final(self).allowed_pid == old(self).allowed_pid,
            r@ == frame_of(ret@),
            final(self).phase == Phase::Closed,
            rank(final(self).phase) > rank(old(self).phase),
    {
        self.phase = Phase::Closed;
        encode_frame(ret)
    }
}

} // verus!
