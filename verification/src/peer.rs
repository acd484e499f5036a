//! Peers and the context of a call.

use vstd::prelude::*;

verus! {

/// Identifies a connected peer.
#[derive(Debug, Clone, Copy, PartialEq, Eq, Structural)]
pub struct PeerId(pub u64);

/// A handle to a connected peer.
#[derive(Debug, Clone, Copy, PartialEq, Eq, Structural)]
pub struct PeerHandle {
    pub id: PeerId,
}

impl PeerHandle {
    pub fn new(id: PeerId) -> (h: PeerHandle)
        ensures
            h.id == id,
    {
        PeerHandle { id }
    }

    pub fn peer_id(&self) -> (id: PeerId)
        ensures
            id == self.id,
    {
        self.id
    }
}

/// What a handler may know of a call besides the request.
pub struct CallContext<'a> {
    method: &'a str,
    peer: Option<&'a PeerHandle>,
}

/// What a [`CallContext`] says.
#[verifier::ext_equal]
pub struct CtxModel {
    pub method: Seq<char>,
    pub peer: Option<PeerHandle>,
}

impl<'a> View for CallContext<'a> {
    type V = CtxModel;

    closed spec fn view(&self) -> CtxModel {
        CtxModel {
            method: self.method@,
            peer: match self.peer {
                Some(p) => Some(*p),
                None => None,
            },
        }
    }
}

impl<'a> CallContext<'a> {
    /// The context of a call from `peer`.
    pub fn new(method: &'a str, peer: &'a PeerHandle) -> (c: CallContext<'a>)
        ensures
            c@ == (CtxModel { method: method@, peer: Some(*peer) }),
    {
        CallContext { method, peer: Some(peer) }
    }

    /// The context of a call without a peer to speak of.
    pub fn detached(method: &'a str) -> (c: CallContext<'a>)
        ensures
            c@ == (CtxModel { method: method@, peer: None }),
    {
        CallContext { method, peer: None }
    }

    /// The path that was called.
    pub fn method(&self) -> (m: &str)
        ensures
            m@ == self@.method,
    {
        self.method
    }

    /// The calling peer, if there is one.
    pub fn peer(&self) -> (p: Option<&PeerHandle>)
        ensures
            p is Some == self@.peer is Some,
            p matches Some(h) ==> self@.peer == Some(*h),
    {
        self.peer
    }
}

} // verus!
