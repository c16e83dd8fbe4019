use vstd::prelude::*;
use crate::error::SmuxError;

verus! {

/// The id that a generator of the given role hands out on its `k`-th
/// allocation (counting from zero): odd ids for a client, even ids for a
/// server.
pub open spec fn local_id(is_client: bool, k: nat) -> int {
    if is_client {
        (2 * k + 1) as int
    } else {
        (2 * k + 2) as int
    }
}

/// Whether a peer of a session with the given role may open a stream with
/// `id`: it is nonzero and has the parity opposite to the local one.
pub open spec fn peer_id_ok(is_client: bool, id: u32) -> bool {
    id != 0 && (id % 2 == 1) != is_client
}

/// Allocates the ids of locally opened streams.
pub struct StreamIdGenerator {
    next: u32,
    is_client: bool,
    issued: Ghost<nat>,
}

impl StreamIdGenerator {
    /// Whether this generator allocates client (odd) ids.
    pub closed spec fn role_is_client(&self) -> bool {
        self.is_client
    }

    /// How many ids this generator has handed out.
    pub closed spec fn issued(&self) -> nat {
        self.issued@
    }

    /// The counter always holds the next id of the role's sequence.
    pub closed spec fn wf(&self) -> bool {
        self.next as int == local_id(self.is_client, self.issued@)
    }

    /// Whether one more id can be handed out: advancing the counter past
    /// the next id of the sequence does not wrap.
    pub open spec fn has_next(&self) -> bool {
        local_id(self.role_is_client(), self.issued()) + 2 <= u32::MAX
    }

    /// A fresh generator: it will hand out 1 first for a client, 2 for a server.
    pub fn new(is_client: bool) -> (r: StreamIdGenerator)
        ensures
            r.wf(),
            r.role_is_client() == is_client,
            r.issued() == 0,
            r.has_next(),
    {
        let first: u32 = if is_client { 1 } else { 2 };
        StreamIdGenerator { next: first, is_client, issued: Ghost(0) }
    }

    /// Hands out the next id of the role's sequence, or `IdExhausted` when
    /// advancing the counter by two would wrap.
    pub fn next(&mut self) -> (r: Result<u32, SmuxError>)
        requires
            old(self).wf(),
        ensures
            final(self).wf(),
            final(self).role_is_client() == old(self).role_is_client(),
            r.is_ok() <==> old(self).has_next(),
            match r {
                Ok(id) => {
                    &&& id as int == local_id(old(self).role_is_client(), old(self).issued())
                    &&& final(self).issued() == old(self).issued() + 1
                },
                Err(e) => {
                    &&& e == SmuxError::IdExhausted
                    &&& *final(self) == *old(self)
                },
            },
    {
        if self.next > u32::MAX - 2 {
            return Err(SmuxError::IdExhausted);
        }
        let id = self.next;
        self.next = self.next + 2;
        self.issued = Ghost(self.issued@ + 1);
        Ok(id)
    }

    /// Accepts `id` for a stream opened by the peer only when it is nonzero
    /// and of the parity opposite to the local role.
    pub fn validate_peer_stream_id(&self, id: u32) -> (r: Result<(), SmuxError>)
        ensures
            r.is_ok() <==> peer_id_ok(self.role_is_client(), id),
            r.is_err() ==> r == Err::<(), SmuxError>(SmuxError::InvalidPeerStreamId(id)),
    {
        if id == 0 || (id % 2 == 1) == self.is_client {
            Err(SmuxError::InvalidPeerStreamId(id))
        } else {
            Ok(())
        }
    }
}

/// Successive allocations by one generator yield 1, 3, 5, ... for a client
/// and 2, 4, 6, ... for a server.
pub proof fn lemma_local_id_sequence(is_client: bool, k: nat)
    ensures
        local_id(is_client, 0) == (if is_client { 1int } else { 2int }),
        local_id(is_client, k + 1) == local_id(is_client, k) + 2,
{
}

/// Ids handed out at different positions of one role's sequence differ,
/// and each is nonzero with the role's parity; so any number of
/// allocations, in any interleaving, never yields the same id twice.
pub proof fn lemma_local_ids_distinct(is_client: bool, j: nat, k: nat)
    requires
        j != k,
    ensures
        local_id(is_client, j) != local_id(is_client, k),
        local_id(is_client, j) > 0,
        local_id(is_client, j) % 2 == (if is_client { 1int } else { 0int }),
{
}

/// A locally allocated id is never one that the peer may open: the two
/// sides of a session draw from disjoint id sets.
pub proof fn lemma_local_ids_not_peer(is_client: bool, k: nat)
    requires
        local_id(is_client, k) <= u32::MAX,
    ensures
        !peer_id_ok(is_client, local_id(is_client, k) as u32),
{
}

} // verus!
