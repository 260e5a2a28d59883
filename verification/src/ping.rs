//! Out-of-band server pings: fixed-size datagrams used to query a server's
//! state and measure latency before connecting. The wire form comes from
//! the outside protocol crate; the pending-request registry that matches
//! replies to requests is verified here.

use vstd::prelude::*;

verus! {

/// The eight big-endian bytes of a 64-bit value.
pub open spec fn be8(x: u64) -> Seq<u8> {
    seq![
        ((x as int) / 0x100000000000000 % 256) as u8,
        ((x as int) / 0x1000000000000 % 256) as u8,
        ((x as int) / 0x10000000000 % 256) as u8,
        ((x as int) / 0x100000000 % 256) as u8,
        ((x as int) / 0x1000000 % 256) as u8,
        ((x as int) / 0x10000 % 256) as u8,
        ((x as int) / 0x100 % 256) as u8,
        ((x as int) % 256) as u8,
    ]
}

/// The 64-bit value eight big-endian bytes spell.
pub open spec fn u64_from_be(s: Seq<u8>) -> int {
    s[0] * 0x100000000000000 + s[1] * 0x1000000000000 + s[2] * 0x10000000000 + s[3] * 0x100000000
        + s[4] * 0x1000000 + s[5] * 0x10000 + s[6] * 0x100 + s[7]
}

/// The 32-bit value four big-endian bytes spell.
pub open spec fn u32_from_be(s: Seq<u8>) -> int {
    s[0] * 0x1000000 + s[1] * 0x10000 + s[2] * 0x100 + s[3]
}

/// Big-endian encoding and decoding invert each other.
pub proof fn lemma_be8_roundtrip(x: u64)
    ensures
        u64_from_be(be8(x)) == x,
{
    let x0 = x as int;
    let q1 = x0 / 0x100;
    let q2 = x0 / 0x10000;
    let q3 = x0 / 0x1000000;
    let q4 = x0 / 0x100000000;
    let q5 = x0 / 0x10000000000;
    let q6 = x0 / 0x1000000000000;
    let q7 = x0 / 0x100000000000000;
    vstd::arithmetic::div_mod::lemma_div_denominator(x0, 0x100, 0x100);
    vstd::arithmetic::div_mod::lemma_div_denominator(x0, 0x10000, 0x100);
    vstd::arithmetic::div_mod::lemma_div_denominator(x0, 0x1000000, 0x100);
    vstd::arithmetic::div_mod::lemma_div_denominator(x0, 0x100000000, 0x100);
    vstd::arithmetic::div_mod::lemma_div_denominator(x0, 0x10000000000, 0x100);
    vstd::arithmetic::div_mod::lemma_div_denominator(x0, 0x1000000000000, 0x100);
    assert(q2 == q1 / 0x100 && q3 == q2 / 0x100 && q4 == q3 / 0x100 && q5 == q4 / 0x100 && q6 == q5
        / 0x100 && q7 == q6 / 0x100);
    vstd::arithmetic::div_mod::lemma_fundamental_div_mod(x0, 0x100);
    vstd::arithmetic::div_mod::lemma_fundamental_div_mod(q1, 0x100);
    vstd::arithmetic::div_mod::lemma_fundamental_div_mod(q2, 0x100);
    vstd::arithmetic::div_mod::lemma_fundamental_div_mod(q3, 0x100);
    vstd::arithmetic::div_mod::lemma_fundamental_div_mod(q4, 0x100);
    vstd::arithmetic::div_mod::lemma_fundamental_div_mod(q5, 0x100);
    vstd::arithmetic::div_mod::lemma_fundamental_div_mod(q6, 0x100);
    assert(q7 < 0x100) by (nonlinear_arith)
        requires
            q7 == x0 / 0x100000000000000,
            0 <= x0 < 0x10000000000000000,
    {
    }
    vstd::arithmetic::div_mod::lemma_small_mod(q7 as nat, 0x100);
}

/// A pong reply, as plain values.
#[derive(Clone, Copy, Debug, PartialEq, Eq, Structural)]
pub struct PongReply {
    pub id: u64,
    pub version: u32,
    pub users: u32,
    pub max_users: u32,
    pub bandwidth: u32,
}

/// Relies on the protocol crate's ping serialisation
/// (`From<PingPacket> for [u8; 12]`): four zero header bytes, then the
/// client-generated id big-endian.
#[verifier::external_body]
fn ping_packet_bytes(id: u64) -> (r: Vec<u8>)
    ensures
        r@ =~= seq![0u8, 0u8, 0u8, 0u8] + be8(id),
{
    let bytes: [u8; 12] = mumble_protocol::ping::PingPacket { id }.into();
    bytes.to_vec()
}

/// Relies on the protocol crate's pong parsing
/// (`TryFrom<&[u8]> for PongPacket`): exactly 24 bytes parse, as the
/// big-endian fields version, id, users, max-users and bandwidth.
#[verifier::external_body]
fn parse_pong(bytes: &Vec<u8>) -> (r: Option<PongReply>)
    ensures
        r is Some <==> bytes@.len() == 24,
        r matches Some(p) ==> {
            &&& p.version == u32_from_be(bytes@.subrange(0, 4))
            &&& p.id == u64_from_be(bytes@.subrange(4, 12))
            &&& p.users == u32_from_be(bytes@.subrange(12, 16))
            &&& p.max_users == u32_from_be(bytes@.subrange(16, 20))
            &&& p.bandwidth == u32_from_be(bytes@.subrange(20, 24))
        },
{
    match mumble_protocol::ping::PongPacket::try_from(bytes.as_slice()) {
        Ok(p) => Some(
            PongReply {
                id: p.id,
                version: p.version,
                users: p.users,
                max_users: p.max_users,
                bandwidth: p.bandwidth,
            },
        ),
        Err(_) => None,
    }
}

/// Whether a request id is pending.
pub open spec fn pending_has(ids: Seq<u64>, id: u64) -> bool {
    exists|i: int| 0 <= i < ids.len() && ids[i] == id
}

/// The registry of ping requests awaiting a pong: a request id goes in when
/// the ping is sent and comes out when the matching pong arrives; a pong
/// with an unknown id completes nothing.
pub struct PendingPings {
    ids: Vec<u64>,
}

impl PendingPings {
    pub closed spec fn ids_view(&self) -> Seq<u64> {
        self.ids@
    }

    pub open spec fn wf(&self) -> bool {
        forall|i: int, j: int|
            0 <= i < j < self.ids_view().len() ==> self.ids_view()[i] != self.ids_view()[j]
    }

    pub fn new() -> (r: PendingPings)
        ensures
            r.wf(),
            r.ids_view().len() == 0,
    {
        PendingPings { ids: Vec::new() }
    }

    fn find(&self, id: u64) -> (r: Option<usize>)
        ensures
            match r {
                Some(i) => i < self.ids_view().len() && self.ids_view()[i as int] == id,
                None => !pending_has(self.ids_view(), id),
            },
    {
        let mut i: usize = 0;
        while i < self.ids.len()
            invariant
                i <= self.ids@.len(),
                forall|j: int| 0 <= j < i ==> self.ids@[j] != id,
            decreases self.ids@.len() - i,
        {
            if self.ids[i] == id {
                return Some(i);
            }
            i = i + 1;
        }
        None
    }

    /// Record that a ping with this id went out.
    pub fn register(&mut self, id: u64)
        requires
            old(self).wf(),
        ensures
            final(self).wf(),
            pending_has(final(self).ids_view(), id),
            forall|x: u64|
                pending_has(old(self).ids_view(), x) ==> pending_has(final(self).ids_view(), x),
    {
        match self.find(id) {
            Some(_) => {
                proof {
                    assert forall|x: u64|
                        pending_has(old(self).ids_view(), x) implies pending_has(
                        self.ids_view(),
                        x,
                    ) by {}
                }
            },
            None => {
                self.ids.push(id);
                proof {
                    assert(self.ids@.drop_last() =~= old(self).ids_view());
                    let last = self.ids@.len() - 1;
                    assert(self.ids_view()[last] == id);
                    assert forall|a: int, b: int|
                        0 <= a < b < self.ids@.len() implies self.ids@[a] != self.ids@[b] by {
                        if b < last {
                            assert(old(self).ids_view()[a] != old(self).ids_view()[b]);
                        } else {
                            assert(self.ids@[a] == old(self).ids_view()[a]);
                            assert(!pending_has(old(self).ids_view(), id));
                        }
                    }
                    assert forall|x: u64|
                        pending_has(old(self).ids_view(), x) implies pending_has(
                        self.ids_view(),
                        x,
                    ) by {
                        let w = choose|i: int|
                            0 <= i < old(self).ids_view().len() && old(self).ids_view()[i] == x;
                        assert(self.ids_view()[w] == x);
                    }
                }
            },
        }
    }

    /// A pong with this id arrived: the matching request stops pending and
    /// the caller may run its continuation; an unknown id completes
    /// nothing.
    pub fn complete(&mut self, id: u64) -> (hit: bool)
        requires
            old(self).wf(),
        ensures
            final(self).wf(),
            hit == pending_has(old(self).ids_view(), id),
            !pending_has(final(self).ids_view(), id),
            !hit ==> final(self).ids_view() == old(self).ids_view(),
    {
        match self.find(id) {
            Some(i) => {
                self.ids.remove(i);
                proof {
                    let olds = old(self).ids_view();
                    assert forall|k: int|
                        0 <= k < self.ids@.len() implies (#[trigger] self.ids@[k]) == (if k
                            < i as int {
                            olds[k]
                        } else {
                            olds[k + 1]
                        }) by {}
                    assert forall|k: int| 0 <= k < self.ids@.len() implies self.ids@[k] != id by {
                        if k >= i as int {
                            assert(olds[i as int] != olds[k + 1]);
                        }
                    }
                    assert forall|a: int, b: int|
                        0 <= a < b < self.ids@.len() implies self.ids@[a] != self.ids@[b] by {
                        let a0: int = if a < i as int { a } else { a + 1 };
                        let b0: int = if b < i as int { b } else { b + 1 };
                        assert(olds[a0] != olds[b0]);
                    }
                }
                true
            },
            None => false,
        }
    }

    /// Build the wire bytes of a ping carrying `id` and remember that the
    /// request is pending.
    pub fn make_request(&mut self, id: u64) -> (r: Vec<u8>)
        requires
            old(self).wf(),
        ensures
            final(self).wf(),
            r@ =~= seq![0u8, 0u8, 0u8, 0u8] + be8(id),
            pending_has(final(self).ids_view(), id),
            forall|x: u64|
                pending_has(old(self).ids_view(), x) ==> pending_has(final(self).ids_view(), x),
    {
        self.register(id);
        ping_packet_bytes(id)
    }

    /// Parse one datagram that may be a pong and complete the matching
    /// request. Exactly the 24-byte replies whose id is actually pending
    /// come back; everything else is dropped, completes nothing and leaves
    /// the registry as it was.
    pub fn handle_reply(&mut self, bytes: &Vec<u8>) -> (r: Option<PongReply>)
        requires
            old(self).wf(),
        ensures
            final(self).wf(),
            bytes@.len() != 24 ==> r is None && final(self).ids_view() == old(self).ids_view(),
            r is None ==> final(self).ids_view() == old(self).ids_view(),
            bytes@.len() == 24 && (exists|i: int|
                0 <= i < old(self).ids_view().len() && (#[trigger] old(self).ids_view()[i]) as int
                    == u64_from_be(bytes@.subrange(4, 12))) ==> r is Some,
            r matches Some(p) ==> {
                &&& p.version == u32_from_be(bytes@.subrange(0, 4))
                &&& p.id == u64_from_be(bytes@.subrange(4, 12))
                &&& p.users == u32_from_be(bytes@.subrange(12, 16))
                &&& p.max_users == u32_from_be(bytes@.subrange(16, 20))
                &&& p.bandwidth == u32_from_be(bytes@.subrange(20, 24))
                &&& pending_has(old(self).ids_view(), p.id)
                &&& !pending_has(final(self).ids_view(), p.id)
            },
    {
        let pong = match parse_pong(bytes) {
            Some(p) => p,
            None => {
                return None;
            },
        };
        proof {
            if exists|i: int|
                0 <= i < self.ids_view().len() && (#[trigger] self.ids_view()[i]) as int
                    == u64_from_be(bytes@.subrange(4, 12)) {
                let w = choose|i: int|
                    0 <= i < self.ids_view().len() && (#[trigger] self.ids_view()[i]) as int
                        == u64_from_be(bytes@.subrange(4, 12));
                assert(self.ids_view()[w] == pong.id);
            }
        }
        if self.complete(pong.id) {
            Some(pong)
        } else {
            None
        }
    }
}

} // verus!
