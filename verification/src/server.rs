//! The rendezvous server's brokering logic.
//!
//! Two pieces of state: the registration table, mapping each peer id to its
//! last-seen UDP address (last write wins, no expiry), and the single-slot
//! punch session, holding the active peer's still-open signaling connection
//! from its punch request until the passive peer's acknowledgment resolves
//! it. The handlers here are pure decisions: the caller performs the sends
//! they prescribe.

use vstd::prelude::*;

use crate::addr::SockAddr;
use crate::hybrid::{spec_decode, spec_encode, Message, MsgV};

verus! {

/// One registration: a peer id bound to its last-seen UDP address.
struct Binding {
    id: String,
    addr: SockAddr,
}

/// The registration table. Its value is the map from peer id to the
/// address of that id's most recent registration.
pub struct RegTable {
    bindings: Vec<Binding>,
}

/// The map a sequence of bindings denotes: later bindings win.
spec fn map_of(s: Seq<Binding>) -> Map<Seq<char>, SockAddr>
    decreases s.len(),
{
    if s.len() == 0 {
        Map::empty()
    } else {
        map_of(s.drop_last()).insert(s.last().id@, s.last().addr)
    }
}

/// Each id occurs at most once among the bindings.
spec fn ids_unique(s: Seq<Binding>) -> bool {
    forall|i: int, j: int|
        0 <= i < j < s.len() ==> s[i].id@ != s[j].id@
}

proof fn lemma_map_of_contains(s: Seq<Binding>, k: Seq<char>)
    ensures
        map_of(s).contains_key(k) <==> exists|i: int| 0 <= i < s.len() && s[i].id@ == k,
    decreases s.len(),
{
    if s.len() > 0 {
        lemma_map_of_contains(s.drop_last(), k);
        if s.last().id@ == k {
            assert(s[s.len() - 1].id@ == k);
        } else {
            if map_of(s).contains_key(k) {
                let i = choose|i: int| 0 <= i < s.drop_last().len() && s.drop_last()[i].id@ == k;
                assert(s[i].id@ == k);
            }
            if exists|i: int| 0 <= i < s.len() && s[i].id@ == k {
                let i = choose|i: int| 0 <= i < s.len() && s[i].id@ == k;
                assert(s.drop_last()[i].id@ == k);
            }
        }
    }
}

proof fn lemma_map_of_get(s: Seq<Binding>, i: int)
    requires
        ids_unique(s),
        0 <= i < s.len(),
    ensures
        map_of(s).contains_key(s[i].id@),
        map_of(s)[s[i].id@] == s[i].addr,
    decreases s.len(),
{
    lemma_map_of_contains(s, s[i].id@);
    if i == s.len() - 1 {
    } else {
        assert(s.drop_last()[i] == s[i]);
        lemma_map_of_get(s.drop_last(), i);
        assert(s[i].id@ != s.last().id@);
    }
}

proof fn lemma_map_of_update(s: Seq<Binding>, i: int, b: Binding)
    requires
        ids_unique(s),
        0 <= i < s.len(),
        b.id@ == s[i].id@,
    ensures
        map_of(s.update(i, b)) == map_of(s).insert(b.id@, b.addr),
    decreases s.len(),
{
    let t = s.update(i, b);
    if i == s.len() - 1 {
        assert(t.drop_last() =~= s.drop_last());
        assert(t.last() == b);
        assert(map_of(t) == map_of(s.drop_last()).insert(b.id@, b.addr));
        assert(map_of(s).insert(b.id@, b.addr) =~= map_of(s.drop_last()).insert(
            b.id@,
            b.addr,
        ));
    } else {
        assert(t.drop_last() =~= s.drop_last().update(i, b));
        assert(t.last() == s.last());
        assert(s.drop_last()[i] == s[i]);
        lemma_map_of_update(s.drop_last(), i, b);
        assert(s[i].id@ != s.last().id@);
        assert(map_of(t) == map_of(s.drop_last()).insert(b.id@, b.addr).insert(
            s.last().id@,
            s.last().addr,
        ));
        assert(map_of(s.drop_last()).insert(b.id@, b.addr).insert(s.last().id@, s.last().addr)
            =~= map_of(s).insert(b.id@, b.addr));
    }
}

impl View for RegTable {
    type V = Map<Seq<char>, SockAddr>;

    closed spec fn view(&self) -> Map<Seq<char>, SockAddr> {
        map_of(self.bindings@)
    }
}

impl RegTable {
    /// Validity: ids are stored at most once, so the stored address for an
    /// id is the binding the map denotes.
    pub closed spec fn wf(self) -> bool {
        ids_unique(self.bindings@)
    }

    /// An empty table.
    pub fn new() -> (r: RegTable)
        ensures
            r.wf(),
            r@ == Map::<Seq<char>, SockAddr>::empty(),
    {
        RegTable { bindings: Vec::new() }
    }

    /// Binds `id` to `addr`, overwriting any previous binding: last write
    /// wins.
    pub fn upsert(&mut self, id: String, addr: SockAddr)
        requires
            old(self).wf(),
        ensures
            final(self).wf(),
            final(self)@ == old(self)@.insert(id@, addr),
    {
        let n: usize = self.bindings.len();
        let mut i: usize = 0;
        while i < n
            invariant
                old(self).wf(),
                n == self.bindings.len(),
                i <= n,
                forall|k: int| 0 <= k < i ==> self.bindings@[k].id@ != id@,
                *self == *old(self),
            decreases n - i,
        {
            if self.bindings[i].id == id {
                let ghost s = self.bindings@;
                let ghost idx = i as int;
                self.bindings[i] = Binding { id, addr };
                proof {
                    let t = self.bindings@;
                    lemma_map_of_update(s, idx, t[idx]);
                    assert forall|p: int, q: int|
                        0 <= p < q < t.len() implies t[p].id@ != t[q].id@ by {
                        assert(t[p].id@ == s[p].id@);
                        assert(t[q].id@ == s[q].id@);
                    }
                }
                return ;
            }
            i += 1;
        }
        let ghost s = self.bindings@;
        self.bindings.push(Binding { id, addr });
        proof {
            assert(self.bindings@.drop_last() =~= s);
            assert forall|p: int, q: int|
                0 <= p < q < self.bindings@.len() implies self.bindings@[p].id@
                != self.bindings@[q].id@ by {
                if q < s.len() {
                } else {
                    assert(self.bindings@[p].id@ != id@);
                }
            }
        }
    }

    /// The address bound to `id`, if any registration ever arrived for it.
    pub fn lookup(&self, id: &String) -> (r: Option<SockAddr>)
        requires
            self.wf(),
        ensures
            r == if self@.contains_key(id@) {
                Some(self@[id@])
            } else {
                None::<SockAddr>
            },
    {
        let n: usize = self.bindings.len();
        let mut i: usize = 0;
        while i < n
            invariant
                self.wf(),
                n == self.bindings.len(),
                i <= n,
                forall|k: int| 0 <= k < i ==> self.bindings@[k].id@ != id@,
            decreases n - i,
        {
            if self.bindings[i].id == *id {
                proof {
                    lemma_map_of_get(self.bindings@, i as int);
                }
                return Some(self.bindings[i].addr);
            }
            i += 1;
        }
        proof {
            lemma_map_of_contains(self.bindings@, id@);
        }
        None
    }
}

/// The held punch session: the active peer's still-open signaling
/// connection, named by a caller-chosen token.
#[derive(Clone, Copy, Debug, PartialEq, Eq, Structural)]
pub struct PendingSession {
    pub conn: u64,
}

/// The signaling path's state: idle, or holding the active peer's
/// connection while the passive peer gets ready. At most one session
/// exists at a time; a second request overwrites the slot.
#[derive(Clone, Copy, Debug, PartialEq, Eq, Structural)]
pub enum SignalState {
    Idle,
    AwaitingB(PendingSession),
}

/// What the caller must do after a signaling step.
#[derive(Debug, PartialEq, Eq)]
pub enum ServerAction {
    /// Send `msg` over UDP to the target's registered address.
    NotifyTarget { target_udp: SockAddr, msg: Message },
    /// Write `msg` on the named TCP connection.
    Reply { conn: u64, msg: Message },
    /// Log and drop the input; send nothing.
    Ignore,
}

/// The signaling transition: what one TCP-read message does to the session
/// slot, and what gets sent where. `conn` names the connection the message
/// arrived on and `observed` is that connection's source address as the
/// server saw it — the address the other peer must dial.
pub open spec fn spec_signal_step(
    table: Map<Seq<char>, SockAddr>,
    state: SignalState,
    m: MsgV,
    conn: u64,
    observed: SockAddr,
) -> (SignalState, ServerAction) {
    match m {
        MsgV::PunchA2S(target) => if table.contains_key(target) {
            (
                SignalState::AwaitingB(PendingSession { conn }),
                ServerAction::NotifyTarget {
                    target_udp: table[target],
                    msg: Message::punchS2B(observed),
                },
            )
        } else {
            (state, ServerAction::Reply { conn, msg: Message::punchS2A(None) })
        },
        MsgV::PunchB2S(_) => match state {
            SignalState::AwaitingB(p) => (
                SignalState::Idle,
                ServerAction::Reply { conn: p.conn, msg: Message::punchS2A(Some(observed)) },
            ),
            SignalState::Idle => (SignalState::Idle, ServerAction::Ignore),
        },
        _ => (state, ServerAction::Ignore),
    }
}

/// Runs one signaling step on a decoded message.
pub fn handle_signal(
    table: &RegTable,
    state: SignalState,
    msg: &Message,
    conn: u64,
    observed: SockAddr,
) -> (r: (SignalState, ServerAction))
    requires
        table.wf(),
    ensures
        r == spec_signal_step(table@, state, msg@, conn, observed),
{
    match msg {
        Message::punchA2S(target) => {
            match table.lookup(target) {
                Some(target_udp) => (
                    SignalState::AwaitingB(PendingSession { conn }),
                    ServerAction::NotifyTarget { target_udp, msg: Message::punchS2B(observed) },
                ),
                None => (state, ServerAction::Reply { conn, msg: Message::punchS2A(None) }),
            }
        },
        Message::punchB2S(_) => {
            match state {
                SignalState::AwaitingB(p) => (
                    SignalState::Idle,
                    ServerAction::Reply {
                        conn: p.conn,
                        msg: Message::punchS2A(Some(observed)),
                    },
                ),
                SignalState::Idle => (SignalState::Idle, ServerAction::Ignore),
            }
        },
        _ => (state, ServerAction::Ignore),
    }
}

/// Runs one signaling step straight on the bytes of one TCP read: an input
/// that does not decode is dropped and changes nothing.
pub fn handle_signal_bytes(
    table: &RegTable,
    state: SignalState,
    data: &[u8],
    conn: u64,
    observed: SockAddr,
) -> (r: (SignalState, ServerAction))
    requires
        table.wf(),
    ensures
        match spec_decode(data@) {
            Some(m) => r == spec_signal_step(table@, state, m, conn, observed),
            None => r == (state, ServerAction::Ignore),
        },
{
    match Message::decode(data) {
        Ok(msg) => handle_signal(table, state, &msg, conn, observed),
        Err(_) => (state, ServerAction::Ignore),
    }
}

/// Handles one UDP datagram already decoded: a registration upserts the
/// sender's binding and is acknowledged; anything else is dropped.
pub fn handle_register(table: &mut RegTable, msg: &Message, from: SockAddr) -> (r: Option<
    Message,
>)
    requires
        old(table).wf(),
    ensures
        final(table).wf(),
        match msg@ {
            MsgV::RegisterRequest(id) => final(table)@ == old(table)@.insert(id, from) && (
            r matches Some(m) && m@ == MsgV::RegisterResponse(0u8)),
            _ => final(table)@ == old(table)@ && r is None,
        },
{
    match msg {
        Message::register_request(id) => {
            table.upsert(id.clone(), from);
            Some(Message::register_response(0))
        },
        _ => None,
    }
}

/// Handles the raw bytes of one UDP datagram: decodes, upserts on a
/// registration and returns the encoded acknowledgment; everything else —
/// malformed bytes included — is dropped and leaves the table unchanged.
pub fn handle_udp_datagram(table: &mut RegTable, data: &[u8], from: SockAddr) -> (r: Option<
    Vec<u8>,
>)
    requires
        old(table).wf(),
    ensures
        final(table).wf(),
        match spec_decode(data@) {
            Some(MsgV::RegisterRequest(id)) => final(table)@ == old(table)@.insert(id, from)
                && (r matches Some(v) && v@ == spec_encode(MsgV::RegisterResponse(0u8))),
            _ => final(table)@ == old(table)@ && r is None,
        },
{
    match Message::decode(data) {
        Ok(msg) => match handle_register(table, &msg, from) {
            Some(reply) => Some(reply.encode()),
            None => None,
        },
        Err(_) => None,
    }
}

/// Law: registration is last-write-wins — after two registrations of the
/// same id, from wherever, the table binds the id to the later address.
pub proof fn lemma_last_write_wins(
    t: Map<Seq<char>, SockAddr>,
    id: Seq<char>,
    a1: SockAddr,
    a2: SockAddr,
)
    ensures
        t.insert(id, a1).insert(id, a2) == t.insert(id, a2),
        t.insert(id, a1).insert(id, a2)[id] == a2,
{
    assert(t.insert(id, a1).insert(id, a2) =~= t.insert(id, a2));
}

/// Law: a punch request for an id that never registered is answered at once
/// with an empty relay on the same connection, and no session is created.
pub proof fn lemma_unregistered_target(
    table: Map<Seq<char>, SockAddr>,
    state: SignalState,
    target: Seq<char>,
    conn: u64,
    observed: SockAddr,
)
    requires
        !table.contains_key(target),
    ensures
        spec_signal_step(table, state, MsgV::PunchA2S(target), conn, observed) == (
        state,
        ServerAction::Reply { conn, msg: Message::punchS2A(None) },
        ),
{
}

/// Law: the session slot is single: a second punch request for a registered
/// target, arriving while a session is pending, overwrites the slot with
/// the new connection — the earlier session is forgotten, not kept.
pub proof fn lemma_second_request_overwrites(
    table: Map<Seq<char>, SockAddr>,
    held: PendingSession,
    target: Seq<char>,
    conn: u64,
    observed: SockAddr,
)
    requires
        table.contains_key(target),
    ensures
        spec_signal_step(
            table,
            SignalState::AwaitingB(held),
            MsgV::PunchA2S(target),
            conn,
            observed,
        ).0 == SignalState::AwaitingB(PendingSession { conn }),
{
}

} // verus!
