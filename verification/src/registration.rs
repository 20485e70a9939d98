//! The registration of a connector with one router: it keeps a sliding window
//! of idle sockets open, and replaces each socket that a request consumes or
//! that fails.
use vstd::prelude::*;
use crate::idle::IdleSockets;
use crate::ids::is_uuid_v4;
use crate::socket::{ConnectorSocket, fresh_state};

verus! {

/// What the sockets of a registration report to it.
pub enum RegistrationEvent {
    /// The registration has started.
    RegistrationInit,
    /// A socket with this identifier was created.
    SocketCreate(String),
    /// The socket with this identifier is open.
    SocketOpen(String),
    /// The socket with this identifier received a request.
    SocketConsumed(String),
    /// The socket with this identifier failed.
    SocketError(String),
}

/// The sockets of one connector at one router's registration URI.
pub struct RouterRegistration {
    pub connector_instance_id: String,
    pub registration_uri: String,
    pub target_uri: String,
    pub component_name: String,
    pub route: String,
    /// How many idle sockets the registration keeps open.
    pub sliding_window: usize,
    /// The identifiers of the sockets that wait for a request.
    pub idle_sockets: IdleSockets,
}

/// How many sockets must start before `idle` idle sockets fill a window of `window`.
pub open spec fn missing_count(idle: nat, window: nat) -> nat {
    if idle < window { (window - idle) as nat } else { 0 }
}

/// The missing sockets are what the idle ones lack to fill the window: with
/// them, there are exactly as many as the window, or the idle ones already
/// fill it and none is missing.
pub proof fn lemma_missing_fills_window(idle: nat, window: nat)
    ensures
        idle + missing_count(idle, window) == if idle >= window { idle } else { window },
        missing_count(idle, window) == 0 <==> idle >= window,
{
}

/// The idle set after sockets with the identifiers `ids` start, in order.
pub open spec fn idle_after_starts(idle: Set<Seq<char>>, ids: Seq<Seq<char>>) -> Set<Seq<char>>
    decreases ids.len(),
{
    if ids.len() == 0 {
        idle
    } else {
        idle_after_starts(idle.insert(ids[0]), ids.drop_first())
    }
}

/// Starting as many sockets as are missing, each with an identifier that is
/// not idle yet, fills the window: then no socket is missing.
pub proof fn lemma_starts_fill_window(idle: Set<Seq<char>>, window: nat, ids: Seq<Seq<char>>)
    requires
        idle.finite(),
        ids.no_duplicates(),
        forall|i: int| 0 <= i < ids.len() ==> !idle.contains(#[trigger] ids[i]),
        ids.len() == missing_count(idle.len(), window),
    ensures
        idle_after_starts(idle, ids).len() == idle.len() + ids.len(),
        missing_count(idle_after_starts(idle, ids).len(), window) == 0,
{
    lemma_fresh_starts_count(idle, ids);
}

/// Each start with a fresh identifier adds one idle socket.
proof fn lemma_fresh_starts_count(idle: Set<Seq<char>>, ids: Seq<Seq<char>>)
    requires
        idle.finite(),
        ids.no_duplicates(),
        forall|i: int| 0 <= i < ids.len() ==> !idle.contains(#[trigger] ids[i]),
    ensures
        idle_after_starts(idle, ids).finite(),
        idle_after_starts(idle, ids).len() == idle.len() + ids.len(),
    decreases ids.len(),
{
    if ids.len() > 0 {
        let rest = ids.drop_first();
        let next = idle.insert(ids[0]);
        assert forall|i: int| 0 <= i < rest.len() implies !next.contains(#[trigger] rest[i]) by {
            assert(rest[i] == ids[i + 1]);
            assert(ids[i + 1] != ids[0]);
        }
        assert(rest.no_duplicates()) by {
            assert forall|i: int, j: int| 0 <= i < rest.len() && 0 <= j < rest.len() && i != j
                implies rest[i] != rest[j] by {
                assert(rest[i] == ids[i + 1] && rest[j] == ids[j + 1]);
            }
        }
        lemma_fresh_starts_count(next, rest);
    }
}

/// Starting one more socket after `ids` adds its identifier to the idle set.
proof fn lemma_idle_after_one_more(idle: Set<Seq<char>>, ids: Seq<Seq<char>>, id: Seq<char>)
    ensures
        idle_after_starts(idle, ids.push(id)) == idle_after_starts(idle, ids).insert(id),
    decreases ids.len(),
{
    let longer = ids.push(id);
    if ids.len() == 0 {
        assert(longer.drop_first() =~= Seq::<Seq<char>>::empty());
        assert(longer[0] == id);
        assert(idle_after_starts(idle, longer) == idle_after_starts(idle.insert(id), longer.drop_first()));
        assert(idle_after_starts(idle.insert(id), Seq::<Seq<char>>::empty()) == idle.insert(id));
    } else {
        assert(longer.drop_first() =~= ids.drop_first().push(id));
        assert(longer[0] == ids[0]);
        lemma_idle_after_one_more(idle.insert(ids[0]), ids.drop_first(), id);
        assert(idle_after_starts(idle, longer) == idle_after_starts(idle.insert(ids[0]), longer.drop_first()));
    }
}

/// Starting sockets drops no idle one.
proof fn lemma_starts_keep_idle(idle: Set<Seq<char>>, ids: Seq<Seq<char>>)
    ensures
        idle.subset_of(idle_after_starts(idle, ids)),
    decreases ids.len(),
{
    if ids.len() > 0 {
        lemma_starts_keep_idle(idle.insert(ids[0]), ids.drop_first());
    }
}

/// The identifiers of `sockets`, in order.
pub open spec fn socket_ids(sockets: Seq<ConnectorSocket>) -> Seq<Seq<char>> {
    sockets.map_values(|s: ConnectorSocket| s.socket_id@)
}

/// `socket` is a new socket of `r` that has received nothing.
pub open spec fn new_socket_of(r: RouterRegistration, socket: ConnectorSocket) -> bool {
    &&& is_uuid_v4(socket.socket_id@)
    &&& socket.state == fresh_state()
    &&& socket.connector_instance_id == r.connector_instance_id
    &&& socket.registration_uri == r.registration_uri
    &&& socket.target_uri == r.target_uri
    &&& socket.component_name == r.component_name
    &&& socket.route == r.route
}

impl RouterRegistration {
    /// The identifiers of the idle sockets.
    pub open spec fn idle(&self) -> Set<Seq<char>> {
        self.idle_sockets@
    }

    /// The set of idle sockets is finite.
    pub open spec fn wf(&self) -> bool {
        self.idle_sockets.wf()
    }

    /// A registration with no idle socket yet.
    pub fn new(
        connector_instance_id: String,
        registration_uri: String,
        target_uri: String,
        component_name: String,
        route: String,
        sliding_window: usize,
    ) -> (r: Self)
        ensures
            r.wf(),
            r.idle() == Set::<Seq<char>>::empty(),
            r.connector_instance_id == connector_instance_id,
            r.registration_uri == registration_uri,
            r.target_uri == target_uri,
            r.component_name == component_name,
            r.route == route,
            r.sliding_window == sliding_window,
    {
        RouterRegistration {
            connector_instance_id,
            registration_uri,
            target_uri,
            component_name,
            route,
            sliding_window,
            idle_sockets: IdleSockets::new(),
        }
    }

    /// How many sockets must start to fill the window.
    pub fn missing_sockets(&self) -> (n: usize)
        requires
            self.wf(),
        ensures
            n == missing_count(self.idle().len(), self.sliding_window as nat),
            self.idle().len() < self.sliding_window ==> n == self.sliding_window - self.idle().len(),
            self.idle().len() >= self.sliding_window ==> n == 0,
    {
        let idle: usize = self.idle_sockets.len();
        if idle < self.sliding_window {
            self.sliding_window - idle
        } else {
            0
        }
    }

    /// Creates a socket for this registration and counts it as idle; the
    /// caller opens it.
    pub fn start_socket(&mut self) -> (socket: ConnectorSocket)
        requires
            old(self).wf(),
        ensures
            final(self).wf(),
            final(self).idle() == old(self).idle().insert(socket.socket_id@),
            is_uuid_v4(socket.socket_id@),
            socket.state == fresh_state(),
            socket.connector_instance_id == old(self).connector_instance_id,
            socket.registration_uri == old(self).registration_uri,
            socket.target_uri == old(self).target_uri,
            socket.component_name == old(self).component_name,
            socket.route == old(self).route,
            final(self).same_settings(*old(self)),
    {
        let socket = ConnectorSocket::new(
            self.connector_instance_id.clone(),
            self.registration_uri.clone(),
            self.target_uri.clone(),
            self.component_name.clone(),
            self.route.clone(),
        );
        self.idle_sockets.insert(socket.socket_id.clone());
        socket
    }

    /// Creates as many sockets as the window misses and counts them as idle;
    /// the caller opens them. No idle socket is dropped. Where their
    /// identifiers are new (random ones are, all but certainly), the window is
    /// then full; on a full window, a fill starts nothing and changes nothing.
    pub fn fill_window(&mut self) -> (sockets: Vec<ConnectorSocket>)
        requires
            old(self).wf(),
        ensures
            final(self).wf(),
            final(self).same_settings(*old(self)),
            sockets@.len() == missing_count(old(self).idle().len(), old(self).sliding_window as nat),
            old(self).idle().len() < old(self).sliding_window ==> sockets@.len() == old(self).sliding_window
                - old(self).idle().len(),
            old(self).idle().len() >= old(self).sliding_window ==> sockets@.len() == 0,
            final(self).idle() == idle_after_starts(old(self).idle(), socket_ids(sockets@)),
            forall|i: int| 0 <= i < sockets@.len() ==> new_socket_of(*old(self), #[trigger] sockets@[i]),
            missing_count(old(self).idle().len(), old(self).sliding_window as nat) == 0 ==> {
                &&& sockets@.len() == 0
                &&& final(self).idle() == old(self).idle()
            },
            old(self).idle().subset_of(final(self).idle()),
            socket_ids(sockets@).no_duplicates() && (forall|i: int|
                0 <= i < sockets@.len() ==> !old(self).idle().contains(#[trigger] sockets@[i].socket_id@))
                ==> missing_count(final(self).idle().len(), final(self).sliding_window as nat) == 0
                && final(self).idle().len() >= final(self).sliding_window
                && final(self).idle().len() == old(self).idle().len() + sockets@.len(),
    {
        let ghost start: RouterRegistration = *self;
        let count: usize = self.missing_sockets();
        let mut sockets: Vec<ConnectorSocket> = Vec::new();
        for i in 0..count
            invariant
                self.wf(),
                self.same_settings(start),
                start.wf(),
                count == missing_count(start.idle().len(), start.sliding_window as nat),
                sockets@.len() == i,
                self.idle() == idle_after_starts(start.idle(), socket_ids(sockets@)),
                forall|j: int| 0 <= j < sockets@.len() ==> new_socket_of(start, #[trigger] sockets@[j]),
        {
            let socket = self.start_socket();
            proof {
                lemma_idle_after_one_more(start.idle(), socket_ids(sockets@), socket.socket_id@);
                assert(socket_ids(sockets@.push(socket)) =~= socket_ids(sockets@).push(socket.socket_id@));
            }
            sockets.push(socket);
        }
        proof {
            let ids = socket_ids(sockets@);
            lemma_starts_keep_idle(start.idle(), ids);
            if count == 0 {
                assert(ids =~= Seq::<Seq<char>>::empty());
            }
            if ids.no_duplicates() && (forall|i: int|
                0 <= i < sockets@.len() ==> !start.idle().contains(#[trigger] sockets@[i].socket_id@)) {
                assert forall|i: int| 0 <= i < ids.len() implies !start.idle().contains(#[trigger] ids[i]) by {
                    assert(ids[i] == sockets@[i].socket_id@);
                }
                lemma_starts_fill_window(start.idle(), start.sliding_window as nat, ids);
            }
        }
        sockets
    }

    /// The two registrations have the same identity, addresses and window.
    pub open spec fn same_settings(&self, other: Self) -> bool {
        &&& self.connector_instance_id == other.connector_instance_id
        &&& self.registration_uri == other.registration_uri
        &&& self.target_uri == other.target_uri
        &&& self.component_name == other.component_name
        &&& self.route == other.route
        &&& self.sliding_window == other.sliding_window
    }

    /// Records `event`; returns whether the window must be filled again.
    pub fn on_event(&mut self, event: RegistrationEvent) -> (refill: bool)
        requires
            old(self).wf(),
        ensures
            final(self).wf(),
            final(self).same_settings(*old(self)),
            match event {
                RegistrationEvent::RegistrationInit => {
                    &&& refill
                    &&& final(self).idle() == old(self).idle()
                },
                RegistrationEvent::SocketCreate(id) => {
                    &&& !refill
                    &&& final(self).idle() == old(self).idle().insert(id@)
                },
                RegistrationEvent::SocketOpen(_) => {
                    &&& !refill
                    &&& final(self).idle() == old(self).idle()
                },
                RegistrationEvent::SocketConsumed(id) => {
                    &&& refill
                    &&& final(self).idle() == old(self).idle().remove(id@)
                },
                RegistrationEvent::SocketError(id) => {
                    &&& refill
                    &&& final(self).idle() == old(self).idle().remove(id@)
                },
            },
    {
        match event {
            RegistrationEvent::RegistrationInit => true,
            RegistrationEvent::SocketCreate(id) => {
                self.idle_sockets.insert(id);
                false
            },
            RegistrationEvent::SocketOpen(_) => false,
            RegistrationEvent::SocketConsumed(id) => {
                self.idle_sockets.remove(id.as_str());
                true
            },
            RegistrationEvent::SocketError(id) => {
                self.idle_sockets.remove(id.as_str());
                true
            },
        }
    }
}

} // verus!
