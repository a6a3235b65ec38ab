//! The configuration of the proxy server.

use vstd::hash_map::StringHashMap;
use vstd::prelude::*;

use crate::address::SocketAddr;
use crate::client::{Client, ClientView, RequestLine};
use crate::events::{EventSet, PollOpt, Registration, Token};
use crate::listeners::{filled_slots, in_slot_order, slab_fits, vacant_slots};
use crate::listeners::{ApplicationListener, Listeners};
use crate::messages::{Command, HttpFront, HttpFrontView, HttpProxyOrder, ServerMessage};
use crate::routing::{lemma_without_contains, lemma_without_empty, lemma_without_push};
use crate::routing::{without, Notified, Routing};

verus! {

/// The fronts, instances and listeners of the proxy.
pub struct ServerConfiguration {
    instances: StringHashMap<Vec<SocketAddr>>,
    listeners: Listeners,
    fronts: StringHashMap<Vec<HttpFront>>,
    max_listeners: usize,
}

/// The slots below `n` in order are 0, 1, and so on.
proof fn lemma_first_slots_in_order(
    slots: Seq<usize>,
    filled: Map<usize, ApplicationListener>,
    n: nat,
)
    requires
        in_slot_order(slots, filled),
        forall|slot: usize| #[trigger] filled.contains_key(slot) <==> slot < n,
        n <= usize::MAX,
    ensures
        slots.len() == n,
        forall|i: int| 0 <= i < n ==> slots[i] == i,
{
    assert forall|i: int| 0 <= i < slots.len() implies slots[i] == i by {
        lemma_slot_at(slots, filled, n, i);
    }
    if slots.len() < n {
        let missing = slots.len() as usize;
        assert(filled.contains_key(missing));
        assert(slots.to_set().contains(missing));
    }
    if slots.len() > n {
        assert(slots.to_set().contains(slots[n as int]));
        assert(filled.contains_key(slots[n as int]));
    }
}

proof fn lemma_slot_at(
    slots: Seq<usize>,
    filled: Map<usize, ApplicationListener>,
    n: nat,
    i: int,
)
    requires
        in_slot_order(slots, filled),
        forall|slot: usize| #[trigger] filled.contains_key(slot) <==> slot < n,
        0 <= i < slots.len(),
    ensures
        slots[i] == i,
    decreases i,
{
    if i > 0 {
        lemma_slot_at(slots, filled, n, i - 1);
    }
    assert(slots.to_set().contains(slots[i]));
    assert(filled.contains_key(slots[i]));
    if slots[i] > i {
        assert(filled.contains_key(i as usize));
        assert(slots.to_set().contains(i as usize));
        let j = choose|j: int| 0 <= j < slots.len() && slots[j] == i as usize;
        assert(j < i ==> slots[j] <= slots[i - 1]);
    }
}

/// Calls `rand::random`: any number may come back.
#[verifier::external_body]
fn random_usize() -> (number: usize) {
    rand::random::<usize>()
}

/// How a listener is registered with the event loop.
pub fn listener_registration(token: Token) -> (registration: Registration)
    ensures
        registration == (Registration {
            token,
            interest: EventSet { readable: true, writable: false, error: false, hup: false },
            opts: PollOpt { edge: false, level: true, oneshot: false },
        }),
{
    Registration {
        token,
        interest: EventSet::readable(),
        opts: PollOpt { edge: false, level: true, oneshot: false },
    }
}

/// Without the fronts that agree with `front` in every field.
fn fronts_without(fronts: &Vec<HttpFront>, front: &HttpFront) -> (kept: Vec<HttpFront>)
    ensures
        front_views(kept@) == without(front_views(fronts@), front@),
{
    let ghost all = front_views(fronts@);
    let mut kept: Vec<HttpFront> = Vec::new();
    proof {
        lemma_without_empty(front@);
        assert(all.take(0) =~= Seq::empty());
        assert(front_views(kept@) =~= Seq::empty());
    }
    for i in 0..fronts.len()
        invariant
            all == front_views(fronts@),
            front_views(kept@) == without(all.take(i as int), front@),
    {
        proof {
            lemma_without_push(all.take(i as int), all[i as int], front@);
            assert(all.take(i + 1) =~= all.take(i as int).push(all[i as int]));
        }
        if !fronts[i].same_as(front) {
            let ghost before = kept@;
            kept.push(fronts[i].clone());
            assert(front_views(kept@) =~= front_views(before).push(all[i as int]));
        }
    }
    assert(all.take(fronts@.len() as int) =~= all);
    kept
}

/// Without the addresses equal to `address`.
fn addresses_without(addresses: &Vec<SocketAddr>, address: &SocketAddr) -> (kept: Vec<SocketAddr>)
    ensures
        kept@ == without(addresses@, *address),
{
    let mut kept: Vec<SocketAddr> = Vec::new();
    proof {
        lemma_without_empty(*address);
        assert(addresses@.take(0) =~= Seq::empty());
    }
    for i in 0..addresses.len()
        invariant
            kept@ == without(addresses@.take(i as int), *address),
    {
        proof {
            lemma_without_push(addresses@.take(i as int), addresses@[i as int], *address);
            assert(addresses@.take(i + 1) =~= addresses@.take(i as int).push(addresses@[i as int]));
        }
        if addresses[i] != *address {
            kept.push(addresses[i]);
        }
    }
    assert(addresses@.take(addresses@.len() as int) =~= addresses@);
    kept
}

/// The views of a list of fronts.
pub open spec fn front_views(fronts: Seq<HttpFront>) -> Seq<HttpFrontView> {
    fronts.map_values(|front: HttpFront| front@)
}

impl View for ServerConfiguration {
    type V = Routing;

    closed spec fn view(&self) -> Routing {
        Routing {
            fronts: self.fronts@.map_values(|fronts: Vec<HttpFront>| front_views(fronts@)),
            instances: self.instances@.map_values(|addresses: Vec<SocketAddr>| addresses@),
            listeners: Seq::new(self.count(), |i: int| filled_slots(self.listeners)[i as usize]),
            max_listeners: self.max_listeners as nat,
        }
    }
}

impl ServerConfiguration {
    closed spec fn count(&self) -> nat {
        (self.max_listeners - vacant_slots(self.listeners).len()) as nat
    }

    /// The listeners fill the slots from 0 on, and each knows its own token.
    pub closed spec fn wf(&self) -> bool {
        let n = self.count();
        &&& vacant_slots(self.listeners).len() <= self.max_listeners
        &&& forall|i: int|
            0 <= i < vacant_slots(self.listeners).len() ==> (#[trigger] vacant_slots(
                self.listeners,
            )[i]) == n + i
        &&& forall|slot: usize| #[trigger]
            filled_slots(self.listeners).contains_key(slot) <==> slot < n
        &&& forall|slot: usize|
            slot < n ==> (#[trigger] filled_slots(self.listeners)[slot]).token == Some(Token(slot))
    }

    /// Each listener knows its token, which is its position, and there are no
    /// more of them than were allowed, nor than there are tokens.
    pub proof fn tokens_are_positions(&self)
        requires
            self.wf(),
        ensures
            self@.listeners.len() <= self@.max_listeners,
            self@.max_listeners <= usize::MAX,
            forall|i: int|
                0 <= i < self@.listeners.len() ==> (#[trigger] self@.listeners[i]).token == Some(
                    Token(i as usize),
                ),
    {
    }

    /// A configuration without fronts and instances, with room for
    /// `max_listeners` listeners.
    pub fn new(max_listeners: usize) -> (server: ServerConfiguration)
        requires
            slab_fits(max_listeners),
        ensures
            server.wf(),
            server@ == Routing::initial(max_listeners as nat),
    {
        let server = ServerConfiguration {
            instances: StringHashMap::new(),
            listeners: Listeners::with_slots(max_listeners),
            fronts: StringHashMap::new(),
            max_listeners,
        };
        assert(server@ =~= Routing::initial(max_listeners as nat));
        server
    }

    /// Adds the listener on 127.0.0.1 and the given port, if it could be bound
    /// and there is room for it. Its token is the number of listeners before.
    pub fn add_tcp_front(&mut self, port: u16, app_id: &str, bound: bool) -> (token: Option<Token>)
        requires
            old(self).wf(),
        ensures
            final(self).wf(),
            (final(self)@, token) == old(self)@.after_bind(port, bound),
            bound && old(self)@.has_vacancy() ==> {
                &&& token == Some(Token(old(self)@.listeners.len() as usize))
                &&& final(self)@ == old(self)@.with_listener(port)
            },
            !(bound && old(self)@.has_vacancy()) ==> token is None && final(self)@ == old(self)@,
    {
        if !bound {
            return None;
        }
        let listener = ApplicationListener {
            token: None,
            front_address: SocketAddr::loopback(port),
        };
        match self.listeners.insert(listener) {
            Ok(token) => {
                self.listeners.at(token).token = Some(token);
                assert(self@ =~= old(self)@.with_listener(port));
                Some(token)
            },
            Err(_) => {
                assert(self@ =~= old(self)@);
                None
            },
        }
    }

    /// The listeners, in the order of their tokens.
    pub fn listeners(&self) -> (listeners: Vec<ApplicationListener>)
        requires
            self.wf(),
        ensures
            listeners@ == self@.listeners,
    {
        let items = self.listeners.iter();
        proof {
            let filled = filled_slots(self.listeners);
            let slots = choose|slots: Seq<usize>| #[trigger]
                in_slot_order(slots, filled) && items@ == slots.map_values(
                    |slot: usize| filled[slot],
                );
            lemma_first_slots_in_order(slots, filled, self.count());
            assert(items@ =~= self@.listeners);
        }
        items
    }

    /// Whether some listener has the port.
    fn listens_on(&self, port: u16) -> (listens: bool)
        requires
            self.wf(),
        ensures
            listens == self@.listens_on(port),
            listens <==> exists|i: int|
                0 <= i < self@.listeners.len() && match (
                #[trigger] self@.listeners[i]).front_address {
                    SocketAddr::V4 { port: p, .. } => p == port,
                    SocketAddr::V6 { port: p, .. } => p == port,
                },
    {
        let listeners = self.listeners();
        for i in 0..listeners.len()
            invariant
                listeners@ == self@.listeners,
                forall|j: int|
                    0 <= j < i ==> (#[trigger] self@.listeners[j]).front_address.port_number()
                        != port,
        {
            if listeners[i].front_address.port() == port {
                assert(self@.listeners[i as int].front_address.port_number() == port);
                return true;
            }
        }
        false
    }

    /// Adds a front behind those of its hostname. The result is the port on
    /// which a listener has to be bound, unless there is one already.
    pub fn add_http_front(&mut self, http_front: HttpFront) -> (listen: Option<u16>)
        requires
            old(self).wf(),
        ensures
            final(self).wf(),
            final(self)@ == old(self)@.with_front(http_front@),
            listen is None || listen == Some(http_front.port),
            listen is None <==> exists|i: int|
                0 <= i < old(self)@.listeners.len() && match (
                #[trigger] old(self)@.listeners[i]).front_address {
                    SocketAddr::V4 { port, .. } => port == http_front.port,
                    SocketAddr::V6 { port, .. } => port == http_front.port,
                },
            listen == (if old(self)@.listens_on(http_front.port) {
                None
            } else {
                Some(http_front.port)
            }),
    {
        let port = http_front.port;
        let ghost front = http_front@;
        let hostname = http_front.hostname.clone();
        let mut fronts: Vec<HttpFront> = match self.fronts.get(hostname.as_str()) {
            Some(known) => known.clone(),
            None => Vec::new(),
        };
        assert(front_views(fronts@) =~= old(self)@.fronts_of(front.hostname));
        let ghost before = fronts@;
        fronts.push(http_front);
        assert(front_views(fronts@) =~= front_views(before).push(front));
        self.fronts.insert(hostname, fronts);
        assert(self@ =~= old(self)@.with_front(front));
        if self.listens_on(port) {
            None
        } else {
            Some(port)
        }
    }

    /// Removes the fronts that agree with `front` in every field.
    pub fn remove_http_front(&mut self, front: HttpFront)
        requires
            old(self).wf(),
        ensures
            final(self).wf(),
            final(self)@ == old(self)@.without_front(front@),
            old(self)@.fronts.contains_key(front.hostname@) ==> forall|other: HttpFrontView|
                final(self)@.fronts[front.hostname@].contains(other) <==> old(
                    self,
                )@.fronts[front.hostname@].contains(other) && other != front@,
    {
        if let Some(known) = self.fronts.get(front.hostname.as_str()) {
            let kept = fronts_without(known, &front);
            self.fronts.insert(front.hostname.clone(), kept);
        }
        assert(self@ =~= old(self)@.without_front(front@));
        proof {
            if old(self)@.fronts.contains_key(front.hostname@) {
                lemma_without_contains(old(self)@.fronts[front.hostname@], front@);
            }
        }
    }

    /// Adds an instance behind those of its application.
    pub fn add_instance(&mut self, app_id: &str, instance_address: &SocketAddr)
        requires
            old(self).wf(),
        ensures
            final(self).wf(),
            final(self)@ == old(self)@.with_instance(app_id@, *instance_address),
    {
        let mut addresses: Vec<SocketAddr> = match self.instances.get(app_id) {
            Some(known) => known.clone(),
            None => Vec::new(),
        };
        assert(addresses@ =~= old(self)@.instances_of(app_id@));
        addresses.push(*instance_address);
        self.instances.insert(app_id.to_owned(), addresses);
        assert(self@ =~= old(self)@.with_instance(app_id@, *instance_address));
    }

    /// Removes the instances of the application at an address.
    pub fn remove_instance(&mut self, app_id: &str, instance_address: &SocketAddr)
        requires
            old(self).wf(),
        ensures
            final(self).wf(),
            final(self)@ == old(self)@.without_instance(app_id@, *instance_address),
            old(self)@.instances.contains_key(app_id@) ==> forall|other: SocketAddr|
                final(self)@.instances[app_id@].contains(other) <==> old(
                    self,
                )@.instances[app_id@].contains(other) && other != *instance_address,
    {
        if let Some(known) = self.instances.get(app_id) {
            let kept = addresses_without(known, instance_address);
            self.instances.insert(app_id.to_owned(), kept);
        }
        assert(self@ =~= old(self)@.without_instance(app_id@, *instance_address));
        proof {
            if old(self)@.instances.contains_key(app_id@) {
                lemma_without_contains(old(self)@.instances[app_id@], *instance_address);
            }
        }
    }

    /// Whether the application has or had an instance.
    pub fn knows_application(&self, app_id: &str) -> (knows: bool)
        requires
            self.wf(),
        ensures
            knows == self@.instances.contains_key(app_id@),
    {
        self.instances.contains_key(app_id)
    }

    /// The instances that may serve a request for `host`.
    fn candidates(&self, host: &str) -> (instances: Option<&Vec<SocketAddr>>)
        requires
            self.wf(),
        ensures
            instances is Some <==> self@.candidates(host@) is Some,
            instances is Some ==> Some(instances->0@) == self@.candidates(host@),
    {
        if let Some(fronts) = self.fronts.get(host) {
            assert(front_views(fronts@) == self@.fronts_of(host@));
            if fronts.len() > 0 {
                return self.instances.get(fronts[0].app_id.as_str());
            }
        }
        None
    }

    /// Whether `host` leads to an application whose instances are all gone.
    pub fn is_stranded(&self, host: &str) -> (stranded: bool)
        requires
            self.wf(),
        ensures
            stranded == self@.is_stranded(host@),
    {
        match self.candidates(host) {
            Some(instances) => {
                assert(instances@.len() == 0 ==> instances@ =~= Seq::empty());
                instances.len() == 0
            },
            None => false,
        }
    }

    /// The instance that serves a request for `host`: the one at `choice`,
    /// counted round the instances of the application.
    pub fn backend_by_choice(&self, host: &str, uri: &str, choice: usize) -> (backend: Option<
        SocketAddr,
    >)
        requires
            self.wf(),
            !self@.is_stranded(host@),
        ensures
            backend == self@.backend(host@, choice),
    {
        match self.candidates(host) {
            Some(instances) => {
                assert(instances@.len() == 0 ==> instances@ =~= Seq::empty());
                let index: usize = choice % instances.len();
                Some(instances[index])
            },
            None => None,
        }
    }

    /// An instance that serves a request for `host`, chosen at random among
    /// the instances of the application of the oldest front of `host`.
    pub fn backend_from_request(&self, host: &str, uri: &str) -> (backend: Option<SocketAddr>)
        requires
            self.wf(),
            !self@.is_stranded(host@),
        ensures
            exists|choice: usize| backend == #[trigger] self@.backend(host@, choice),
            backend is Some <==> self@.candidates(host@) is Some,
            backend is Some ==> self@.candidates(host@)->0.contains(backend->0),
    {
        let choice: usize = random_usize();
        let backend = self.backend_by_choice(host, uri, choice);
        proof {
            if self@.candidates(host@) is Some {
                let instances = self@.candidates(host@)->0;
                assert(instances.len() == 0 ==> instances =~= Seq::empty());
                assert(instances[choice as int % instances.len() as int] == backend->0);
            }
        }
        backend
    }

    /// Whether the token is that of a listener.
    pub fn has_listener(&self, token: Token) -> (has: bool)
        requires
            self.wf(),
        ensures
            has == (token.0 < self@.listeners.len()),
            has == self@.accepts(token, true),
    {
        if token.0 < self.max_listeners {
            proof {
                if token.0 >= self.count() {
                    let i = token.0 - self.count();
                    assert(vacant_slots(self.listeners)[i] == token.0);
                }
            }
            self.listeners.contains(token)
        } else {
            false
        }
    }

    /// A client for a connection that came in at the listener `token`, if there
    /// is such a listener and the TLS stream to the client is open. The client
    /// does not ask for a backend yet.
    pub fn accept(&self, token: Token, stream_open: bool) -> (accepted: Option<(Client, bool)>)
        requires
            self.wf(),
        ensures
            accepted is Some <==> token.0 < self@.listeners.len() && stream_open,
            accepted is Some <==> self@.accepts(token, stream_open),
            accepted matches Some((client, wants_backend)) ==> {
                &&& client.wf()
                &&& client@ == ClientView::initial()
                &&& !wants_backend
            },
    {
        if self.has_listener(token) && stream_open {
            if let Some(client) = Client::new() {
                return Some((client, false));
            }
        }
        None
    }

    /// The instance to connect for a request, once its host and its request
    /// line are known.
    pub fn connect_to_backend(
        &self,
        host: &Option<String>,
        request_line: &Option<RequestLine>,
    ) -> (backend: Option<SocketAddr>)
        requires
            self.wf(),
            host is Some && request_line is Some ==> !self@.is_stranded(host->0@),
        ensures
            host is None || request_line is None ==> backend is None,
            host is Some && request_line is Some ==> {
                &&& exists|choice: usize| backend == #[trigger] self@.backend(host->0@, choice)
                &&& backend is Some <==> self@.candidates(host->0@) is Some
                &&& backend is Some ==> self@.candidates(host->0@)->0.contains(backend->0)
            },
    {
        match (host, request_line) {
            (Some(host), Some(line)) => self.backend_from_request(host.as_str(), line.uri.as_str()),
            _ => None,
        }
    }

    /// Carries out an order, and says what is left to do. `address` is the
    /// socket address that `address_text` of the order denotes, if any.
    pub fn notify(&mut self, message: HttpProxyOrder, address: Option<SocketAddr>) -> (notified:
        Notified)
        requires
            old(self).wf(),
        ensures
            final(self).wf(),
            final(self)@ == old(self)@.after(message, address),
            notified == old(self)@.answer(message, address),
    {
        let mut notified = Notified { listen: None, reply: None, shutdown: false };
        match message {
            HttpProxyOrder::Command(Command::AddHttpFront(front)) => {
                notified.listen = self.add_http_front(front);
                notified.reply = Some(ServerMessage::AddedFront);
            },
            HttpProxyOrder::Command(Command::RemoveHttpFront(front)) => {
                self.remove_http_front(front);
                notified.reply = Some(ServerMessage::RemovedFront);
            },
            HttpProxyOrder::Command(Command::AddInstance(instance)) => {
                if let Some(address) = address {
                    self.add_instance(instance.app_id.as_str(), &address);
                    notified.reply = Some(ServerMessage::AddedInstance);
                }
            },
            HttpProxyOrder::Command(Command::RemoveInstance(instance)) => {
                if let Some(address) = address {
                    self.remove_instance(instance.app_id.as_str(), &address);
                    notified.reply = Some(ServerMessage::RemovedInstance);
                }
            },
            HttpProxyOrder::Command(Command::Other) => {},
            HttpProxyOrder::Stop => {
                notified.shutdown = true;
            },
        }
        notified
    }
}

} // verus!
