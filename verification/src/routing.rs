//! The routing configuration as mathematical values, how each order changes
//! it, and what follows from that.

use vstd::prelude::*;

use crate::address::SocketAddr;
use crate::events::Token;
use crate::listeners::ApplicationListener;
use crate::messages::{
    Command, HttpFront, HttpFrontView, HttpProxyOrder, Instance, ServerMessage,
};

verus! {

/// The items of `s` that differ from `x`, in order.
pub open spec fn without<T>(s: Seq<T>, x: T) -> Seq<T> {
    s.filter(|item: T| item != x)
}

/// Nothing is left of nothing.
pub proof fn lemma_without_empty<T>(x: T)
    ensures
        without(Seq::empty(), x) == Seq::<T>::empty(),
{
    reveal(Seq::filter);
}

/// The last item stays unless it is `x`.
pub proof fn lemma_without_push<T>(s: Seq<T>, item: T, x: T)
    ensures
        without(s.push(item), x) == if item == x {
            without(s, x)
        } else {
            without(s, x).push(item)
        },
{
    reveal(Seq::filter);
    assert(s.push(item).drop_last() =~= s);
}

/// What a `ServerConfiguration` holds.
#[verifier::ext_equal]
pub struct Routing {
    /// The fronts of each hostname, oldest first.
    pub fronts: Map<Seq<char>, Seq<HttpFrontView>>,
    /// The instances of each application, oldest first.
    pub instances: Map<Seq<char>, Seq<SocketAddr>>,
    /// The listeners; the token of each is its position.
    pub listeners: Seq<ApplicationListener>,
    /// How many listeners there may be.
    pub max_listeners: nat,
}

impl Routing {
    /// A configuration without fronts, instances and listeners.
    pub open spec fn initial(max_listeners: nat) -> Routing {
        Routing {
            fronts: Map::empty(),
            instances: Map::empty(),
            listeners: Seq::empty(),
            max_listeners,
        }
    }

    /// The fronts of a hostname.
    pub open spec fn fronts_of(self, host: Seq<char>) -> Seq<HttpFrontView> {
        if self.fronts.contains_key(host) {
            self.fronts[host]
        } else {
            Seq::empty()
        }
    }

    /// The instances of an application.
    pub open spec fn instances_of(self, app_id: Seq<char>) -> Seq<SocketAddr> {
        if self.instances.contains_key(app_id) {
            self.instances[app_id]
        } else {
            Seq::empty()
        }
    }

    /// Whether some listener has the port.
    pub open spec fn listens_on(self, port: u16) -> bool {
        exists|i: int|
            0 <= i < self.listeners.len() && (#[trigger] self.listeners[i]).front_address.port_number()
                == port
    }

    /// Whether another listener can be added.
    pub open spec fn has_vacancy(self) -> bool {
        self.listeners.len() < self.max_listeners
    }

    /// With one more front, behind those of its hostname.
    pub open spec fn with_front(self, front: HttpFrontView) -> Routing {
        Routing {
            fronts: self.fronts.insert(front.hostname, self.fronts_of(front.hostname).push(front)),
            ..self
        }
    }

    /// Without the fronts that agree with `front` in every field. A hostname
    /// stays known when its last front goes.
    pub open spec fn without_front(self, front: HttpFrontView) -> Routing {
        if self.fronts.contains_key(front.hostname) {
            Routing {
                fronts: self.fronts.insert(
                    front.hostname,
                    without(self.fronts[front.hostname], front),
                ),
                ..self
            }
        } else {
            self
        }
    }

    /// With one more instance, behind those of its application.
    pub open spec fn with_instance(self, app_id: Seq<char>, address: SocketAddr) -> Routing {
        Routing {
            instances: self.instances.insert(app_id, self.instances_of(app_id).push(address)),
            ..self
        }
    }

    /// Without the instances of the application at `address`. An application
    /// stays known when its last instance goes.
    pub open spec fn without_instance(self, app_id: Seq<char>, address: SocketAddr) -> Routing {
        if self.instances.contains_key(app_id) {
            Routing {
                instances: self.instances.insert(
                    app_id,
                    without(self.instances[app_id], address),
                ),
                ..self
            }
        } else {
            self
        }
    }

    /// With one more listener, on 127.0.0.1 and the given port.
    pub open spec fn with_listener(self, port: u16) -> Routing {
        Routing {
            listeners: self.listeners.push(
                ApplicationListener {
                    token: Some(Token(self.listeners.len() as usize)),
                    front_address: SocketAddr::on_loopback(port),
                },
            ),
            ..self
        }
    }

    /// After an attempt to listen on a port, and the token of the listener that
    /// came of it: none if the port could not be bound or there was no room.
    pub open spec fn after_bind(self, port: u16, bound: bool) -> (Routing, Option<Token>) {
        if bound && self.has_vacancy() {
            (self.with_listener(port), Some(Token(self.listeners.len() as usize)))
        } else {
            (self, None)
        }
    }

    /// Whether a connection that comes in under a token is accepted.
    pub open spec fn accepts(self, token: Token, stream_open: bool) -> bool {
        token.0 < self.listeners.len() && stream_open
    }

    /// The instances that may serve a request for `host`: those of the
    /// application of the oldest front of `host`.
    pub open spec fn candidates(self, host: Seq<char>) -> Option<Seq<SocketAddr>> {
        if self.fronts_of(host).len() > 0 && self.instances.contains_key(
            self.fronts_of(host)[0].app_id,
        ) {
            Some(self.instances[self.fronts_of(host)[0].app_id])
        } else {
            None
        }
    }

    /// Whether `host` leads to an application whose instances are all gone.
    pub open spec fn is_stranded(self, host: Seq<char>) -> bool {
        self.candidates(host) == Some(Seq::<SocketAddr>::empty())
    }

    /// The instance that serves a request for `host`, chosen by a number.
    pub open spec fn backend(self, host: Seq<char>, choice: usize) -> Option<SocketAddr> {
        match self.candidates(host) {
            Some(instances) => Some(instances[choice as int % instances.len() as int]),
            None => None,
        }
    }

    /// After an order. `address` is the socket address of the instance that
    /// the order adds or removes, if its text denotes one.
    pub open spec fn after(self, order: HttpProxyOrder, address: Option<SocketAddr>) -> Routing {
        match order {
            HttpProxyOrder::Command(Command::AddHttpFront(front)) => self.with_front(front@),
            HttpProxyOrder::Command(Command::RemoveHttpFront(front)) => self.without_front(front@),
            HttpProxyOrder::Command(Command::AddInstance(instance)) => match address {
                Some(address) => self.with_instance(instance.app_id@, address),
                None => self,
            },
            HttpProxyOrder::Command(Command::RemoveInstance(instance)) => match address {
                Some(address) => self.without_instance(instance.app_id@, address),
                None => self,
            },
            _ => self,
        }
    }

    /// What is left to do after an order.
    pub open spec fn answer(self, order: HttpProxyOrder, address: Option<SocketAddr>) -> Notified {
        match order {
            HttpProxyOrder::Command(Command::AddHttpFront(front)) => Notified {
                listen: if self.listens_on(front.port) {
                    None
                } else {
                    Some(front.port)
                },
                reply: Some(ServerMessage::AddedFront),
                shutdown: false,
            },
            HttpProxyOrder::Command(Command::RemoveHttpFront(_)) => Notified {
                listen: None,
                reply: Some(ServerMessage::RemovedFront),
                shutdown: false,
            },
            HttpProxyOrder::Command(Command::AddInstance(_)) => Notified {
                listen: None,
                reply: if address is Some {
                    Some(ServerMessage::AddedInstance)
                } else {
                    None
                },
                shutdown: false,
            },
            HttpProxyOrder::Command(Command::RemoveInstance(_)) => Notified {
                listen: None,
                reply: if address is Some {
                    Some(ServerMessage::RemovedInstance)
                } else {
                    None
                },
                shutdown: false,
            },
            HttpProxyOrder::Command(Command::Other) => Notified {
                listen: None,
                reply: None,
                shutdown: false,
            },
            HttpProxyOrder::Stop => Notified { listen: None, reply: None, shutdown: true },
        }
    }
}

/// What is left to do after an order, in this order: bind a listener on the
/// port `listen` and add it, send `reply`, stop the event loop.
#[derive(Debug, Clone, Copy, PartialEq, Eq, Structural)]
pub struct Notified {
    pub listen: Option<u16>,
    pub reply: Option<ServerMessage>,
    pub shutdown: bool,
}

/// An item that is taken out is gone, and every other item stays.
pub proof fn lemma_without_contains<T>(s: Seq<T>, x: T)
    ensures
        !without(s, x).contains(x),
        forall|item: T| item != x ==> (without(s, x).contains(item) <==> #[trigger] s.contains(item)),
    decreases s.len(),
{
    lemma_without_empty(x);
    if s.len() == 0 {
        assert(s =~= Seq::empty());
    } else {
        let rest = s.drop_last();
        let last = s.last();
        lemma_without_contains(rest, x);
        lemma_without_push(rest, last, x);
        assert(s =~= rest.push(last));
        assert forall|item: T| item != x implies (without(s, x).contains(item)
            <==> #[trigger] s.contains(item)) by {
            lemma_push_contains(rest, last, item);
            lemma_push_contains(without(rest, x), last, item);
        }
        lemma_push_contains(without(rest, x), last, x);
    }
}

proof fn lemma_push_contains<T>(s: Seq<T>, last: T, item: T)
    ensures
        s.push(last).contains(item) <==> s.contains(item) || item == last,
{
    assert(s.push(last)[s.len() as int] == last);
    if s.contains(item) {
        let i = choose|i: int| 0 <= i < s.len() && s[i] == item;
        assert(s.push(last)[i] == item);
    }
}

/// Where `x` does not occur, taking it out changes nothing.
pub proof fn lemma_without_absent<T>(s: Seq<T>, x: T)
    requires
        !s.contains(x),
    ensures
        without(s, x) == s,
    decreases s.len(),
{
    lemma_without_empty(x);
    if s.len() == 0 {
        assert(s =~= Seq::empty());
    } else {
        let rest = s.drop_last();
        assert(s =~= rest.push(s.last()));
        lemma_push_contains(rest, s.last(), x);
        lemma_without_absent(rest, x);
        lemma_without_push(rest, s.last(), x);
    }
}

/// The oldest front of a hostname decides: once there is one, another front,
/// for whichever hostname, changes nothing for requests to it.
pub proof fn oldest_front_decides(routing: Routing, host: Seq<char>, front: HttpFrontView)
    requires
        routing.fronts_of(host).len() > 0,
    ensures
        routing.with_front(front).candidates(host) == routing.candidates(host),
{
}

/// A front and an instance of its application suffice: a request for a hostname
/// that had no front is then served by an instance of that application, and may
/// be served by the new one.
pub proof fn front_and_instance_serve(
    routing: Routing,
    front: HttpFrontView,
    address: SocketAddr,
    choice: usize,
)
    requires
        routing.fronts_of(front.hostname).len() == 0,
    ensures
        ({
            let after = routing.with_front(front).with_instance(front.app_id, address);
            &&& !after.is_stranded(front.hostname)
            &&& after.candidates(front.hostname) == Some(
                routing.instances_of(front.app_id).push(address),
            )
            &&& after.backend(front.hostname, choice) is Some
            &&& after.instances_of(front.app_id).contains(
                after.backend(front.hostname, choice)->0,
            )
        }),
{
    let after = routing.with_front(front).with_instance(front.app_id, address);
    let instances = routing.instances_of(front.app_id).push(address);
    assert(after.fronts_of(front.hostname)[0] == front);
    assert(after.candidates(front.hostname) == Some(instances));
    assert(instances.len() > 0);
    backend_is_an_instance(after, front.hostname, choice);
}

/// A request goes to an instance of the application of the oldest front of its
/// host, or nowhere.
pub proof fn backend_is_an_instance(routing: Routing, host: Seq<char>, choice: usize)
    requires
        !routing.is_stranded(host),
    ensures
        routing.backend(host, choice) is Some <==> routing.candidates(host) is Some,
        routing.backend(host, choice) is Some ==> routing.instances_of(
            routing.fronts_of(host)[0].app_id,
        ).contains(routing.backend(host, choice)->0),
{
    if let Some(instances) = routing.candidates(host) {
        assert(instances.len() == 0 ==> instances =~= Seq::empty());
        let index = choice as int % instances.len() as int;
        assert(0 <= index < instances.len());
        assert(instances[index] == routing.backend(host, choice)->0);
    }
}

/// No instance is left out: for each of them there is a choice that takes it.
pub proof fn every_instance_can_serve(routing: Routing, host: Seq<char>, i: int)
    requires
        routing.candidates(host) is Some,
        0 <= i < routing.candidates(host)->0.len(),
        i <= usize::MAX,
    ensures
        routing.backend(host, i as usize) == Some(routing.candidates(host)->0[i]),
{
    vstd::arithmetic::div_mod::lemma_small_mod(i as nat, routing.candidates(host)->0.len());
}

/// An instance that has been removed does not serve its application any more.
pub proof fn removed_instance_does_not_serve(
    routing: Routing,
    app_id: Seq<char>,
    address: SocketAddr,
    host: Seq<char>,
    choice: usize,
)
    requires
        routing.fronts_of(host).len() > 0,
        routing.fronts_of(host)[0].app_id == app_id,
        !routing.without_instance(app_id, address).is_stranded(host),
    ensures
        routing.without_instance(app_id, address).backend(host, choice) != Some(address),
{
    let after = routing.without_instance(app_id, address);
    backend_is_an_instance(after, host, choice);
    if routing.instances.contains_key(app_id) {
        lemma_without_contains(routing.instances[app_id], address);
    }
}

/// Removing an instance undoes adding it, where the application did not have
/// that instance already; but the application stays known, if only with an
/// empty list.
pub proof fn remove_undoes_add_instance(routing: Routing, app_id: Seq<char>, address: SocketAddr)
    requires
        !routing.instances_of(app_id).contains(address),
    ensures
        ({
            let after = routing.with_instance(app_id, address).without_instance(app_id, address);
            &&& forall|app: Seq<char>| #[trigger]
                after.instances_of(app) == routing.instances_of(app)
            &&& after.instances == routing.instances.insert(app_id, routing.instances_of(app_id))
            &&& after.fronts == routing.fronts
            &&& after.listeners == routing.listeners
        }),
{
    lemma_without_push(routing.instances_of(app_id), address, address);
    lemma_without_absent(routing.instances_of(app_id), address);
}

/// Removing a front undoes adding it, where its hostname did not have that
/// front already; but the hostname stays known, if only with an empty list.
pub proof fn remove_undoes_add_front(routing: Routing, front: HttpFrontView)
    requires
        !routing.fronts_of(front.hostname).contains(front),
    ensures
        ({
            let after = routing.with_front(front).without_front(front);
            &&& forall|host: Seq<char>| #[trigger]
                after.fronts_of(host) == routing.fronts_of(host)
            &&& after.fronts == routing.fronts.insert(
                front.hostname,
                routing.fronts_of(front.hostname),
            )
            &&& forall|host: Seq<char>| #[trigger]
                after.candidates(host) == routing.candidates(host)
            &&& after.instances == routing.instances
            &&& after.listeners == routing.listeners
        }),
{
    lemma_without_push(routing.fronts_of(front.hostname), front, front);
    lemma_without_absent(routing.fronts_of(front.hostname), front);
    let after = routing.with_front(front).without_front(front);
    assert forall|host: Seq<char>| #[trigger] after.candidates(host) == routing.candidates(host) by {
        assert(after.fronts_of(host) == routing.fronts_of(host));
    }
}

/// Removing a second time changes nothing.
pub proof fn removal_is_idempotent(
    routing: Routing,
    front: HttpFrontView,
    app_id: Seq<char>,
    address: SocketAddr,
)
    ensures
        routing.without_front(front).without_front(front) == routing.without_front(front),
        routing.without_instance(app_id, address).without_instance(app_id, address)
            == routing.without_instance(app_id, address),
{
    let once = routing.without_front(front);
    if once.fronts.contains_key(front.hostname) {
        lemma_without_contains(routing.fronts[front.hostname], front);
        lemma_without_absent(once.fronts[front.hostname], front);
        assert(once.without_front(front) =~= once);
    }
    let once = routing.without_instance(app_id, address);
    if once.instances.contains_key(app_id) {
        lemma_without_contains(routing.instances[app_id], address);
        lemma_without_absent(once.instances[app_id], address);
        assert(once.without_instance(app_id, address) =~= once);
    }
}

/// Hostnames do not interfere: adding or removing a front leaves requests for
/// every other hostname as they were.
pub proof fn hostnames_are_independent(routing: Routing, front: HttpFrontView, host: Seq<char>)
    requires
        host != front.hostname,
    ensures
        routing.with_front(front).candidates(host) == routing.candidates(host),
        routing.without_front(front).candidates(host) == routing.candidates(host),
{
}

/// Applications do not interfere: adding or removing an instance leaves
/// requests that lead to another application as they were.
pub proof fn applications_are_independent(
    routing: Routing,
    app_id: Seq<char>,
    address: SocketAddr,
    host: Seq<char>,
)
    requires
        routing.fronts_of(host).len() > 0 ==> routing.fronts_of(host)[0].app_id != app_id,
    ensures
        routing.with_instance(app_id, address).candidates(host) == routing.candidates(host),
        routing.without_instance(app_id, address).candidates(host) == routing.candidates(host),
{
}

/// Whether every front is filed under its own hostname.
pub open spec fn filed_by_hostname(routing: Routing) -> bool {
    forall|host: Seq<char>, i: int|
        0 <= i < routing.fronts_of(host).len() ==> (#[trigger] routing.fronts_of(host)[i]).hostname
            == host
}

/// Every front is filed under its own hostname, at first and after each order.
pub proof fn fronts_stay_filed(
    routing: Routing,
    order: HttpProxyOrder,
    address: Option<SocketAddr>,
    port: u16,
    max_listeners: nat,
)
    ensures
        filed_by_hostname(Routing::initial(max_listeners)),
        filed_by_hostname(routing) ==> filed_by_hostname(routing.after(order, address)),
        filed_by_hostname(routing) ==> filed_by_hostname(routing.with_listener(port)),
{
    if filed_by_hostname(routing) {
        let after = routing.after(order, address);
        assert forall|host: Seq<char>, i: int| 0 <= i < after.fronts_of(host).len() implies (
        #[trigger] after.fronts_of(host)[i]).hostname == host by {
            let item = after.fronts_of(host)[i];
            match order {
                HttpProxyOrder::Command(Command::AddHttpFront(front)) => {
                    if i < routing.fronts_of(host).len() {
                        assert(item == routing.fronts_of(host)[i]);
                    }
                },
                HttpProxyOrder::Command(Command::RemoveHttpFront(front)) => {
                    if host == front@.hostname && routing.fronts.contains_key(host) {
                        let before = routing.fronts[host];
                        lemma_without_contains(before, front@);
                        assert(without(before, front@).contains(item));
                        assert(before.contains(item));
                        let j = choose|j: int| 0 <= j < before.len() && before[j] == item;
                        assert(routing.fronts_of(host)[j].hostname == host);
                    } else {
                        assert(item == routing.fronts_of(host)[i]);
                    }
                },
                _ => {
                    assert(item == routing.fronts_of(host)[i]);
                },
            }
        }
        let after = routing.with_listener(port);
        assert forall|host: Seq<char>, i: int| 0 <= i < after.fronts_of(host).len() implies (
        #[trigger] after.fronts_of(host)[i]).hostname == host by {
            assert(after.fronts_of(host)[i] == routing.fronts_of(host)[i]);
        }
    }
}

/// A front never asks for a second listener: once the listener that it asked
/// for has been added, no front on the same port asks for one.
pub proof fn one_listener_per_port(routing: Routing, front: HttpFront, other: HttpFront)
    requires
        other.port == front.port,
    ensures
        ({
            let order = HttpProxyOrder::Command(Command::AddHttpFront(front));
            let next = HttpProxyOrder::Command(Command::AddHttpFront(other));
            let after = match routing.answer(order, None).listen {
                Some(port) => routing.after(order, None).with_listener(port),
                None => routing.after(order, None),
            };
            &&& after.listens_on(front.port)
            &&& after.answer(next, None).listen is None
        }),
{
    let order = HttpProxyOrder::Command(Command::AddHttpFront(front));
    let added = routing.after(order, None);
    if routing.listens_on(front.port) {
        let i = choose|i: int|
            0 <= i < routing.listeners.len() && (
            #[trigger] routing.listeners[i]).front_address.port_number() == front.port;
        assert(added.listeners[i].front_address.port_number() == front.port);
    } else {
        let after = added.with_listener(front.port);
        assert(after.listeners[added.listeners.len() as int].front_address.port_number()
            == front.port);
    }
}

/// An order is answered exactly when it is carried out: fronts always, an
/// instance when its address is one. Without an answer the configuration stays
/// as it was.
pub proof fn unanswered_order_changes_nothing(
    routing: Routing,
    order: HttpProxyOrder,
    address: Option<SocketAddr>,
)
    ensures
        routing.answer(order, address).reply is None <==> match order {
            HttpProxyOrder::Command(Command::AddHttpFront(_)) => false,
            HttpProxyOrder::Command(Command::RemoveHttpFront(_)) => false,
            HttpProxyOrder::Command(Command::AddInstance(_)) => address is None,
            HttpProxyOrder::Command(Command::RemoveInstance(_)) => address is None,
            HttpProxyOrder::Command(Command::Other) => true,
            HttpProxyOrder::Stop => true,
        },
        routing.answer(order, address).reply is None ==> routing.after(order, address) == routing,
{
}

/// A configuration begins without fronts, instances and listeners.
pub proof fn nothing_is_configured_at_first(max_listeners: nat)
    ensures
        Routing::initial(max_listeners).fronts.dom() == Set::<Seq<char>>::empty(),
        Routing::initial(max_listeners).instances.dom() == Set::<Seq<char>>::empty(),
        Routing::initial(max_listeners).listeners.len() == 0,
        Routing::initial(max_listeners).max_listeners == max_listeners,
{
}

/// The fronts of a hostname and the instances of an application are those that
/// are filed under it, and none where nothing is.
pub proof fn unknown_names_have_nothing(routing: Routing, name: Seq<char>)
    ensures
        routing.fronts.contains_key(name) ==> routing.fronts_of(name) == routing.fronts[name],
        !routing.fronts.contains_key(name) ==> routing.fronts_of(name).len() == 0,
        routing.instances.contains_key(name) ==> routing.instances_of(name)
            == routing.instances[name],
        !routing.instances.contains_key(name) ==> routing.instances_of(name).len() == 0,
{
}

/// Adding a front puts it behind the fronts of its hostname, which all keep
/// their places. Every other hostname keeps its fronts, and instances and
/// listeners stay.
pub proof fn added_front_is_the_last_of_its_hostname(
    routing: Routing,
    front: HttpFrontView,
    host: Seq<char>,
)
    ensures
        ({
            let after = routing.with_front(front);
            let own = front.hostname;
            let count = if routing.fronts.contains_key(own) {
                routing.fronts[own].len() as int
            } else {
                0
            };
            &&& after.fronts.contains_key(own)
            &&& after.fronts[own].len() == count + 1
            &&& after.fronts[own][count] == front
            &&& forall|i: int|
                0 <= i < count ==> #[trigger] after.fronts[own][i] == routing.fronts[own][i]
            &&& host != own ==> {
                &&& after.fronts.contains_key(host) <==> routing.fronts.contains_key(host)
                &&& routing.fronts.contains_key(host) ==> after.fronts[host] == routing.fronts[host]
            }
            &&& after.instances == routing.instances
            &&& after.listeners == routing.listeners
            &&& after.max_listeners == routing.max_listeners
        }),
{
}

/// Adding an instance puts it behind the instances of its application, which
/// all keep their places. Every other application keeps its instances, and
/// fronts and listeners stay.
pub proof fn added_instance_is_the_last_of_its_application(
    routing: Routing,
    app_id: Seq<char>,
    address: SocketAddr,
    app: Seq<char>,
)
    ensures
        ({
            let after = routing.with_instance(app_id, address);
            let count = if routing.instances.contains_key(app_id) {
                routing.instances[app_id].len() as int
            } else {
                0
            };
            &&& after.instances.contains_key(app_id)
            &&& after.instances[app_id].len() == count + 1
            &&& after.instances[app_id][count] == address
            &&& forall|i: int|
                0 <= i < count ==> #[trigger] after.instances[app_id][i]
                    == routing.instances[app_id][i]
            &&& app != app_id ==> {
                &&& after.instances.contains_key(app) <==> routing.instances.contains_key(app)
                &&& routing.instances.contains_key(app) ==> after.instances[app]
                    == routing.instances[app]
            }
            &&& after.fronts == routing.fronts
            &&& after.listeners == routing.listeners
            &&& after.max_listeners == routing.max_listeners
        }),
{
}

/// Removing a front takes out every front of its hostname that agrees with it,
/// and no other. Names stay known, every other hostname keeps its fronts, and
/// instances and listeners stay.
pub proof fn removing_a_front_takes_out_no_other(
    routing: Routing,
    front: HttpFrontView,
    other: HttpFrontView,
    host: Seq<char>,
)
    ensures
        ({
            let after = routing.without_front(front);
            let own = front.hostname;
            &&& after.fronts.contains_key(host) <==> routing.fronts.contains_key(host)
            &&& host != own && routing.fronts.contains_key(host) ==> after.fronts[host]
                == routing.fronts[host]
            &&& routing.fronts.contains_key(own) ==> {
                &&& !after.fronts[own].contains(front)
                &&& other != front ==> (after.fronts[own].contains(other)
                    <==> routing.fronts[own].contains(other))
            }
            &&& after.instances == routing.instances
            &&& after.listeners == routing.listeners
            &&& after.max_listeners == routing.max_listeners
        }),
{
    if routing.fronts.contains_key(front.hostname) {
        lemma_without_contains(routing.fronts[front.hostname], front);
    }
}

/// Removing an instance takes it out of its application, and no other. Names
/// stay known, every other application keeps its instances, and fronts and
/// listeners stay.
pub proof fn removing_an_instance_takes_out_no_other(
    routing: Routing,
    app_id: Seq<char>,
    address: SocketAddr,
    other: SocketAddr,
    app: Seq<char>,
)
    ensures
        ({
            let after = routing.without_instance(app_id, address);
            &&& after.instances.contains_key(app) <==> routing.instances.contains_key(app)
            &&& app != app_id && routing.instances.contains_key(app) ==> after.instances[app]
                == routing.instances[app]
            &&& routing.instances.contains_key(app_id) ==> {
                &&& !after.instances[app_id].contains(address)
                &&& other != address ==> (after.instances[app_id].contains(other)
                    <==> routing.instances[app_id].contains(other))
            }
            &&& after.fronts == routing.fronts
            &&& after.listeners == routing.listeners
            &&& after.max_listeners == routing.max_listeners
        }),
{
    if routing.instances.contains_key(app_id) {
        lemma_without_contains(routing.instances[app_id], address);
    }
}

/// What is not removed keeps its place and its number: a front that is added
/// before another is removed stands where it stands if it is added afterwards,
/// and leaves no trace if it is the one that is removed. So with an instance.
pub proof fn removal_keeps_order_and_number(
    routing: Routing,
    front: HttpFrontView,
    other: HttpFrontView,
    app_id: Seq<char>,
    address: SocketAddr,
    other_address: SocketAddr,
)
    requires
        other.hostname == front.hostname,
    ensures
        other != front ==> routing.with_front(other).without_front(front).fronts[front.hostname]
            == routing.without_front(front).with_front(other).fronts[front.hostname],
        routing.fronts.contains_key(front.hostname) ==> routing.with_front(front).without_front(
            front,
        ).fronts[front.hostname] == routing.without_front(front).fronts[front.hostname],
        !routing.fronts.contains_key(front.hostname) ==> routing.with_front(front).without_front(
            front,
        ).fronts[front.hostname].len() == 0,
        other_address != address ==> routing.with_instance(app_id, other_address).without_instance(
            app_id,
            address,
        ).instances[app_id] == routing.without_instance(app_id, address).with_instance(
            app_id,
            other_address,
        ).instances[app_id],
        routing.instances.contains_key(app_id) ==> routing.with_instance(
            app_id,
            address,
        ).without_instance(app_id, address).instances[app_id] == routing.without_instance(
            app_id,
            address,
        ).instances[app_id],
        !routing.instances.contains_key(app_id) ==> routing.with_instance(
            app_id,
            address,
        ).without_instance(app_id, address).instances[app_id].len() == 0,
{
    let fronts = routing.fronts_of(front.hostname);
    lemma_without_empty(front);
    lemma_without_push(fronts, other, front);
    lemma_without_push(fronts, front, front);
    let instances = routing.instances_of(app_id);
    lemma_without_empty(address);
    lemma_without_push(instances, other_address, address);
    lemma_without_push(instances, address, address);
}

/// The order to add a front: its hostname has that front last, with all its
/// fields, and the earlier ones before it; nothing else changes.
pub proof fn add_front_order_adds_that_front(
    routing: Routing,
    front: HttpFront,
    address: Option<SocketAddr>,
    host: Seq<char>,
    other: HttpFrontView,
)
    ensures
        ({
            let after = routing.after(
                HttpProxyOrder::Command(Command::AddHttpFront(front)),
                address,
            );
            let own = front.hostname@;
            let known = routing.fronts.contains_key(own);
            let added = after.fronts[own].last();
            &&& after.fronts.contains_key(own)
            &&& added.app_id == front.app_id@
            &&& added.hostname == front.hostname@
            &&& added.path_begin == front.path_begin@
            &&& added.port == front.port
            &&& known ==> after.fronts[own].drop_last() == routing.fronts[own]
            &&& !known ==> after.fronts[own].len() == 1
            &&& after.fronts[own].contains(other) <==> other == added || (known
                && routing.fronts[own].contains(other))
            &&& host != own ==> {
                &&& after.fronts.contains_key(host) <==> routing.fronts.contains_key(host)
                &&& routing.fronts.contains_key(host) ==> after.fronts[host] == routing.fronts[host]
            }
            &&& after.instances == routing.instances
            &&& after.listeners == routing.listeners
            &&& after.max_listeners == routing.max_listeners
        }),
{
    let after = routing.after(HttpProxyOrder::Command(Command::AddHttpFront(front)), address);
    let before = routing.fronts_of(front.hostname@);
    lemma_push_contains(before, front@, other);
    assert(after.fronts[front.hostname@].drop_last() =~= before);
    assert(after.fronts[front.hostname@] =~= before.push(front@));
}

/// The order to remove a front: its hostname loses the fronts that agree with it
/// in every field and keeps every other; nothing else changes.
pub proof fn remove_front_order_removes_that_front(
    routing: Routing,
    front: HttpFront,
    address: Option<SocketAddr>,
    host: Seq<char>,
    other: HttpFrontView,
)
    ensures
        ({
            let after = routing.after(
                HttpProxyOrder::Command(Command::RemoveHttpFront(front)),
                address,
            );
            let own = front.hostname@;
            let agrees = other.app_id == front.app_id@ && other.hostname == front.hostname@
                && other.path_begin == front.path_begin@ && other.port == front.port;
            &&& after.fronts.contains_key(host) <==> routing.fronts.contains_key(host)
            &&& host != own && routing.fronts.contains_key(host) ==> after.fronts[host]
                == routing.fronts[host]
            &&& routing.fronts.contains_key(own) ==> (after.fronts[own].contains(other)
                <==> routing.fronts[own].contains(other) && !agrees)
            &&& after == routing.without_front(front@)
            &&& after.instances == routing.instances
            &&& after.listeners == routing.listeners
            &&& after.max_listeners == routing.max_listeners
        }),
{
    removing_a_front_takes_out_no_other(routing, front@, other, host);
}

/// The order to add an instance: where its text denotes an address, its
/// application has that address last and the earlier ones before it; nothing
/// else changes. Where it denotes none, nothing changes at all.
pub proof fn add_instance_order_adds_that_instance(
    routing: Routing,
    instance: Instance,
    address: SocketAddr,
    other: SocketAddr,
    app: Seq<char>,
)
    ensures
        ({
            let order = HttpProxyOrder::Command(Command::AddInstance(instance));
            let after = routing.after(order, Some(address));
            let own = instance.app_id@;
            let known = routing.instances.contains_key(own);
            &&& routing.after(order, None) == routing
            &&& after.instances.contains_key(own)
            &&& after.instances[own].last() == address
            &&& known ==> after.instances[own].drop_last() == routing.instances[own]
            &&& !known ==> after.instances[own].len() == 1
            &&& after.instances[own].contains(other) <==> other == address || (known
                && routing.instances[own].contains(other))
            &&& app != own ==> {
                &&& after.instances.contains_key(app) <==> routing.instances.contains_key(app)
                &&& routing.instances.contains_key(app) ==> after.instances[app]
                    == routing.instances[app]
            }
            &&& after.fronts == routing.fronts
            &&& after.listeners == routing.listeners
            &&& after.max_listeners == routing.max_listeners
        }),
{
    let order = HttpProxyOrder::Command(Command::AddInstance(instance));
    let after = routing.after(order, Some(address));
    let before = routing.instances_of(instance.app_id@);
    lemma_push_contains(before, address, other);
    assert(after.instances[instance.app_id@].drop_last() =~= before);
    assert(after.instances[instance.app_id@] =~= before.push(address));
}

/// The order to remove an instance: where its text denotes an address, every
/// other address is an instance of that application exactly if it was one
/// before, and that address is none; nothing else changes. Where it denotes
/// none, nothing changes at all.
pub proof fn remove_instance_order_removes_that_instance(
    routing: Routing,
    instance: Instance,
    address: SocketAddr,
    other: SocketAddr,
    app: Seq<char>,
)
    ensures
        ({
            let order = HttpProxyOrder::Command(Command::RemoveInstance(instance));
            let after = routing.after(order, Some(address));
            let own = instance.app_id@;
            &&& routing.after(order, None) == routing
            &&& after.instances.contains_key(app) <==> routing.instances.contains_key(app)
            &&& app != own && routing.instances.contains_key(app) ==> after.instances[app]
                == routing.instances[app]
            &&& routing.instances.contains_key(own) ==> (after.instances[own].contains(other)
                <==> routing.instances[own].contains(other) && other != address)
            &&& after == routing.without_instance(own, address)
            &&& after.fronts == routing.fronts
            &&& after.listeners == routing.listeners
            &&& after.max_listeners == routing.max_listeners
        }),
{
    removing_an_instance_takes_out_no_other(routing, instance.app_id@, address, other, app);
}

/// The order to stop, and a command for another kind of proxy, change nothing.
pub proof fn other_orders_change_nothing(routing: Routing, address: Option<SocketAddr>)
    ensures
        routing.after(HttpProxyOrder::Stop, address) == routing,
        routing.after(HttpProxyOrder::Command(Command::Other), address) == routing,
{
}

/// Each order has its own answer: what was added or removed, and only where it
/// was. Only the order to stop stops the event loop, and only an added front
/// can ask for a listener.
pub proof fn each_order_has_its_answer(
    routing: Routing,
    front: HttpFront,
    instance: Instance,
    address: SocketAddr,
    any: Option<SocketAddr>,
)
    ensures
        ({
            let answer = routing.answer(
                HttpProxyOrder::Command(Command::AddHttpFront(front)),
                any,
            );
            answer.reply == Some(ServerMessage::AddedFront) && !answer.shutdown
        }),
        routing.answer(HttpProxyOrder::Command(Command::RemoveHttpFront(front)), any) == (Notified {
            listen: None,
            reply: Some(ServerMessage::RemovedFront),
            shutdown: false,
        }),
        routing.answer(HttpProxyOrder::Command(Command::AddInstance(instance)), Some(address)) == (
        Notified { listen: None, reply: Some(ServerMessage::AddedInstance), shutdown: false }),
        routing.answer(HttpProxyOrder::Command(Command::RemoveInstance(instance)), Some(address))
            == (Notified {
            listen: None,
            reply: Some(ServerMessage::RemovedInstance),
            shutdown: false,
        }),
        routing.answer(HttpProxyOrder::Command(Command::AddInstance(instance)), None) == (Notified {
            listen: None,
            reply: None,
            shutdown: false,
        }),
        routing.answer(HttpProxyOrder::Command(Command::RemoveInstance(instance)), None) == (
        Notified { listen: None, reply: None, shutdown: false }),
        routing.answer(HttpProxyOrder::Command(Command::Other), any) == (Notified {
            listen: None,
            reply: None,
            shutdown: false,
        }),
        routing.answer(HttpProxyOrder::Stop, any) == (Notified {
            listen: None,
            reply: None,
            shutdown: true,
        }),
{
}

/// A front asks for a listener on its own port, and asks for none exactly where
/// the address of some listener has that very port already.
pub proof fn front_asks_where_nothing_has_its_port(
    routing: Routing,
    front: HttpFront,
    address: Option<SocketAddr>,
)
    ensures
        ({
            let listen = routing.answer(
                HttpProxyOrder::Command(Command::AddHttpFront(front)),
                address,
            ).listen;
            &&& listen is None || listen == Some(front.port)
            &&& listen is None <==> exists|i: int|
                0 <= i < routing.listeners.len() && match (
                #[trigger] routing.listeners[i]).front_address {
                    SocketAddr::V4 { port, .. } => port == front.port,
                    SocketAddr::V6 { port, .. } => port == front.port,
                }
            &&& routing.listens_on(front.port) <==> listen is None
        }),
{
    if routing.listens_on(front.port) {
        let i = choose|i: int|
            0 <= i < routing.listeners.len() && (
            #[trigger] routing.listeners[i]).front_address.port_number() == front.port;
        assert(match routing.listeners[i].front_address {
            SocketAddr::V4 { port, .. } => port == front.port,
            SocketAddr::V6 { port, .. } => port == front.port,
        });
    }
}

/// After a front has been added, and the listener that it asked for, if any,
/// the address of some listener has exactly the port of the front.
pub proof fn added_front_is_listened_to(
    routing: Routing,
    front: HttpFront,
    address: Option<SocketAddr>,
    after: Routing,
)
    requires
        ({
            let order = HttpProxyOrder::Command(Command::AddHttpFront(front));
            let added = routing.after(order, address);
            match routing.answer(order, address).listen {
                Some(port) => after == added.with_listener(port),
                None => after == added,
            }
        }),
    ensures
        exists|i: int|
            0 <= i < after.listeners.len() && match (#[trigger] after.listeners[i]).front_address {
                SocketAddr::V4 { port, .. } => port == front.port,
                SocketAddr::V6 { port, .. } => port == front.port,
            },
{
    let order = HttpProxyOrder::Command(Command::AddHttpFront(front));
    front_asks_where_nothing_has_its_port(routing, front, address);
    match routing.answer(order, address).listen {
        Some(port) => {
            assert(after.listeners[routing.listeners.len() as int].front_address
                == SocketAddr::on_loopback(port));
        },
        None => {
            let i = choose|i: int|
                0 <= i < routing.listeners.len() && match (
                #[trigger] routing.listeners[i]).front_address {
                    SocketAddr::V4 { port, .. } => port == front.port,
                    SocketAddr::V6 { port, .. } => port == front.port,
                };
            assert(after.listeners[i] == routing.listeners[i]);
        },
    }
}

/// A listener that is added stands behind the others, on 127.0.0.1 and the port
/// that was asked for, with the number of the others as its token. The others
/// stay as they are, and so do fronts and instances. There is room for one as
/// long as there are fewer than allowed.
pub proof fn added_listener_is_the_last(routing: Routing, port: u16)
    ensures
        ({
            let after = routing.with_listener(port);
            let count = routing.listeners.len() as int;
            &&& after.listeners.len() == count + 1
            &&& after.listeners[count].front_address == (SocketAddr::V4 { ip: 0x7f00_0001, port })
            &&& after.listeners[count].token == Some(Token(count as usize))
            &&& forall|i: int|
                0 <= i < count ==> #[trigger] after.listeners[i] == routing.listeners[i]
            &&& after.fronts == routing.fronts
            &&& after.instances == routing.instances
            &&& after.max_listeners == routing.max_listeners
        }),
        routing.has_vacancy() <==> routing.listeners.len() < routing.max_listeners,
{
}

/// A request for a host goes to the instances of the application of its first
/// front: to the one at the choice, counted round them. It goes nowhere where
/// the host has no front, or that application was never given an instance. A
/// host is stranded where the application has no instance any more.
pub proof fn request_goes_to_the_first_fronts_application(
    routing: Routing,
    host: Seq<char>,
    choice: usize,
)
    ensures
        ({
            let has_front = routing.fronts.contains_key(host) && routing.fronts[host].len() > 0;
            let app_id = routing.fronts[host][0].app_id;
            let served = has_front && routing.instances.contains_key(app_id);
            let instances = routing.instances[app_id];
            &&& routing.candidates(host) is Some <==> served
            &&& served ==> routing.candidates(host)->0 == instances
            &&& routing.is_stranded(host) <==> served && instances.len() == 0
            &&& routing.backend(host, choice) is Some <==> served
            &&& served && instances.len() > 0 ==> {
                &&& 0 <= choice as int % instances.len() as int
                &&& (choice as int % instances.len() as int) < instances.len()
                &&& routing.backend(host, choice) == Some(
                    instances[choice as int % instances.len() as int],
                )
            }
        }),
{
    let app_id = routing.fronts[host][0].app_id;
    let instances = routing.instances[app_id];
    assert(instances.len() == 0 ==> instances =~= Seq::empty());
}

/// Listening on a port: where it was bound and there is room, there is one more
/// listener, on that very port, under the token that is handed out; otherwise
/// there is no token and nothing changes. There are never more listeners than
/// allowed.
pub proof fn listening_takes_a_bound_port_and_room(routing: Routing, port: u16, bound: bool)
    requires
        routing.listeners.len() <= routing.max_listeners,
    ensures
        ({
            let (after, token) = routing.after_bind(port, bound);
            let count = routing.listeners.len() as int;
            &&& token is Some <==> bound && count < routing.max_listeners
            &&& token is None ==> after == routing
            &&& token is Some ==> {
                &&& token == Some(Token(count as usize))
                &&& after.listeners.len() == count + 1
                &&& after.listeners[count].token == token
                &&& after.listeners[count].front_address == (SocketAddr::V4 {
                    ip: 0x7f00_0001,
                    port,
                })
                &&& after.listeners.drop_last() == routing.listeners
            }
            &&& after.listeners.len() <= after.max_listeners
            &&& after.max_listeners == routing.max_listeners
            &&& after.fronts == routing.fronts
            &&& after.instances == routing.instances
        }),
{
    let (after, token) = routing.after_bind(port, bound);
    if token is Some {
        assert(after.listeners.drop_last() =~= routing.listeners);
    }
}

/// Connections are accepted exactly under the tokens of the listeners, and only
/// with an open stream.
pub proof fn connections_come_in_at_listeners(routing: Routing, token: Token, stream_open: bool)
    requires
        forall|i: int|
            0 <= i < routing.listeners.len() ==> (#[trigger] routing.listeners[i]).token == Some(
                Token(i as usize),
            ),
        routing.listeners.len() <= usize::MAX,
    ensures
        routing.accepts(token, stream_open) <==> stream_open && exists|i: int|
            0 <= i < routing.listeners.len() && (#[trigger] routing.listeners[i]).token == Some(
                token,
            ),
{
    if token.0 < routing.listeners.len() {
        assert(routing.listeners[token.0 as int].token == Some(token));
    }
}

} // verus!
