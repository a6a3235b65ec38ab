//! Orders to the proxy, and what it answers.

use vstd::prelude::*;

use crate::text::{host_and_port, socket_text};

verus! {

/// A front: requests for `hostname` go to the application `app_id`.
#[derive(Debug, PartialEq, Eq, Hash)]
pub struct HttpFront {
    pub app_id: String,
    pub hostname: String,
    pub path_begin: String,
    pub port: u16,
}

/// An `HttpFront` as mathematical values.
pub struct HttpFrontView {
    pub app_id: Seq<char>,
    pub hostname: Seq<char>,
    pub path_begin: Seq<char>,
    pub port: u16,
}

impl View for HttpFront {
    type V = HttpFrontView;

    open spec fn view(&self) -> HttpFrontView {
        HttpFrontView {
            app_id: self.app_id@,
            hostname: self.hostname@,
            path_begin: self.path_begin@,
            port: self.port,
        }
    }
}

impl Clone for HttpFront {
    fn clone(&self) -> (copy: HttpFront)
        ensures
            copy == *self,
    {
        HttpFront {
            app_id: self.app_id.clone(),
            hostname: self.hostname.clone(),
            path_begin: self.path_begin.clone(),
            port: self.port,
        }
    }
}

impl HttpFront {
    /// Whether all four fields agree.
    pub fn same_as(&self, other: &HttpFront) -> (same: bool)
        ensures
            same == (self@ == other@),
            same == (self.app_id@ == other.app_id@ && self.hostname@ == other.hostname@
                && self.path_begin@ == other.path_begin@ && self.port == other.port),
    {
        self.app_id == other.app_id && self.hostname == other.hostname && self.path_begin
            == other.path_begin && self.port == other.port
    }
}

/// An instance of the application `app_id`, reachable at `ip_address:port`.
#[derive(Debug, PartialEq, Eq, Hash)]
pub struct Instance {
    pub app_id: String,
    pub ip_address: String,
    pub port: u16,
}

/// A change of the routing configuration.
#[derive(Debug, PartialEq, Eq, Hash)]
pub enum Command {
    AddHttpFront(HttpFront),
    RemoveHttpFront(HttpFront),
    AddInstance(Instance),
    RemoveInstance(Instance),
    /// A command for another kind of proxy.
    Other,
}

/// An order to the proxy.
#[derive(Debug)]
pub enum HttpProxyOrder {
    Command(Command),
    Stop,
}

/// What the proxy reports about the orders it has carried out.
#[derive(Debug, Clone, Copy, PartialEq, Eq, Hash, Structural)]
pub enum ServerMessage {
    AddedFront,
    RemovedFront,
    AddedInstance,
    RemovedInstance,
    Stopped,
}

/// What becomes of a client after an event.
#[derive(Debug, Clone, Copy, PartialEq, Eq, Hash, Structural)]
pub enum ClientResult {
    Continue,
    CloseClient,
}

impl HttpProxyOrder {
    /// The instance that the order adds or removes.
    pub open spec fn instance(self) -> Option<Instance> {
        match self {
            HttpProxyOrder::Command(Command::AddInstance(instance)) => Some(instance),
            HttpProxyOrder::Command(Command::RemoveInstance(instance)) => Some(instance),
            _ => None,
        }
    }

    /// The text `ip_address:port` of the instance that the order adds or
    /// removes. The socket address that it denotes is needed to carry out the
    /// order.
    pub fn address_text(&self) -> (text: Option<String>)
        ensures
            text is Some <==> self.instance() is Some,
            text is Some ==> text->0@ == host_and_port(
                self.instance()->0.ip_address@,
                self.instance()->0.port,
            ),
            (self matches HttpProxyOrder::Command(Command::AddInstance(instance)) ==> {
                &&& text is Some
                &&& text->0@ == host_and_port(instance.ip_address@, instance.port)
            }),
            (self matches HttpProxyOrder::Command(Command::RemoveInstance(instance)) ==> {
                &&& text is Some
                &&& text->0@ == host_and_port(instance.ip_address@, instance.port)
            }),
    {
        match self {
            HttpProxyOrder::Command(Command::AddInstance(instance)) => Some(
                socket_text(&instance.ip_address, instance.port),
            ),
            HttpProxyOrder::Command(Command::RemoveInstance(instance)) => Some(
                socket_text(&instance.ip_address, instance.port),
            ),
            _ => None,
        }
    }
}

/// Two fronts are the same exactly when they agree in all four fields, and each
/// field is seen as it is.
pub proof fn fronts_are_their_fields(front: HttpFront, other: HttpFront)
    ensures
        front@.app_id == front.app_id@,
        front@.hostname == front.hostname@,
        front@.path_begin == front.path_begin@,
        front@.port == front.port,
        front@ == other@ <==> {
            &&& front.app_id@ == other.app_id@
            &&& front.hostname@ == other.hostname@
            &&& front.path_begin@ == other.path_begin@
            &&& front.port == other.port
        },
{
}

/// The orders that add or remove an instance speak of that instance, and no
/// other order speaks of one.
pub proof fn orders_name_their_instance(instance: Instance, front: HttpFront)
    ensures
        HttpProxyOrder::Command(Command::AddInstance(instance)).instance() == Some(instance),
        HttpProxyOrder::Command(Command::RemoveInstance(instance)).instance() == Some(instance),
        HttpProxyOrder::Command(Command::AddHttpFront(front)).instance() is None,
        HttpProxyOrder::Command(Command::RemoveHttpFront(front)).instance() is None,
        HttpProxyOrder::Command(Command::Other).instance() is None,
        HttpProxyOrder::Stop.instance() is None,
{
}

} // verus!
