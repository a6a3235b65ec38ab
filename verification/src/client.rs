//! A connection between a client and a backend.
//!
//! The sockets belong to the caller. On an event the caller makes the read or
//! the write, hands over its outcome, and carries out the step that comes back.

use vstd::prelude::*;
use vstd::slice::slice_subrange;

use crate::buffer::{Buffer, BufferView};
use crate::events::{EventSet, PollOpt, Registration, Token};
use crate::messages::ClientResult;

verus! {

/// Which sides of the connection are open.
#[derive(Debug, Clone, Copy, PartialEq, Eq, Structural)]
pub enum ConnectionStatus {
    Initial,
    ClientConnected,
    Connected,
    ClientClosed,
    ServerClosed,
    Closed,
}

impl ConnectionStatus {
    /// After the client has hung up.
    pub open spec fn after_front_hup(self) -> ConnectionStatus {
        if self == ConnectionStatus::ServerClosed || self == ConnectionStatus::ClientConnected {
            ConnectionStatus::Closed
        } else {
            ConnectionStatus::ClientClosed
        }
    }

    /// After the backend has hung up.
    pub open spec fn after_back_hup(self) -> ConnectionStatus {
        if self == ConnectionStatus::ClientClosed {
            ConnectionStatus::Closed
        } else {
            ConnectionStatus::ServerClosed
        }
    }

    /// A client is closed once both sides are.
    pub open spec fn hup_result(self) -> ClientResult {
        if self == ConnectionStatus::Closed {
            ClientResult::CloseClient
        } else {
            ClientResult::Continue
        }
    }
}

/// The first line of a request.
#[derive(Debug, PartialEq, Eq)]
pub struct RequestLine {
    pub method: String,
    pub uri: String,
    pub version: String,
}

/// A `RequestLine` as mathematical values.
pub struct RequestLineView {
    pub method: Seq<char>,
    pub uri: Seq<char>,
    pub version: Seq<char>,
}

impl View for RequestLine {
    type V = RequestLineView;

    open spec fn view(&self) -> RequestLineView {
        RequestLineView { method: self.method@, uri: self.uri@, version: self.version@ }
    }
}

/// How far a message has come.
#[derive(Debug, PartialEq, Eq)]
pub enum HttpState {
    Initial,
    /// Under way; how far is known to the parser.
    Parsing,
    /// Forwarded to the backend for this request line and host.
    Proxying(RequestLine, String),
}

/// An `HttpState` as mathematical values.
pub enum HttpStateView {
    Initial,
    Parsing,
    Proxying(RequestLineView, Seq<char>),
}

impl View for HttpState {
    type V = HttpStateView;

    open spec fn view(&self) -> HttpStateView {
        match self {
            HttpState::Initial => HttpStateView::Initial,
            HttpState::Parsing => HttpStateView::Parsing,
            HttpState::Proxying(line, host) => HttpStateView::Proxying(line@, host@),
        }
    }
}

/// A request and its response, and how many bytes of each are parsed.
#[derive(Debug, PartialEq, Eq)]
pub struct RequestState {
    pub req_position: usize,
    pub res_position: usize,
    pub request: HttpState,
    pub response: HttpState,
}

/// A `RequestState` as mathematical values.
pub struct RequestStateView {
    pub req_position: usize,
    pub res_position: usize,
    pub request: HttpStateView,
    pub response: HttpStateView,
}

impl View for RequestState {
    type V = RequestStateView;

    open spec fn view(&self) -> RequestStateView {
        RequestStateView {
            req_position: self.req_position,
            res_position: self.res_position,
            request: self.request@,
            response: self.response@,
        }
    }
}

/// What is known of the request, and the bytes of it that wait for the backend.
#[derive(Debug)]
pub struct HttpProxy {
    pub state: RequestState,
    pub should_copy: Option<usize>,
    pub front_buf: Buffer,
}

/// An `HttpProxy` as mathematical values.
#[verifier::ext_equal]
pub struct HttpProxyView {
    pub state: RequestStateView,
    pub should_copy: Option<usize>,
    pub front_buf: BufferView,
}

impl View for HttpProxy {
    type V = HttpProxyView;

    open spec fn view(&self) -> HttpProxyView {
        HttpProxyView {
            state: self.state@,
            should_copy: self.should_copy,
            front_buf: self.front_buf@,
        }
    }
}

/// How many bytes wait at most in either direction.
pub const BUFFER_CAPACITY: usize = 12000;

/// A connection. `backend` says whether there is a socket to the backend.
#[derive(Debug)]
pub struct Client {
    pub backend: bool,
    pub http_state: HttpProxy,
    pub back_buf: Buffer,
    pub token: Option<Token>,
    pub backend_token: Option<Token>,
    pub back_interest: EventSet,
    pub front_interest: EventSet,
    pub status: ConnectionStatus,
    pub rx_count: usize,
    pub tx_count: usize,
}

/// A `Client` as mathematical values.
#[verifier::ext_equal]
pub struct ClientView {
    pub backend: bool,
    pub http_state: HttpProxyView,
    pub back_buf: BufferView,
    pub token: Option<Token>,
    pub backend_token: Option<Token>,
    pub back_interest: EventSet,
    pub front_interest: EventSet,
    pub status: ConnectionStatus,
    pub rx_count: usize,
    pub tx_count: usize,
}

impl View for Client {
    type V = ClientView;

    open spec fn view(&self) -> ClientView {
        ClientView {
            backend: self.backend,
            http_state: self.http_state@,
            back_buf: self.back_buf@,
            token: self.token,
            backend_token: self.backend_token,
            back_interest: self.back_interest,
            front_interest: self.front_interest,
            status: self.status,
            rx_count: self.rx_count,
            tx_count: self.tx_count,
        }
    }
}

/// The registrations to make after an event.
#[derive(Debug, Clone, Copy, PartialEq, Eq, Structural)]
pub struct Registrations {
    pub front: Option<Registration>,
    pub back: Option<Registration>,
}

/// What to do after an event.
#[derive(Debug, Clone, Copy, PartialEq, Eq, Structural)]
pub struct Step {
    pub registrations: Registrations,
    pub result: ClientResult,
}

/// The outcome of a write to the client.
#[derive(Debug, Clone, Copy, PartialEq, Eq, Structural)]
pub enum FrontWrite {
    Wrote(usize),
    WantRead,
    WantWrite,
    Failed,
}

/// The outcome of a read from the client.
#[derive(Debug, PartialEq, Eq)]
pub enum FrontRead {
    Read(Vec<u8>),
    WantRead,
    WantWrite,
    Failed,
}

/// The outcome of a write to the backend.
#[derive(Debug, Clone, Copy, PartialEq, Eq, Structural)]
pub enum BackWrite {
    Wrote(usize),
    Failed,
}

/// The outcome of a read from the backend.
#[derive(Debug, PartialEq, Eq)]
pub enum BackRead {
    Read(Vec<u8>),
    Failed,
}

/// What to do after a read from the client. Without a `result`, the HTTP parser
/// has new bytes to look at, and what it says is the result.
#[derive(Debug, Clone, Copy, PartialEq, Eq, Structural)]
pub struct ReadStep {
    pub registrations: Registrations,
    pub result: Option<ClientResult>,
}

/// What to do after a write to the backend: where `forwarded` is a number, the
/// HTTP parser is to be told that so many bytes have gone.
#[derive(Debug, Clone, Copy, PartialEq, Eq, Structural)]
pub struct ForwardStep {
    pub forwarded: Option<usize>,
    pub step: Step,
}

/// Reading and writing.
pub open spec fn both_ways() -> EventSet {
    EventSet { readable: true, writable: true, error: false, hup: false }
}

/// The registration of one side of a connection.
pub open spec fn side_registration(token: Token, interest: EventSet) -> Registration {
    Registration {
        token,
        interest,
        opts: PollOpt { edge: true, level: false, oneshot: true },
    }
}

/// No registration at all.
pub open spec fn no_registrations() -> Registrations {
    Registrations { front: None, back: None }
}

impl ClientView {
    pub open spec fn initial() -> ClientView {
        ClientView {
            backend: false,
            http_state: HttpProxyView {
                state: RequestStateView {
                    req_position: 0,
                    res_position: 0,
                    request: HttpStateView::Initial,
                    response: HttpStateView::Initial,
                },
                should_copy: None,
                front_buf: BufferView::empty(BUFFER_CAPACITY as nat),
            },
            back_buf: BufferView::empty(BUFFER_CAPACITY as nat),
            token: None,
            backend_token: None,
            back_interest: EventSet { readable: true, writable: true, error: true, hup: true },
            front_interest: EventSet { readable: true, writable: true, error: true, hup: true },
            status: ConnectionStatus::Initial,
            rx_count: 0,
            tx_count: 0,
        }
    }

    /// Both sides wait for reading and for writing, besides what they waited for.
    pub open spec fn rearmed(self) -> ClientView {
        ClientView {
            front_interest: self.front_interest.union(both_ways()),
            back_interest: self.back_interest.union(both_ways()),
            ..self
        }
    }

    /// The sides that are known to the event loop: the front once it has a
    /// token, the back once it has a token and a socket.
    pub open spec fn registrations(self) -> Registrations {
        Registrations {
            front: match self.token {
                Some(token) => Some(side_registration(token, self.front_interest)),
                None => None,
            },
            back: match self.backend_token {
                Some(token) => if self.backend {
                    Some(side_registration(token, self.back_interest))
                } else {
                    None
                },
                None => None,
            },
        }
    }

    /// The connection goes on: register both sides anew.
    pub open spec fn go_on(self) -> Step {
        Step { registrations: self.rearmed().registrations(), result: ClientResult::Continue }
    }

    /// After `count` bytes of the response have been written to the client.
    pub open spec fn after_write(self, count: usize) -> ClientView {
        ClientView {
            back_buf: self.back_buf.consumed(count as int),
            tx_count: (self.tx_count + count) as usize,
            ..self
        }
    }

    /// After bytes of the request have been read from the client.
    pub open spec fn after_read(self, bytes: Seq<u8>) -> ClientView {
        ClientView {
            http_state: HttpProxyView {
                front_buf: self.http_state.front_buf.filled(bytes),
                ..self.http_state
            },
            ..self
        }
    }

    /// After bytes of the response have been read from the backend.
    pub open spec fn after_back_read(self, bytes: Seq<u8>) -> ClientView {
        ClientView { back_buf: self.back_buf.filled(bytes), ..self }
    }

    /// What comes of the event that the client can be written to: the connection
    /// after it, and what to do.
    pub open spec fn on_writable(self, written: FrontWrite) -> (ClientView, Step) {
        let nothing = no_registrations();
        if self.back_buf.data.len() == 0 {
            (self, Step { registrations: nothing, result: ClientResult::Continue })
        } else {
            match written {
                FrontWrite::Wrote(count) => (self.after_write(count).rearmed(), self.go_on()),
                FrontWrite::WantRead | FrontWrite::WantWrite => (self.rearmed(), self.go_on()),
                FrontWrite::Failed => (
                    self,
                    Step { registrations: nothing, result: ClientResult::CloseClient },
                ),
            }
        }
    }

    /// What comes of the event that the client can be read from.
    pub open spec fn on_readable(self, received: FrontRead) -> (ClientView, ReadStep) {
        let registrations = self.rearmed().registrations();
        match received {
            FrontRead::Read(bytes) => (
                self.after_read(bytes@).rearmed(),
                ReadStep {
                    registrations,
                    result: if bytes@.len() == 0 {
                        Some(ClientResult::Continue)
                    } else {
                        None
                    },
                },
            ),
            FrontRead::WantRead | FrontRead::WantWrite => (
                self.rearmed(),
                ReadStep { registrations, result: Some(ClientResult::Continue) },
            ),
            FrontRead::Failed => (
                self,
                ReadStep {
                    registrations: no_registrations(),
                    result: Some(ClientResult::CloseClient),
                },
            ),
        }
    }

    /// What comes of the event that the backend can be written to.
    pub open spec fn on_back_writable(self, written: BackWrite) -> (ClientView, ForwardStep) {
        let forwarded = match written {
            BackWrite::Wrote(count) => if self.backend && count > 0 {
                Some(count)
            } else {
                None
            },
            BackWrite::Failed => None,
        };
        (self.rearmed(), ForwardStep { forwarded, step: self.go_on() })
    }

    /// What comes of the event that the backend can be read from.
    pub open spec fn on_back_readable(self, received: BackRead) -> (ClientView, Step) {
        let after = match received {
            BackRead::Read(bytes) => if self.backend {
                self.after_back_read(bytes@)
            } else {
                self
            },
            BackRead::Failed => self,
        };
        (after.rearmed(), self.go_on())
    }

    /// After the backend for a request has been connected.
    pub open spec fn after_connect(self, line: RequestLineView, host: Seq<char>) -> ClientView {
        ClientView {
            http_state: HttpProxyView {
                state: RequestStateView {
                    req_position: self.http_state.state.req_position,
                    res_position: 0,
                    request: HttpStateView::Proxying(line, host),
                    response: HttpStateView::Initial,
                },
                ..self.http_state
            },
            status: ConnectionStatus::Connected,
            ..self
        }
    }
}

impl Client {
    /// Both buffers keep to their capacity.
    pub open spec fn wf(&self) -> bool {
        self.http_state.front_buf.wf() && self.back_buf.wf()
    }

    /// A connection that has just been accepted.
    pub fn new() -> (client: Option<Client>)
        ensures
            client is Some,
            client->0.wf(),
            client->0@ == ClientView::initial(),
    {
        Some(
            Client {
                backend: false,
                http_state: HttpProxy {
                    state: RequestState {
                        req_position: 0,
                        res_position: 0,
                        request: HttpState::Initial,
                        response: HttpState::Initial,
                    },
                    should_copy: None,
                    front_buf: Buffer::with_capacity(BUFFER_CAPACITY),
                },
                back_buf: Buffer::with_capacity(BUFFER_CAPACITY),
                token: None,
                backend_token: None,
                back_interest: EventSet::all(),
                front_interest: EventSet::all(),
                status: ConnectionStatus::Initial,
                rx_count: 0,
                tx_count: 0,
            },
        )
    }

    /// The tokens of both sides, once both are known.
    pub fn tokens(&self) -> (tokens: Option<(Token, Token)>)
        ensures
            tokens == match (self@.token, self@.backend_token) {
                (Some(front), Some(back)) => Some((front, back)),
                _ => None,
            },
    {
        if let Some(front) = self.token {
            if let Some(back) = self.backend_token {
                return Some((front, back));
            }
        }
        None
    }

    /// Both sides wait for reading and for writing; says how to register them.
    pub fn reregister(&mut self) -> (registrations: Registrations)
        requires
            old(self).wf(),
        ensures
            final(self).wf(),
            final(self)@ == old(self)@.rearmed(),
            registrations == old(self)@.rearmed().registrations(),
    {
        self.front_interest.insert(EventSet::readable());
        self.front_interest.insert(EventSet::writable());
        self.back_interest.insert(EventSet::writable());
        self.back_interest.insert(EventSet::readable());
        let opts = PollOpt { edge: true, level: false, oneshot: true };
        let front = match self.token {
            Some(token) => Some(Registration { token, interest: self.front_interest, opts }),
            None => None,
        };
        let back = match self.backend_token {
            Some(token) => if self.backend {
                Some(Registration { token, interest: self.back_interest, opts })
            } else {
                None
            },
            None => None,
        };
        Registrations { front, back }
    }

    /// The client has hung up.
    pub fn front_hup(&mut self) -> (result: ClientResult)
        requires
            old(self).wf(),
        ensures
            final(self).wf(),
            final(self)@ == (ClientView { status: old(self)@.status.after_front_hup(), ..old(self)@ }),
            result == final(self)@.status.hup_result(),
    {
        if self.status == ConnectionStatus::ServerClosed || self.status
            == ConnectionStatus::ClientConnected {
            self.status = ConnectionStatus::Closed;
            ClientResult::CloseClient
        } else {
            self.status = ConnectionStatus::ClientClosed;
            ClientResult::Continue
        }
    }

    /// The backend has hung up.
    pub fn back_hup(&mut self) -> (result: ClientResult)
        requires
            old(self).wf(),
        ensures
            final(self).wf(),
            final(self)@ == (ClientView { status: old(self)@.status.after_back_hup(), ..old(self)@ }),
            result == final(self)@.status.hup_result(),
    {
        if self.status == ConnectionStatus::ClientClosed {
            self.status = ConnectionStatus::Closed;
            ClientResult::CloseClient
        } else {
            self.status = ConnectionStatus::ServerClosed;
            ClientResult::Continue
        }
    }

    /// The bytes to write to the client, if any wait.
    pub fn response_to_forward(&self) -> (bytes: Option<&[u8]>)
        ensures
            bytes is Some <==> self@.back_buf.data.len() > 0,
            bytes is Some ==> bytes->0@ == self@.back_buf.data,
    {
        if self.back_buf.available_data() == 0 {
            None
        } else {
            Some(self.back_buf.data())
        }
    }

    /// The client can be written to, and the write of `response_to_forward` has
    /// come to `written`. Without anything to write, nothing happens.
    pub fn writable(&mut self, written: FrontWrite) -> (step: Step)
        requires
            old(self).wf(),
            written matches FrontWrite::Wrote(count) ==> {
                &&& count <= old(self)@.back_buf.data.len()
                &&& old(self)@.tx_count + count <= usize::MAX
            },
        ensures
            final(self).wf(),
            (final(self)@, step) == old(self)@.on_writable(written),
            old(self).back_buf@.data.len() > 0 && written is Wrote ==> {
                &&& final(self).back_buf@.data == old(self).back_buf@.data.skip(written->0 as int)
                &&& final(self).tx_count == old(self).tx_count + written->0
            },
            old(self).back_buf@.data.len() == 0 || !(written is Wrote) ==> {
                &&& final(self).back_buf@.data == old(self).back_buf@.data
                &&& final(self).tx_count == old(self).tx_count
            },
            final(self).http_state@ == old(self).http_state@,
            ({
                let before = old(self)@;
                if before.back_buf.data.len() == 0 {
                    &&& final(self)@ == before
                    &&& step == (Step {
                        registrations: no_registrations(),
                        result: ClientResult::Continue,
                    })
                } else {
                    match written {
                        FrontWrite::Wrote(count) => {
                            &&& final(self)@ == before.after_write(count).rearmed()
                            &&& step == before.go_on()
                        },
                        FrontWrite::WantRead | FrontWrite::WantWrite => {
                            &&& final(self)@ == before.rearmed()
                            &&& step == before.go_on()
                        },
                        FrontWrite::Failed => {
                            &&& final(self)@ == before
                            &&& step == (Step {
                                registrations: no_registrations(),
                                result: ClientResult::CloseClient,
                            })
                        },
                    }
                }
            }),
    {
        if self.back_buf.available_data() == 0 {
            return Step {
                registrations: Registrations { front: None, back: None },
                result: ClientResult::Continue,
            };
        }
        match written {
            FrontWrite::Wrote(count) => {
                self.back_buf.consume(count);
                self.tx_count = self.tx_count + count;
            },
            FrontWrite::WantRead | FrontWrite::WantWrite => {},
            FrontWrite::Failed => {
                return Step {
                    registrations: Registrations { front: None, back: None },
                    result: ClientResult::CloseClient,
                };
            },
        }
        let registrations = self.reregister();
        Step { registrations, result: ClientResult::Continue }
    }

    /// How many bytes can be read from the client.
    pub fn front_space(&self) -> (count: usize)
        requires
            self.wf(),
        ensures
            count == self@.http_state.front_buf.space(),
    {
        self.http_state.front_buf.available_space()
    }

    /// The client can be read from, and a read of at most `front_space` bytes
    /// has come to `received`.
    pub fn readable(&mut self, received: FrontRead) -> (step: ReadStep)
        requires
            old(self).wf(),
            received matches FrontRead::Read(bytes) ==> bytes@.len()
                <= old(self)@.http_state.front_buf.space(),
        ensures
            final(self).wf(),
            (final(self)@, step) == old(self)@.on_readable(received),
            final(self).http_state.front_buf@.data == (match received {
                FrontRead::Read(bytes) => old(self).http_state.front_buf@.data + bytes@,
                _ => old(self).http_state.front_buf@.data,
            }),
            final(self).back_buf@ == old(self).back_buf@,
            ({
                let before = old(self)@;
                match received {
                    FrontRead::Read(bytes) => {
                        &&& final(self)@ == before.after_read(bytes@).rearmed()
                        &&& step == (ReadStep {
                            registrations: before.rearmed().registrations(),
                            result: if bytes@.len() == 0 {
                                Some(ClientResult::Continue)
                            } else {
                                None
                            },
                        })
                    },
                    FrontRead::WantRead | FrontRead::WantWrite => {
                        &&& final(self)@ == before.rearmed()
                        &&& step == (ReadStep {
                            registrations: before.rearmed().registrations(),
                            result: Some(ClientResult::Continue),
                        })
                    },
                    FrontRead::Failed => {
                        &&& final(self)@ == before
                        &&& step == (ReadStep {
                            registrations: no_registrations(),
                            result: Some(ClientResult::CloseClient),
                        })
                    },
                }
            }),
    {
        let mut result = Some(ClientResult::Continue);
        match received {
            FrontRead::Read(bytes) => {
                if bytes.len() > 0 {
                    self.http_state.front_buf.fill(bytes);
                    result = None;
                } else {
                    assert(self.http_state.front_buf@.data + bytes@
                        =~= self.http_state.front_buf@.data);
                }
            },
            FrontRead::WantRead | FrontRead::WantWrite => {},
            FrontRead::Failed => {
                return ReadStep {
                    registrations: Registrations { front: None, back: None },
                    result: Some(ClientResult::CloseClient),
                };
            },
        }
        let registrations = self.reregister();
        ReadStep { registrations, result }
    }

    /// The bytes to write to the backend, if there is one: the oldest `to_copy`
    /// bytes of the request.
    pub fn request_to_forward(&self, to_copy: usize) -> (bytes: Option<&[u8]>)
        requires
            self@.backend ==> to_copy <= self@.http_state.front_buf.data.len(),
        ensures
            bytes is Some <==> self@.backend,
            bytes is Some ==> bytes->0@ == self@.http_state.front_buf.data.take(to_copy as int),
    {
        if self.backend {
            Some(slice_subrange(self.http_state.front_buf.data(), 0, to_copy))
        } else {
            None
        }
    }

    /// The backend can be written to, and the write of `request_to_forward` has
    /// come to `written`. Without a backend there was no write.
    pub fn back_writable(&mut self, written: BackWrite) -> (step: ForwardStep)
        requires
            old(self).wf(),
        ensures
            final(self).wf(),
            (final(self)@, step) == old(self)@.on_back_writable(written),
            final(self)@ == old(self)@.rearmed(),
            step == (ForwardStep {
                forwarded: match written {
                    BackWrite::Wrote(count) => if old(self)@.backend && count > 0 {
                        Some(count)
                    } else {
                        None
                    },
                    BackWrite::Failed => None,
                },
                step: old(self)@.go_on(),
            }),
    {
        let mut forwarded: Option<usize> = None;
        if self.backend {
            if let BackWrite::Wrote(count) = written {
                if count > 0 {
                    forwarded = Some(count);
                }
            }
        }
        let registrations = self.reregister();
        ForwardStep {
            forwarded,
            step: Step { registrations, result: ClientResult::Continue },
        }
    }

    /// How many bytes can be read from the backend.
    pub fn back_space(&self) -> (count: usize)
        requires
            self.wf(),
        ensures
            count == self@.back_buf.space(),
    {
        self.back_buf.available_space()
    }

    /// The backend can be read from, and a read of at most `back_space` bytes
    /// has come to `received`. Without a backend there was no read.
    pub fn back_readable(&mut self, received: BackRead) -> (step: Step)
        requires
            old(self).wf(),
            received matches BackRead::Read(bytes) ==> bytes@.len() <= old(self)@.back_buf.space(),
        ensures
            final(self).wf(),
            (final(self)@, step) == old(self)@.on_back_readable(received),
            old(self).backend && received is Read ==> final(self).back_buf@.data
                == old(self).back_buf@.data + received->0@,
            !old(self).backend || !(received is Read) ==> final(self).back_buf@.data
                == old(self).back_buf@.data,
            final(self).http_state@ == old(self).http_state@,
            final(self)@ == (match received {
                BackRead::Read(bytes) => if old(self)@.backend {
                    old(self)@.after_back_read(bytes@).rearmed()
                } else {
                    old(self)@.rearmed()
                },
                BackRead::Failed => old(self)@.rearmed(),
            }),
            step == old(self)@.go_on(),
    {
        if self.backend {
            if let BackRead::Read(bytes) = received {
                self.back_buf.fill(bytes);
            }
        }
        let registrations = self.reregister();
        Step { registrations, result: ClientResult::Continue }
    }

    /// The backend for the request has been connected: from here on the request
    /// is forwarded, and its response begins anew.
    pub fn connected(&mut self, request_line: RequestLine, host: String)
        requires
            old(self).wf(),
        ensures
            final(self).wf(),
            final(self).http_state.front_buf@ == old(self).http_state.front_buf@,
            final(self).http_state.should_copy == old(self).http_state.should_copy,
            final(self).back_buf@ == old(self).back_buf@,
            final(self).status == ConnectionStatus::Connected,
            final(self)@ == old(self)@.after_connect(request_line@, host@),
    {
        self.http_state.state = RequestState {
            req_position: self.http_state.state.req_position,
            res_position: 0,
            request: HttpState::Proxying(request_line, host),
            response: HttpState::Initial,
        };
        self.status = ConnectionStatus::Connected;
    }

    pub fn front_token(&self) -> (token: Option<Token>)
        ensures
            token == self@.token,
    {
        self.token
    }

    pub fn back_token(&self) -> (token: Option<Token>)
        ensures
            token == self@.backend_token,
    {
        self.backend_token
    }

    /// There is now a socket to the backend.
    pub fn set_back_socket(&mut self)
        requires
            old(self).wf(),
        ensures
            final(self).wf(),
            final(self)@ == (ClientView { backend: true, ..old(self)@ }),
    {
        self.backend = true;
    }

    pub fn set_front_token(&mut self, token: Token)
        requires
            old(self).wf(),
        ensures
            final(self).wf(),
            final(self)@ == (ClientView { token: Some(token), ..old(self)@ }),
    {
        self.token = Some(token);
    }

    pub fn set_back_token(&mut self, token: Token)
        requires
            old(self).wf(),
        ensures
            final(self).wf(),
            final(self)@ == (ClientView { backend_token: Some(token), ..old(self)@ }),
    {
        self.backend_token = Some(token);
    }

    pub fn set_tokens(&mut self, token: Token, backend: Token)
        requires
            old(self).wf(),
        ensures
            final(self).wf(),
            final(self)@ == (ClientView {
                token: Some(token),
                backend_token: Some(backend),
                ..old(self)@
            }),
    {
        self.token = Some(token);
        self.backend_token = Some(backend);
    }

    /// Closing a connection takes no more than dropping it.
    pub fn close(&self) {
    }
}

/// A connection whose two sides have both hung up is closed, whatever its status
/// and whichever side was first.
pub proof fn both_hups_close(status: ConnectionStatus)
    ensures
        status.after_front_hup().hup_result() == ClientResult::CloseClient
            || status.after_front_hup().after_back_hup().hup_result() == ClientResult::CloseClient,
        status.after_back_hup().hup_result() == ClientResult::CloseClient
            || status.after_back_hup().after_front_hup().hup_result() == ClientResult::CloseClient,
{
}

/// One side alone closes a connection only where the other has hung up before,
/// or where the client leaves before the backend has ever been connected.
pub proof fn one_hup_closes_half_open(status: ConnectionStatus)
    ensures
        status.after_front_hup().hup_result() == ClientResult::CloseClient <==> status
            == ConnectionStatus::ServerClosed || status == ConnectionStatus::ClientConnected,
        status.after_back_hup().hup_result() == ClientResult::CloseClient <==> status
            == ConnectionStatus::ClientClosed,
{
}

/// Bytes of the response reach the client in the order in which the backend
/// sent them, and none is lost: what was received is always what was sent
/// followed by what waits. The client's count of sent bytes keeps up with them,
/// as far as it can hold their number.
pub proof fn response_is_relayed_in_order(
    client: ClientView,
    received: Seq<u8>,
    sent: Seq<u8>,
    bytes: Seq<u8>,
    count: usize,
)
    requires
        received == sent + client.back_buf.data,
        count <= client.back_buf.data.len(),
    ensures
        received + bytes == sent + client.after_back_read(bytes).rearmed().back_buf.data,
        received == (sent + client.back_buf.data.take(count as int)) + client.after_write(
            count,
        ).rearmed().back_buf.data,
        client.tx_count == sent.len() && sent.len() + count <= usize::MAX ==> client.after_write(
            count,
        ).rearmed().tx_count == (sent + client.back_buf.data.take(count as int)).len(),
        client.after_back_read(bytes).rearmed().tx_count == client.tx_count,
{
    assert(received + bytes =~= sent + client.after_back_read(bytes).back_buf.data);
    assert(received =~= (sent + client.back_buf.data.take(count as int)) + client.after_write(
        count,
    ).back_buf.data);
}

/// Registering anew leaves both sides waiting for reading and for writing, and
/// doing so twice is doing so once.
pub proof fn registering_anew_is_idempotent(client: ClientView)
    ensures
        client.rearmed().front_interest.readable && client.rearmed().front_interest.writable,
        client.rearmed().back_interest.readable && client.rearmed().back_interest.writable,
        client.rearmed().rearmed() == client.rearmed(),
{
}

/// Bytes of the request are relayed in the order in which the client sent them,
/// and none is lost: a read puts its bytes behind those that wait, so what was
/// received is always what was forwarded followed by what waits. The rest of
/// the connection is as it was.
pub proof fn request_is_relayed_in_order(
    client: ClientView,
    received: Seq<u8>,
    forwarded: Seq<u8>,
    bytes: Seq<u8>,
)
    requires
        received == forwarded + client.http_state.front_buf.data,
    ensures
        ({
            let after = client.after_read(bytes);
            &&& after.http_state.front_buf.data == client.http_state.front_buf.data + bytes
            &&& received + bytes == forwarded + after.rearmed().http_state.front_buf.data
            &&& after.http_state.front_buf.capacity == client.http_state.front_buf.capacity
            &&& after.http_state.state == client.http_state.state
            &&& after.http_state.should_copy == client.http_state.should_copy
            &&& after.back_buf == client.back_buf
            &&& after.backend == client.backend
            &&& after.token == client.token
            &&& after.backend_token == client.backend_token
            &&& after.back_interest == client.back_interest
            &&& after.front_interest == client.front_interest
            &&& after.status == client.status
            &&& after.rx_count == client.rx_count
            &&& after.tx_count == client.tx_count
        }),
{
    assert(received + bytes =~= forwarded + client.after_read(bytes).http_state.front_buf.data);
}

/// Connecting the backend loses no byte: what waits for the backend and what
/// waits for the client stay as they are, and so does what may be copied. The
/// request goes on where it was, for the line and the host that were asked for,
/// and the response begins.
pub proof fn connecting_keeps_what_waits(
    client: ClientView,
    line: RequestLineView,
    host: Seq<char>,
)
    ensures
        ({
            let after = client.after_connect(line, host);
            &&& after.http_state.front_buf.data == client.http_state.front_buf.data
            &&& after.http_state.front_buf.capacity == client.http_state.front_buf.capacity
            &&& after.http_state.should_copy == client.http_state.should_copy
            &&& after.back_buf.data == client.back_buf.data
            &&& after.back_buf.capacity == client.back_buf.capacity
            &&& after.http_state.state.req_position == client.http_state.state.req_position
            &&& after.http_state.state.res_position == 0
            &&& after.http_state.state.request == HttpStateView::Proxying(line, host)
            &&& after.http_state.state.response == HttpStateView::Initial
            &&& after.status == ConnectionStatus::Connected
            &&& after.backend == client.backend
            &&& after.token == client.token
            &&& after.backend_token == client.backend_token
            &&& after.back_interest == client.back_interest
            &&& after.front_interest == client.front_interest
            &&& after.rx_count == client.rx_count
            &&& after.tx_count == client.tx_count
        }),
{
}

/// A write to the client takes the written bytes from the front of what waits
/// and counts them; it touches nothing else.
pub proof fn writing_takes_what_was_written(client: ClientView, count: usize)
    requires
        count <= client.back_buf.data.len(),
        client.tx_count + count <= usize::MAX,
    ensures
        ({
            let after = client.after_write(count);
            &&& client.back_buf.data.take(count as int) + after.back_buf.data
                == client.back_buf.data
            &&& after.back_buf.capacity == client.back_buf.capacity
            &&& after.tx_count == client.tx_count + count
            &&& after.rx_count == client.rx_count
            &&& after.http_state == client.http_state
            &&& after.backend == client.backend
            &&& after.token == client.token
            &&& after.backend_token == client.backend_token
            &&& after.back_interest == client.back_interest
            &&& after.front_interest == client.front_interest
            &&& after.status == client.status
        }),
{
    assert(client.back_buf.data.take(count as int) + client.after_write(count).back_buf.data
        =~= client.back_buf.data);
}

/// A read from the backend puts its bytes behind those that wait for the client;
/// it touches nothing else.
pub proof fn reading_the_response_adds_to_what_waits(client: ClientView, bytes: Seq<u8>)
    ensures
        ({
            let after = client.after_back_read(bytes);
            &&& after.back_buf.data == client.back_buf.data + bytes
            &&& after.back_buf.capacity == client.back_buf.capacity
            &&& after.http_state == client.http_state
            &&& after.backend == client.backend
            &&& after.token == client.token
            &&& after.backend_token == client.backend_token
            &&& after.back_interest == client.back_interest
            &&& after.front_interest == client.front_interest
            &&& after.status == client.status
            &&& after.rx_count == client.rx_count
            &&& after.tx_count == client.tx_count
        }),
{
}

/// Registering anew adds reading and writing to what each side waits for and
/// takes nothing away; it touches nothing else.
pub proof fn registering_anew_touches_interests_alone(client: ClientView)
    ensures
        ({
            let after = client.rearmed();
            &&& after.front_interest.readable && after.front_interest.writable
            &&& after.back_interest.readable && after.back_interest.writable
            &&& after.front_interest.error == client.front_interest.error
            &&& after.front_interest.hup == client.front_interest.hup
            &&& after.back_interest.error == client.back_interest.error
            &&& after.back_interest.hup == client.back_interest.hup
            &&& after.http_state == client.http_state
            &&& after.back_buf == client.back_buf
            &&& after.backend == client.backend
            &&& after.token == client.token
            &&& after.backend_token == client.backend_token
            &&& after.status == client.status
            &&& after.rx_count == client.rx_count
            &&& after.tx_count == client.tx_count
        }),
{
}

/// The front is registered exactly if it has a token, the back exactly if it has
/// a token and a socket; each under its own token, for what it waits for, at
/// edges and once. A connection that goes on registers both sides for reading
/// and for writing.
pub proof fn sides_are_registered_under_their_tokens(client: ClientView)
    ensures
        ({
            let made = client.registrations();
            &&& made.front is Some <==> client.token is Some
            &&& made.front is Some ==> {
                &&& Some(made.front->0.token) == client.token
                &&& made.front->0.interest == client.front_interest
                &&& made.front->0.opts.edge && made.front->0.opts.oneshot
                &&& !made.front->0.opts.level
            }
            &&& made.back is Some <==> client.backend_token is Some && client.backend
            &&& made.back is Some ==> {
                &&& Some(made.back->0.token) == client.backend_token
                &&& made.back->0.interest == client.back_interest
                &&& made.back->0.opts.edge && made.back->0.opts.oneshot
                &&& !made.back->0.opts.level
            }
        }),
        client.go_on().result == ClientResult::Continue,
        client.go_on().registrations == client.rearmed().registrations(),
        client.token is Some ==> {
            &&& client.go_on().registrations.front is Some
            &&& client.go_on().registrations.front->0.interest.readable
            &&& client.go_on().registrations.front->0.interest.writable
        },
        client.backend_token is Some && client.backend ==> {
            &&& client.go_on().registrations.back is Some
            &&& client.go_on().registrations.back->0.interest.readable
            &&& client.go_on().registrations.back->0.interest.writable
        },
        no_registrations().front is None && no_registrations().back is None,
{
}

/// A new connection has no backend, no tokens and nothing that waits; it waits
/// for every event, and there is room for 12000 bytes in either direction.
pub proof fn new_connection_is_empty()
    ensures
        ({
            let client = ClientView::initial();
            let all = EventSet { readable: true, writable: true, error: true, hup: true };
            &&& !client.backend
            &&& client.token is None && client.backend_token is None
            &&& client.status == ConnectionStatus::Initial
            &&& client.http_state.front_buf.data.len() == 0
            &&& client.http_state.front_buf.capacity == 12000
            &&& client.back_buf.data.len() == 0
            &&& client.back_buf.capacity == 12000
            &&& client.http_state.should_copy is None
            &&& client.http_state.state.req_position == 0
            &&& client.http_state.state.res_position == 0
            &&& client.http_state.state.request == HttpStateView::Initial
            &&& client.http_state.state.response == HttpStateView::Initial
            &&& client.front_interest == all && client.back_interest == all
            &&& client.rx_count == 0 && client.tx_count == 0
        }),
{
}

/// What a side that hangs up leaves behind: the connection is closed where the
/// other side had left before, or the client leaves while the backend has not
/// answered yet; otherwise it is half open, without the side that left. It is
/// given up exactly when it is closed.
pub proof fn hanging_up_leaves_the_other_side(status: ConnectionStatus)
    ensures
        status.after_front_hup() == ConnectionStatus::Closed <==> status
            == ConnectionStatus::ServerClosed || status == ConnectionStatus::ClientConnected,
        status.after_front_hup() == ConnectionStatus::ClientClosed <==> status
            != ConnectionStatus::ServerClosed && status != ConnectionStatus::ClientConnected,
        status.after_back_hup() == ConnectionStatus::Closed <==> status
            == ConnectionStatus::ClientClosed,
        status.after_back_hup() == ConnectionStatus::ServerClosed <==> status
            != ConnectionStatus::ClientClosed,
        status.hup_result() == ClientResult::CloseClient <==> status == ConnectionStatus::Closed,
        status.hup_result() == ClientResult::Continue <==> status != ConnectionStatus::Closed,
{
}

/// A connection is its fields, and each is seen as it is.
pub proof fn connections_are_their_fields(client: Client, line: RequestLine, host: String)
    ensures
        client@.backend == client.backend,
        client@.back_buf == client.back_buf@,
        client@.token == client.token,
        client@.backend_token == client.backend_token,
        client@.back_interest == client.back_interest,
        client@.front_interest == client.front_interest,
        client@.status == client.status,
        client@.rx_count == client.rx_count,
        client@.tx_count == client.tx_count,
        client@.http_state.should_copy == client.http_state.should_copy,
        client@.http_state.front_buf == client.http_state.front_buf@,
        client@.http_state.state.req_position == client.http_state.state.req_position,
        client@.http_state.state.res_position == client.http_state.state.res_position,
        client@.http_state.state.request == client.http_state.state.request@,
        client@.http_state.state.response == client.http_state.state.response@,
        HttpState::Initial@ == HttpStateView::Initial,
        HttpState::Parsing@ == HttpStateView::Parsing,
        HttpState::Proxying(line, host)@ == HttpStateView::Proxying(line@, host@),
        line@.method == line.method@,
        line@.uri == line.uri@,
        line@.version == line.version@,
{
}

/// Whether or not a write to the client comes through, no byte of the response
/// is lost: what was written and what waits afterwards make up what waited
/// before. The client is given up exactly if bytes waited and the write failed;
/// nothing is written, counted or registered where none waited.
pub proof fn client_write_loses_nothing(client: ClientView, written: FrontWrite)
    requires
        written matches FrontWrite::Wrote(count) ==> {
            &&& count <= client.back_buf.data.len()
            &&& client.tx_count + count <= usize::MAX
        },
    ensures
        ({
            let (after, step) = client.on_writable(written);
            let waited = client.back_buf.data.len() > 0;
            let gone = match written {
                FrontWrite::Wrote(count) => count as int,
                _ => 0,
            };
            &&& client.back_buf.data.take(gone) + after.back_buf.data == client.back_buf.data
            &&& after.tx_count == client.tx_count + gone
            &&& after.http_state == client.http_state
            &&& after.status == client.status
            &&& after.backend == client.backend
            &&& after.token == client.token
            &&& after.backend_token == client.backend_token
            &&& after.rx_count == client.rx_count
            &&& step.result == ClientResult::CloseClient <==> waited && written is Failed
            &&& step.result == ClientResult::Continue <==> !waited || !(written is Failed)
            &&& step.registrations.front is Some <==> waited && !(written is Failed)
                && client.token is Some
            &&& step.registrations.back is Some <==> waited && !(written is Failed)
                && client.backend_token is Some && client.backend
            &&& step.registrations.front is Some ==> {
                &&& Some(step.registrations.front->0.token) == client.token
                &&& step.registrations.front->0.interest.readable
                &&& step.registrations.front->0.interest.writable
            }
            &&& step.registrations.back is Some ==> {
                &&& Some(step.registrations.back->0.token) == client.backend_token
                &&& step.registrations.back->0.interest.readable
                &&& step.registrations.back->0.interest.writable
            }
        }),
{
    let (after, step) = client.on_writable(written);
    let gone = match written {
        FrontWrite::Wrote(count) => count as int,
        _ => 0,
    };
    assert(client.back_buf.data.take(gone) + after.back_buf.data =~= client.back_buf.data);
}

/// A read from the client adds what it brought to what waits for the backend,
/// and only that. The HTTP parser has a say exactly if it brought something; the
/// client is given up exactly if the read failed, and waits on otherwise.
pub proof fn client_read_is_collected(client: ClientView, received: FrontRead)
    ensures
        ({
            let (after, step) = client.on_readable(received);
            let brought = match received {
                FrontRead::Read(bytes) => bytes@,
                _ => Seq::empty(),
            };
            &&& after.http_state.front_buf.data == client.http_state.front_buf.data + brought
            &&& after.http_state.front_buf.capacity == client.http_state.front_buf.capacity
            &&& after.http_state.state == client.http_state.state
            &&& after.http_state.should_copy == client.http_state.should_copy
            &&& after.back_buf == client.back_buf
            &&& after.status == client.status
            &&& after.backend == client.backend
            &&& after.token == client.token
            &&& after.backend_token == client.backend_token
            &&& after.rx_count == client.rx_count
            &&& after.tx_count == client.tx_count
            &&& step.result is None <==> brought.len() > 0
            &&& step.result == Some(ClientResult::CloseClient) <==> received is Failed
            &&& step.result == Some(ClientResult::Continue) <==> brought.len() == 0 && !(
            received is Failed)
            &&& step.registrations.front is Some <==> !(received is Failed) && client.token is Some
            &&& step.registrations.back is Some <==> !(received is Failed)
                && client.backend_token is Some && client.backend
            &&& step.registrations.front is Some ==> {
                &&& Some(step.registrations.front->0.token) == client.token
                &&& step.registrations.front->0.interest.readable
                &&& step.registrations.front->0.interest.writable
            }
            &&& step.registrations.back is Some ==> {
                &&& Some(step.registrations.back->0.token) == client.backend_token
                &&& step.registrations.back->0.interest.readable
                &&& step.registrations.back->0.interest.writable
            }
        }),
{
    let (after, step) = client.on_readable(received);
    let brought = match received {
        FrontRead::Read(bytes) => bytes@,
        _ => Seq::empty(),
    };
    assert(after.http_state.front_buf.data =~= client.http_state.front_buf.data + brought);
}

/// A write to the backend leaves what waits as it is, until the HTTP parser has
/// been told how much has gone: as much as was written, and only where there is
/// a backend and something was written. The connection goes on in any case.
pub proof fn backend_write_is_told_to_the_parser(client: ClientView, written: BackWrite)
    ensures
        ({
            let (after, told) = client.on_back_writable(written);
            &&& after.http_state == client.http_state
            &&& after.back_buf == client.back_buf
            &&& after.status == client.status
            &&& after.backend == client.backend
            &&& after.token == client.token
            &&& after.backend_token == client.backend_token
            &&& after.rx_count == client.rx_count
            &&& after.tx_count == client.tx_count
            &&& told.forwarded is Some <==> client.backend && written is Wrote && written->0 > 0
            &&& told.forwarded is Some ==> told.forwarded->0 == written->0
            &&& told.step.result == ClientResult::Continue
            &&& told.step.registrations.front is Some <==> client.token is Some
            &&& told.step.registrations.back is Some <==> client.backend_token is Some
                && client.backend
        }),
{
}

/// A read from the backend adds what it brought to what waits for the client,
/// and only that, where there is a backend. The connection goes on in any case.
pub proof fn backend_read_is_collected(client: ClientView, received: BackRead)
    ensures
        ({
            let (after, step) = client.on_back_readable(received);
            &&& client.backend && received is Read ==> after.back_buf.data == client.back_buf.data
                + received->0@
            &&& !client.backend || received is Failed ==> after.back_buf.data
                == client.back_buf.data
            &&& after.back_buf.capacity == client.back_buf.capacity
            &&& after.http_state == client.http_state
            &&& after.status == client.status
            &&& after.backend == client.backend
            &&& after.token == client.token
            &&& after.backend_token == client.backend_token
            &&& after.rx_count == client.rx_count
            &&& after.tx_count == client.tx_count
            &&& step.result == ClientResult::Continue
            &&& step.registrations.front is Some <==> client.token is Some
            &&& step.registrations.back is Some <==> client.backend_token is Some
                && client.backend
        }),
{
}

} // verus!
