use sozu::buffer::Buffer;
use sozu::client::{
    BackRead, BackWrite, Client, ConnectionStatus, ForwardStep, FrontRead, FrontWrite, HttpState,
    ReadStep, Registrations, RequestLine, Step,
};
use sozu::events::{EventSet, PollOpt, Registration, Token};
use sozu::messages::ClientResult;

const ALL: EventSet = EventSet { readable: true, writable: true, error: true, hup: true };
const NOTHING: Registrations = Registrations { front: None, back: None };

fn registration(token: usize) -> Option<Registration> {
    Some(Registration {
        token: Token(token),
        interest: ALL,
        opts: PollOpt { edge: true, level: false, oneshot: true },
    })
}

fn client() -> Client {
    let mut client = Client::new().unwrap();
    client.set_tokens(Token(3), Token(4));
    client.set_back_socket();
    client
}

fn go_on() -> Step {
    Step {
        registrations: Registrations { front: registration(3), back: registration(4) },
        result: ClientResult::Continue,
    }
}

#[test]
fn a_new_client_is_empty() {
    let client = Client::new().unwrap();
    assert_eq!(client.status, ConnectionStatus::Initial);
    assert_eq!(client.tokens(), None);
    assert_eq!(client.front_token(), None);
    assert_eq!(client.back_token(), None);
    assert_eq!(client.front_space(), 12000);
    assert_eq!(client.back_space(), 12000);
    assert_eq!(client.front_interest, ALL);
    assert_eq!(client.back_interest, ALL);
    assert!(!client.backend);
    assert_eq!(client.rx_count, 0);
    assert_eq!(client.tx_count, 0);
    assert_eq!(client.http_state.should_copy, None);
    assert!(client.response_to_forward().is_none());
    client.close();
}

#[test]
fn tokens_need_both_sides() {
    let mut client = Client::new().unwrap();
    client.set_front_token(Token(1));
    assert_eq!(client.tokens(), None);
    assert_eq!(client.front_token(), Some(Token(1)));
    client.set_back_token(Token(2));
    assert_eq!(client.back_token(), Some(Token(2)));
    assert_eq!(client.tokens(), Some((Token(1), Token(2))));
    client.set_tokens(Token(5), Token(6));
    assert_eq!(client.tokens(), Some((Token(5), Token(6))));
}

#[test]
fn registration_needs_a_token_and_the_back_also_a_socket() {
    let mut client = Client::new().unwrap();
    assert_eq!(client.reregister(), NOTHING);
    client.set_back_token(Token(4));
    assert_eq!(client.reregister(), NOTHING);
    client.set_front_token(Token(3));
    assert_eq!(client.reregister(), Registrations { front: registration(3), back: None });
    client.set_back_socket();
    assert_eq!(
        client.reregister(),
        Registrations { front: registration(3), back: registration(4) }
    );
}

#[test]
fn registering_adds_reading_and_writing() {
    let mut client = client();
    client.front_interest = EventSet { readable: false, writable: false, error: true, hup: false };
    client.back_interest = EventSet { readable: false, writable: true, error: false, hup: true };
    let first = client.reregister();
    assert_eq!(
        client.front_interest,
        EventSet { readable: true, writable: true, error: true, hup: false }
    );
    assert_eq!(
        client.back_interest,
        EventSet { readable: true, writable: true, error: false, hup: true }
    );
    assert_eq!(client.reregister(), first);
}

#[test]
fn hups_close_the_connection_when_both_sides_are_gone() {
    let cases = [
        (ConnectionStatus::Initial, ConnectionStatus::ClientClosed, ConnectionStatus::ServerClosed),
        (ConnectionStatus::ClientConnected, ConnectionStatus::Closed, ConnectionStatus::ServerClosed),
        (ConnectionStatus::Connected, ConnectionStatus::ClientClosed, ConnectionStatus::ServerClosed),
        (ConnectionStatus::ClientClosed, ConnectionStatus::ClientClosed, ConnectionStatus::Closed),
        (ConnectionStatus::ServerClosed, ConnectionStatus::Closed, ConnectionStatus::ServerClosed),
        (ConnectionStatus::Closed, ConnectionStatus::ClientClosed, ConnectionStatus::ServerClosed),
    ];
    for (status, after_front, after_back) in cases {
        let mut client = client();
        client.status = status;
        let result = client.front_hup();
        assert_eq!(client.status, after_front);
        assert_eq!(result == ClientResult::CloseClient, after_front == ConnectionStatus::Closed);
        client.status = status;
        let result = client.back_hup();
        assert_eq!(client.status, after_back);
        assert_eq!(result == ClientResult::CloseClient, after_back == ConnectionStatus::Closed);
    }
}

#[test]
fn nothing_to_write_is_nothing_to_do() {
    let mut client = client();
    let step = client.writable(FrontWrite::WantWrite);
    assert_eq!(step, Step { registrations: NOTHING, result: ClientResult::Continue });
    let step = client.writable(FrontWrite::Failed);
    assert_eq!(step, Step { registrations: NOTHING, result: ClientResult::Continue });
}

#[test]
fn the_response_is_relayed_in_order() {
    let mut client = client();
    assert_eq!(client.back_readable(BackRead::Read(vec![1, 2, 3])), go_on());
    assert_eq!(client.back_space(), 11997);
    assert_eq!(client.response_to_forward(), Some(&[1, 2, 3][..]));
    assert_eq!(client.writable(FrontWrite::Wrote(2)), go_on());
    assert_eq!(client.tx_count, 2);
    assert_eq!(client.back_readable(BackRead::Read(vec![4])), go_on());
    assert_eq!(client.response_to_forward(), Some(&[3, 4][..]));
    assert_eq!(client.writable(FrontWrite::WantRead), go_on());
    assert_eq!(client.writable(FrontWrite::WantWrite), go_on());
    assert_eq!(client.response_to_forward(), Some(&[3, 4][..]));
    assert_eq!(client.writable(FrontWrite::Wrote(2)), go_on());
    assert_eq!(client.tx_count, 4);
    assert_eq!(client.rx_count, 0);
    assert!(client.response_to_forward().is_none());
}

#[test]
fn a_failed_write_closes_the_client() {
    let mut client = client();
    client.back_readable(BackRead::Read(vec![1]));
    let step = client.writable(FrontWrite::Failed);
    assert_eq!(step, Step { registrations: NOTHING, result: ClientResult::CloseClient });
    assert_eq!(client.response_to_forward(), Some(&[1][..]));
    assert_eq!(client.tx_count, 0);
}

#[test]
fn bytes_of_the_request_go_to_the_parser() {
    let mut client = client();
    let registrations = go_on().registrations;
    let step = client.readable(FrontRead::Read(b"GET".to_vec()));
    assert_eq!(step, ReadStep { registrations, result: None });
    assert_eq!(client.http_state.front_buf.data(), b"GET");
    assert_eq!(client.front_space(), 11997);
    for received in [FrontRead::Read(vec![]), FrontRead::WantRead, FrontRead::WantWrite] {
        let step = client.readable(received);
        assert_eq!(step, ReadStep { registrations, result: Some(ClientResult::Continue) });
        assert_eq!(client.http_state.front_buf.data(), b"GET");
    }
    let step = client.readable(FrontRead::Failed);
    assert_eq!(
        step,
        ReadStep { registrations: NOTHING, result: Some(ClientResult::CloseClient) }
    );
}

#[test]
fn a_request_goes_to_the_backend_as_far_as_it_may() {
    let mut client = client();
    client.readable(FrontRead::Read(b"GET /".to_vec()));
    assert_eq!(client.request_to_forward(3), Some(&b"GET"[..]));
    assert_eq!(client.request_to_forward(0), Some(&b""[..]));
    assert_eq!(
        client.back_writable(BackWrite::Wrote(3)),
        ForwardStep { forwarded: Some(3), step: go_on() }
    );
    assert_eq!(
        client.back_writable(BackWrite::Wrote(0)),
        ForwardStep { forwarded: None, step: go_on() }
    );
    assert_eq!(
        client.back_writable(BackWrite::Failed),
        ForwardStep { forwarded: None, step: go_on() }
    );
    assert_eq!(client.http_state.front_buf.data(), b"GET /");
}

#[test]
fn without_a_backend_nothing_is_forwarded() {
    let mut client = Client::new().unwrap();
    client.set_front_token(Token(3));
    let step = Step {
        registrations: Registrations { front: registration(3), back: None },
        result: ClientResult::Continue,
    };
    assert!(client.request_to_forward(0).is_none());
    assert!(client.request_to_forward(1).is_none());
    assert_eq!(client.back_writable(BackWrite::Wrote(1)), ForwardStep { forwarded: None, step });
    assert_eq!(client.back_readable(BackRead::Read(vec![1])), step);
    assert!(client.response_to_forward().is_none());
    assert_eq!(client.back_readable(BackRead::Failed), step);
}

#[test]
fn a_connected_request_is_proxied() {
    let mut client = client();
    client.http_state.state.req_position = 7;
    client.http_state.state.res_position = 9;
    client.http_state.state.request = HttpState::Parsing;
    let line = || RequestLine {
        method: String::from("GET"),
        uri: String::from("/"),
        version: String::from("HTTP/1.1"),
    };
    client.connected(line(), String::from("localhost"));
    assert_eq!(client.status, ConnectionStatus::Connected);
    assert_eq!(client.http_state.state.req_position, 7);
    assert_eq!(client.http_state.state.res_position, 0);
    assert_eq!(
        client.http_state.state.request,
        HttpState::Proxying(line(), String::from("localhost"))
    );
    assert_eq!(client.http_state.state.response, HttpState::Initial);
}

#[test]
fn a_buffer_is_a_queue() {
    let mut buffer = Buffer::with_capacity(4);
    assert_eq!(buffer.available_data(), 0);
    assert_eq!(buffer.available_space(), 4);
    buffer.fill(vec![1, 2, 3]);
    buffer.consume(1);
    buffer.fill(vec![4, 5]);
    assert_eq!(buffer.data(), &[2, 3, 4, 5]);
    assert_eq!(buffer.available_space(), 0);
    buffer.consume(4);
    assert_eq!(buffer.data(), &[] as &[u8]);
}

#[test]
fn event_sets_are_united() {
    let mut set = EventSet::readable();
    set.insert(EventSet::writable());
    assert_eq!(set, EventSet { readable: true, writable: true, error: false, hup: false });
    set.insert(EventSet::all());
    assert_eq!(set, ALL);
}
