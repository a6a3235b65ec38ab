use sozu::address::SocketAddr;
use sozu::client::{ConnectionStatus, RequestLine};
use sozu::events::{EventSet, PollOpt, Registration, Token};
use sozu::messages::{Command, HttpFront, HttpProxyOrder, Instance, ServerMessage};
use sozu::routing::Notified;
use sozu::server::{listener_registration, ServerConfiguration};

fn front(app_id: &str, hostname: &str, port: u16) -> HttpFront {
    HttpFront {
        app_id: String::from(app_id),
        hostname: String::from(hostname),
        path_begin: String::from("/"),
        port,
    }
}

fn address(port: u16) -> SocketAddr {
    SocketAddr::V4 { ip: 0x7f00_0001, port }
}

fn instance(app_id: &str, port: u16) -> Instance {
    Instance { app_id: String::from(app_id), ip_address: String::from("127.0.0.1"), port }
}

#[test]
fn a_new_server_has_no_listener() {
    let server = ServerConfiguration::new(1);
    assert!(!server.has_listener(Token(0)));
    assert!(!server.has_listener(Token(7)));
    assert!(server.listeners().is_empty());
    let empty = ServerConfiguration::new(0);
    assert!(!empty.has_listener(Token(0)));
}

#[test]
fn listeners_get_tokens_in_order_until_the_server_is_full() {
    let mut server = ServerConfiguration::new(2);
    assert_eq!(server.add_tcp_front(1024, "", false), None);
    assert_eq!(server.add_tcp_front(1024, "", true), Some(Token(0)));
    assert_eq!(server.add_tcp_front(1025, "", true), Some(Token(1)));
    assert_eq!(server.add_tcp_front(1026, "", true), None);
    assert!(server.has_listener(Token(0)));
    assert!(server.has_listener(Token(1)));
    assert!(!server.has_listener(Token(2)));
    let listeners = server.listeners();
    assert_eq!(listeners.len(), 2);
    assert_eq!(listeners[0].token, Some(Token(0)));
    assert_eq!(listeners[0].front_address, address(1024));
    assert_eq!(listeners[1].token, Some(Token(1)));
    assert_eq!(listeners[1].front_address.port(), 1025);
}

#[test]
fn slots_stay_vacant_above_the_listeners() {
    let mut server = ServerConfiguration::new(3);
    assert_eq!(server.add_tcp_front(80, "", true), Some(Token(0)));
    assert!(!server.has_listener(Token(1)));
    assert!(!server.has_listener(Token(2)));
    assert!(!server.has_listener(Token(3)));
    assert!(!server.has_listener(Token(usize::MAX)));
}

#[test]
fn a_front_asks_for_a_listener_once_per_port() {
    let mut server = ServerConfiguration::new(2);
    assert_eq!(server.add_http_front(front("a", "x", 1024)), Some(1024));
    assert_eq!(server.add_http_front(front("a", "y", 1024)), Some(1024));
    assert_eq!(server.add_tcp_front(1024, "", true), Some(Token(0)));
    assert_eq!(server.add_http_front(front("a", "z", 1024)), None);
    assert_eq!(server.add_http_front(front("a", "z", 1025)), Some(1025));
}

#[test]
fn a_request_without_front_or_instances_has_no_backend() {
    let mut server = ServerConfiguration::new(1);
    assert_eq!(server.backend_from_request("x", "/"), None);
    server.add_http_front(front("a", "x", 1024));
    assert_eq!(server.backend_from_request("x", "/"), None);
    server.remove_http_front(front("a", "x", 1024));
    assert_eq!(server.backend_from_request("x", "/"), None);
    server.add_instance("a", &address(80));
    assert_eq!(server.backend_from_request("x", "/"), None);
}

#[test]
fn the_backend_is_an_instance_of_the_oldest_front() {
    let mut server = ServerConfiguration::new(1);
    server.add_http_front(front("a", "x", 1024));
    server.add_http_front(front("b", "x", 1024));
    server.add_instance("a", &address(80));
    server.add_instance("b", &address(90));
    for choice in 0..5 {
        assert_eq!(server.backend_by_choice("x", "/", choice), Some(address(80)));
    }
    assert_eq!(server.backend_from_request("x", "/"), Some(address(80)));
    server.remove_http_front(front("a", "x", 1024));
    assert_eq!(server.backend_from_request("x", "/"), Some(address(90)));
}

#[test]
fn choices_go_round_the_instances() {
    let mut server = ServerConfiguration::new(1);
    server.add_http_front(front("a", "x", 1024));
    for port in 80..83 {
        server.add_instance("a", &address(port));
    }
    assert_eq!(server.backend_by_choice("x", "/", 0), Some(address(80)));
    assert_eq!(server.backend_by_choice("x", "/", 2), Some(address(82)));
    assert_eq!(server.backend_by_choice("x", "/", 4), Some(address(81)));
    let last = usize::MAX % 3;
    assert_eq!(
        server.backend_by_choice("x", "/", usize::MAX),
        server.backend_by_choice("x", "/", last)
    );
}

#[test]
fn random_choices_reach_every_instance() {
    let mut server = ServerConfiguration::new(1);
    server.add_http_front(front("a", "x", 1024));
    server.add_instance("a", &address(80));
    server.add_instance("a", &address(81));
    let mut seen = [false, false];
    for _ in 0..1000 {
        match server.backend_from_request("x", "/") {
            Some(backend) if backend == address(80) => seen[0] = true,
            Some(backend) if backend == address(81) => seen[1] = true,
            other => panic!("unexpected backend {:?}", other),
        }
    }
    assert_eq!(seen, [true, true]);
}

#[test]
fn a_removed_instance_does_not_serve() {
    let mut server = ServerConfiguration::new(1);
    server.add_http_front(front("a", "x", 1024));
    server.add_instance("a", &address(80));
    server.add_instance("a", &address(81));
    server.add_instance("a", &address(80));
    server.remove_instance("a", &address(80));
    for choice in 0..4 {
        assert_eq!(server.backend_by_choice("x", "/", choice), Some(address(81)));
    }
}

#[test]
fn addresses_of_version_six_differ_by_scope() {
    let mut server = ServerConfiguration::new(1);
    server.add_http_front(front("a", "x", 1024));
    let first = SocketAddr::V6 { ip: 1, port: 80, flowinfo: 0, scope_id: 1 };
    let second = SocketAddr::V6 { ip: 1, port: 80, flowinfo: 0, scope_id: 2 };
    server.add_instance("a", &first);
    server.add_instance("a", &second);
    server.remove_instance("a", &first);
    assert_eq!(server.backend_by_choice("x", "/", 0), Some(second));
    assert_eq!(second.port(), 80);
}

#[test]
fn an_application_stays_known_without_instances() {
    let mut server = ServerConfiguration::new(1);
    server.add_http_front(front("a", "x", 1024));
    assert!(!server.is_stranded("x"));
    server.add_instance("a", &address(80));
    assert!(!server.is_stranded("x"));
    assert!(server.knows_application("a"));
    assert!(!server.knows_application("b"));
    server.remove_instance("a", &address(80));
    assert!(server.knows_application("a"));
    assert!(server.is_stranded("x"));
    assert!(!server.is_stranded("y"));
    server.add_instance("a", &address(81));
    assert_eq!(server.backend_from_request("x", "/"), Some(address(81)));
}

#[test]
fn removing_compares_every_field() {
    let mut server = ServerConfiguration::new(1);
    server.add_instance("a", &address(80));
    server.add_http_front(front("a", "x", 1024));
    server.remove_http_front(front("a", "x", 1025));
    server.remove_http_front(front("b", "x", 1024));
    server.remove_http_front(front("a", "y", 1024));
    let mut other_path = front("a", "x", 1024);
    other_path.path_begin = String::from("/other");
    server.remove_http_front(other_path);
    assert_eq!(server.backend_from_request("x", "/"), Some(address(80)));
    server.remove_http_front(front("a", "x", 1024));
    assert_eq!(server.backend_from_request("x", "/"), None);
}

#[test]
fn removing_undoes_adding() {
    let mut server = ServerConfiguration::new(1);
    server.add_http_front(front("a", "x", 1024));
    server.add_instance("a", &address(80));
    server.add_http_front(front("b", "x", 1024));
    server.add_instance("a", &address(81));
    server.remove_instance("a", &address(81));
    server.remove_http_front(front("b", "x", 1024));
    server.remove_http_front(front("b", "x", 1024));
    for choice in 0..3 {
        assert_eq!(server.backend_by_choice("x", "/", choice), Some(address(80)));
    }
}

#[test]
fn hosts_and_applications_do_not_interfere() {
    let mut server = ServerConfiguration::new(1);
    server.add_http_front(front("a", "x", 1024));
    server.add_http_front(front("b", "y", 1024));
    server.add_instance("a", &address(80));
    server.add_instance("b", &address(90));
    server.remove_instance("b", &address(80));
    server.remove_http_front(front("b", "y", 1024));
    assert_eq!(server.backend_from_request("x", "/"), Some(address(80)));
    assert_eq!(server.backend_from_request("y", "/"), None);
}

#[test]
fn orders_are_carried_out_and_answered() {
    let mut server = ServerConfiguration::new(1);
    let add = HttpProxyOrder::Command(Command::AddHttpFront(front("app_1", "localhost:1024", 1024)));
    assert_eq!(add.address_text(), None);
    assert_eq!(
        server.notify(add, None),
        Notified { listen: Some(1024), reply: Some(ServerMessage::AddedFront), shutdown: false }
    );
    let add = HttpProxyOrder::Command(Command::AddInstance(instance("app_1", 1025)));
    assert_eq!(add.address_text(), Some(String::from("127.0.0.1:1025")));
    assert_eq!(
        server.notify(add, Some(address(1025))),
        Notified { listen: None, reply: Some(ServerMessage::AddedInstance), shutdown: false }
    );
    assert_eq!(server.backend_from_request("localhost:1024", "/"), Some(address(1025)));
    let remove = HttpProxyOrder::Command(Command::RemoveInstance(instance("app_1", 1025)));
    assert_eq!(remove.address_text(), Some(String::from("127.0.0.1:1025")));
    assert_eq!(
        server.notify(remove, Some(address(1025))),
        Notified { listen: None, reply: Some(ServerMessage::RemovedInstance), shutdown: false }
    );
    assert!(server.is_stranded("localhost:1024"));
    let remove =
        HttpProxyOrder::Command(Command::RemoveHttpFront(front("app_1", "localhost:1024", 1024)));
    assert_eq!(
        server.notify(remove, None),
        Notified { listen: None, reply: Some(ServerMessage::RemovedFront), shutdown: false }
    );
    assert!(!server.is_stranded("localhost:1024"));
    assert_eq!(server.backend_from_request("localhost:1024", "/"), None);
}

#[test]
fn orders_that_are_not_carried_out_are_not_answered() {
    let mut server = ServerConfiguration::new(1);
    server.add_http_front(front("a", "x", 1024));
    let nothing = Notified { listen: None, reply: None, shutdown: false };
    let add = HttpProxyOrder::Command(Command::AddInstance(instance("a", 80)));
    assert_eq!(server.notify(add, None), nothing);
    let remove = HttpProxyOrder::Command(Command::RemoveInstance(instance("a", 80)));
    assert_eq!(server.notify(remove, None), nothing);
    assert_eq!(server.notify(HttpProxyOrder::Command(Command::Other), None), nothing);
    assert_eq!(server.backend_from_request("x", "/"), None);
    assert_eq!(
        server.notify(HttpProxyOrder::Stop, None),
        Notified { listen: None, reply: None, shutdown: true }
    );
}

#[test]
fn a_front_on_a_known_port_needs_no_listener() {
    let mut server = ServerConfiguration::new(1);
    assert_eq!(server.add_tcp_front(1024, "", true), Some(Token(0)));
    let add = HttpProxyOrder::Command(Command::AddHttpFront(front("a", "x", 1024)));
    assert_eq!(
        server.notify(add, None),
        Notified { listen: None, reply: Some(ServerMessage::AddedFront), shutdown: false }
    );
}

#[test]
fn a_client_is_accepted_at_a_listener_with_an_open_stream() {
    let mut server = ServerConfiguration::new(1);
    assert!(server.accept(Token(0), true).is_none());
    server.add_tcp_front(1024, "", true);
    assert!(server.accept(Token(0), false).is_none());
    assert!(server.accept(Token(1), true).is_none());
    match server.accept(Token(0), true) {
        Some((client, wants_backend)) => {
            assert!(!wants_backend);
            assert_eq!(client.status, ConnectionStatus::Initial);
            assert_eq!(client.tokens(), None);
        }
        None => panic!("no client"),
    }
}

#[test]
fn a_backend_is_connected_once_host_and_request_line_are_known() {
    let mut server = ServerConfiguration::new(1);
    server.add_http_front(front("a", "x", 1024));
    server.add_instance("a", &address(80));
    let host = Some(String::from("x"));
    let line = Some(RequestLine {
        method: String::from("GET"),
        uri: String::from("/"),
        version: String::from("HTTP/1.1"),
    });
    assert_eq!(server.connect_to_backend(&None, &None), None);
    assert_eq!(server.connect_to_backend(&host, &None), None);
    assert_eq!(server.connect_to_backend(&None, &line), None);
    assert_eq!(server.connect_to_backend(&host, &line), Some(address(80)));
    assert_eq!(server.connect_to_backend(&Some(String::from("y")), &line), None);
}

#[test]
fn listeners_wait_for_reading() {
    assert_eq!(
        listener_registration(Token(3)),
        Registration {
            token: Token(3),
            interest: EventSet { readable: true, writable: false, error: false, hup: false },
            opts: PollOpt { edge: false, level: true, oneshot: false },
        }
    );
}
