use std::collections::{BTreeMap, HashMap};

use sozu::address::{IpAddr, SocketAddr};
use sozu::config::{
    Config, HttpProxyConfiguration, MetricsConfig, ProxyConfig, ProxySources, ProxyType,
    TlsProxyConfiguration, TlsSources,
};
use sozu::syntax::parse_document;
use toml::Value;

fn proxy(proxy_type: ProxyType) -> ProxyConfig {
    ProxyConfig {
        proxy_type,
        address: String::from("127.0.0.1"),
        port: 8080,
        max_connections: 500,
        buffer_size: 16384,
        answer_404: Some(String::from("404.html")),
        answer_503: None,
        public_address: None,
        cipher_list: None,
        worker_count: None,
        default_app_id: None,
        default_certificate: None,
        default_certificate_chain: None,
        default_key: None,
        default_name: None,
    }
}

fn text(value: &str) -> Value {
    Value::String(String::from(value))
}

fn insert(table: &mut BTreeMap<String, Value>, key: &str, value: &Option<String>) {
    if let Some(value) = value {
        table.insert(String::from(key), text(value));
    }
}

fn proxy_value(proxy: &ProxyConfig) -> Value {
    let mut table = BTreeMap::new();
    let proxy_type = match proxy.proxy_type {
        ProxyType::HTTP => "HTTP",
        ProxyType::HTTPS => "HTTPS",
    };
    table.insert(String::from("proxy_type"), text(proxy_type));
    table.insert(String::from("address"), text(&proxy.address));
    table.insert(String::from("port"), Value::Integer(proxy.port as i64));
    table.insert(String::from("max_connections"), Value::Integer(proxy.max_connections as i64));
    table.insert(String::from("buffer_size"), Value::Integer(proxy.buffer_size as i64));
    insert(&mut table, "answer_404", &proxy.answer_404);
    insert(&mut table, "answer_503", &proxy.answer_503);
    insert(&mut table, "public_address", &proxy.public_address);
    insert(&mut table, "cipher_list", &proxy.cipher_list);
    Value::Table(table)
}

fn config_value(config: &Config) -> Value {
    let mut metrics = BTreeMap::new();
    metrics.insert(String::from("address"), text(&config.metrics.address));
    metrics.insert(String::from("port"), Value::Integer(config.metrics.port as i64));
    let proxies = config.proxies.iter().map(|(name, proxy)| (name.clone(), proxy_value(proxy)));
    let mut table = BTreeMap::new();
    table.insert(String::from("command_socket"), text(&config.command_socket));
    insert(&mut table, "saved_state", &config.saved_state);
    insert(&mut table, "log_level", &config.log_level);
    table.insert(String::from("metrics"), Value::Table(metrics));
    table.insert(String::from("proxies"), Value::Table(proxies.collect()));
    Value::Table(table)
}

#[test]
fn serialize() {
    let mut map = HashMap::new();
    map.insert(String::from("HTTP"), proxy(ProxyType::HTTP));
    map.insert(String::from("TLS"), proxy(ProxyType::HTTPS));
    let config = Config {
        command_socket: String::from("./command_folder/sock"),
        saved_state: None,
        command_buffer_size: None,
        max_command_buffer_size: None,
        log_level: None,
        metrics: MetricsConfig { address: String::from("192.168.59.103"), port: 8125 },
        proxies: map,
    };

    let value = config_value(&config);
    let encoded = toml::encode_str(&value);
    println!("conf:\n{}", encoded);
    match parse_document(&encoded) {
        Ok(table) => assert_eq!(Value::Table(table), value),
        Err(failure) => panic!("{:?}", failure),
    }
}

fn front() -> SocketAddr {
    SocketAddr::V4 { ip: 0x7f00_0001, port: 8080 }
}

fn http_defaults() -> HttpProxyConfiguration {
    HttpProxyConfiguration {
        front: SocketAddr::V4 { ip: 0, port: 1 },
        public_address: Some(IpAddr::V4(1)),
        max_connections: 1,
        buffer_size: 2,
        answer_404: String::from("default 404"),
        answer_503: String::from("default 503"),
    }
}

fn tls_defaults() -> TlsProxyConfiguration {
    TlsProxyConfiguration {
        front: SocketAddr::V4 { ip: 0, port: 1 },
        public_address: Some(IpAddr::V4(1)),
        max_connections: 1,
        buffer_size: 2,
        answer_404: String::from("default 404"),
        answer_503: String::from("default 503"),
        cipher_list: String::from("none"),
        default_app_id: Some(String::from("default app")),
        default_certificate: Some(vec![9]),
        default_certificate_chain: Some(String::from("default chain")),
        default_key: None,
    }
}

fn sources() -> ProxySources {
    ProxySources {
        front: Some(front()),
        public_address: Some(IpAddr::V6(5)),
        answer_404: Some(String::from("not found")),
        answer_503: Some(String::from("unavailable")),
    }
}

#[test]
fn the_socket_address_is_address_and_port() {
    let mut config = proxy(ProxyType::HTTP);
    assert_eq!(config.socket_address(), "127.0.0.1:8080");
    config.port = 0;
    assert_eq!(config.socket_address(), "127.0.0.1:0");
    config.port = 65535;
    config.address = String::from("[::1]");
    assert_eq!(config.socket_address(), "[::1]:65535");
    config.port = 10;
    config.address = String::new();
    assert_eq!(config.socket_address(), ":10");
}

#[test]
fn an_http_proxy_takes_what_its_files_hold() {
    let config = proxy(ProxyType::HTTP);
    let expected = HttpProxyConfiguration {
        front: front(),
        public_address: None,
        max_connections: 500,
        buffer_size: 16384,
        answer_404: String::from("not found"),
        answer_503: String::from("default 503"),
    };
    assert_eq!(config.to_http(sources(), http_defaults()), Some(expected));
}

#[test]
fn unreadable_files_leave_the_defaults() {
    let mut config = proxy(ProxyType::HTTP);
    config.answer_503 = Some(String::from("503.html"));
    config.public_address = Some(String::from("::5"));
    let found = ProxySources { answer_404: None, ..sources() };
    let expected = HttpProxyConfiguration {
        front: front(),
        public_address: Some(IpAddr::V6(5)),
        max_connections: 500,
        buffer_size: 16384,
        answer_404: String::from("default 404"),
        answer_503: String::from("unavailable"),
    };
    assert_eq!(config.to_http(found, http_defaults()), Some(expected));
    let found = ProxySources { public_address: None, ..sources() };
    assert_eq!(config.to_http(found, http_defaults()).unwrap().public_address, None);
}

#[test]
fn without_a_front_there_is_no_proxy() {
    let config = proxy(ProxyType::HTTPS);
    let found = ProxySources { front: None, ..sources() };
    assert_eq!(config.to_http(found, http_defaults()), None);
    let proxy = ProxySources { front: None, ..sources() };
    let found = TlsSources { proxy, default_certificate: None, default_key: None };
    assert_eq!(config.to_tls(found, tls_defaults()), None);
}

#[test]
fn a_tls_proxy_has_ciphers_and_a_certificate() {
    let mut config = proxy(ProxyType::HTTPS);
    config.cipher_list = Some(String::from("AES128-SHA"));
    config.default_app_id = Some(String::from("app"));
    config.default_certificate = Some(String::from("cert.pem"));
    config.default_certificate_chain = Some(String::from("chain"));
    config.default_key = Some(String::from("key.pem"));
    let found = TlsSources {
        proxy: sources(),
        default_certificate: Some(vec![1, 2]),
        default_key: Some(vec![3]),
    };
    let expected = TlsProxyConfiguration {
        front: front(),
        public_address: None,
        max_connections: 500,
        buffer_size: 16384,
        answer_404: String::from("not found"),
        answer_503: String::from("default 503"),
        cipher_list: String::from("AES128-SHA"),
        default_app_id: Some(String::from("app")),
        default_certificate: Some(vec![1, 2]),
        default_certificate_chain: Some(String::from("chain")),
        default_key: Some(vec![3]),
    };
    assert_eq!(config.to_tls(found, tls_defaults()), Some(expected));
}

#[test]
fn a_tls_proxy_falls_back_on_the_defaults() {
    let mut config = proxy(ProxyType::HTTPS);
    config.default_key = Some(String::from("key.pem"));
    let found = TlsSources {
        proxy: sources(),
        default_certificate: Some(vec![1, 2]),
        default_key: None,
    };
    let tls = config.to_tls(found, tls_defaults()).unwrap();
    assert_eq!(tls.default_certificate, Some(vec![9]));
    assert_eq!(tls.default_key, None);
    assert_eq!(tls.default_app_id, None);
    assert_eq!(tls.default_certificate_chain, None);
    assert_eq!(
        tls.cipher_list,
        "ECDHE-ECDSA-CHACHA20-POLY1305:ECDHE-RSA-CHACHA20-POLY1305:\
         ECDHE-ECDSA-AES128-GCM-SHA256:ECDHE-RSA-AES128-GCM-SHA256:\
         ECDHE-ECDSA-AES256-GCM-SHA384:ECDHE-RSA-AES256-GCM-SHA384:\
         DHE-RSA-AES128-GCM-SHA256:DHE-RSA-AES256-GCM-SHA384:\
         ECDHE-ECDSA-AES128-SHA256:ECDHE-RSA-AES128-SHA256:\
         ECDHE-ECDSA-AES128-SHA:ECDHE-RSA-AES256-SHA384:\
         ECDHE-RSA-AES128-SHA:ECDHE-ECDSA-AES256-SHA384:\
         ECDHE-ECDSA-AES256-SHA:ECDHE-RSA-AES256-SHA:\
         DHE-RSA-AES128-SHA256:DHE-RSA-AES128-SHA:DHE-RSA-AES256-SHA256:\
         DHE-RSA-AES256-SHA:ECDHE-ECDSA-DES-CBC3-SHA:\
         ECDHE-RSA-DES-CBC3-SHA:EDH-RSA-DES-CBC3-SHA:\
         AES128-GCM-SHA256:AES256-GCM-SHA384:AES128-SHA256:\
         AES256-SHA256:AES128-SHA:AES256-SHA:DES-CBC3-SHA:!DSS"
    );
}

#[test]
fn http_and_tls_share_what_both_have() {
    let config = proxy(ProxyType::HTTPS);
    let http = config.to_http(sources(), http_defaults()).unwrap();
    let found = TlsSources { proxy: sources(), default_certificate: None, default_key: None };
    let tls = config.to_tls(found, tls_defaults()).unwrap();
    assert_eq!(http.front, tls.front);
    assert_eq!(http.public_address, tls.public_address);
    assert_eq!(http.max_connections, tls.max_connections);
    assert_eq!(http.buffer_size, tls.buffer_size);
    assert_eq!(http.answer_404, tls.answer_404);
    assert_eq!(http.answer_503, tls.answer_503);
}
