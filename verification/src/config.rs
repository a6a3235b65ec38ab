//! The configuration file: its types, and the proxy configurations made of them.

use std::collections::HashMap;

use vstd::prelude::*;

use crate::address::{IpAddr, SocketAddr};
use crate::text::{host_and_port, socket_text};

verus! {

/// What a proxy speaks to its clients.
#[derive(Debug, Clone, Copy, PartialEq, Eq, Hash, Structural)]
pub enum ProxyType {
    HTTP,
    HTTPS,
}

/// One proxy of the configuration file.
#[derive(Debug, Clone, PartialEq, Eq, Hash)]
pub struct ProxyConfig {
    pub proxy_type: ProxyType,
    pub address: String,
    pub public_address: Option<String>,
    pub port: u16,
    pub max_connections: usize,
    pub buffer_size: usize,
    pub answer_404: Option<String>,
    pub answer_503: Option<String>,
    pub cipher_list: Option<String>,
    pub worker_count: Option<u16>,
    pub default_name: Option<String>,
    pub default_app_id: Option<String>,
    pub default_certificate: Option<String>,
    pub default_certificate_chain: Option<String>,
    pub default_key: Option<String>,
}

/// Where metrics are sent.
#[derive(Debug, Clone, PartialEq, Eq, Hash)]
pub struct MetricsConfig {
    pub address: String,
    pub port: u16,
}

/// The configuration file.
#[derive(Debug, Clone, PartialEq, Eq)]
pub struct Config {
    pub command_socket: String,
    pub command_buffer_size: Option<usize>,
    pub max_command_buffer_size: Option<usize>,
    pub saved_state: Option<String>,
    pub metrics: MetricsConfig,
    pub proxies: HashMap<String, ProxyConfig>,
    pub log_level: Option<String>,
}

/// The configuration of an HTTP proxy.
#[derive(Debug, Clone, PartialEq, Eq, Hash)]
pub struct HttpProxyConfiguration {
    pub front: SocketAddr,
    pub public_address: Option<IpAddr>,
    pub max_connections: usize,
    pub buffer_size: usize,
    pub answer_404: String,
    pub answer_503: String,
}

/// The configuration of an HTTPS proxy.
#[derive(Debug, Clone, PartialEq, Eq, Hash)]
pub struct TlsProxyConfiguration {
    pub front: SocketAddr,
    pub public_address: Option<IpAddr>,
    pub max_connections: usize,
    pub buffer_size: usize,
    pub answer_404: String,
    pub answer_503: String,
    pub cipher_list: String,
    pub default_app_id: Option<String>,
    pub default_certificate: Option<Vec<u8>>,
    pub default_certificate_chain: Option<String>,
    pub default_key: Option<Vec<u8>>,
}

/// The ciphers that an HTTPS proxy offers unless it is told others.
pub const DEFAULT_CIPHER_LIST: &'static str = "ECDHE-ECDSA-CHACHA20-POLY1305:ECDHE-RSA-CHACHA20-POLY1305:\
    ECDHE-ECDSA-AES128-GCM-SHA256:ECDHE-RSA-AES128-GCM-SHA256:\
    ECDHE-ECDSA-AES256-GCM-SHA384:ECDHE-RSA-AES256-GCM-SHA384:\
    DHE-RSA-AES128-GCM-SHA256:DHE-RSA-AES256-GCM-SHA384:\
    ECDHE-ECDSA-AES128-SHA256:ECDHE-RSA-AES128-SHA256:\
    ECDHE-ECDSA-AES128-SHA:ECDHE-RSA-AES256-SHA384:\
    ECDHE-RSA-AES128-SHA:ECDHE-ECDSA-AES256-SHA384:\
    ECDHE-ECDSA-AES256-SHA:ECDHE-RSA-AES256-SHA:\
    DHE-RSA-AES128-SHA256:DHE-RSA-AES128-SHA:DHE-RSA-AES256-SHA256:\
    DHE-RSA-AES256-SHA:ECDHE-ECDSA-DES-CBC3-SHA:\
    ECDHE-RSA-DES-CBC3-SHA:EDH-RSA-DES-CBC3-SHA:\
    AES128-GCM-SHA256:AES256-GCM-SHA384:AES128-SHA256:\
    AES256-SHA256:AES128-SHA:AES256-SHA:DES-CBC3-SHA:!DSS";

/// What was found where a `ProxyConfig` points: the socket address that
/// `socket_address` denotes, the IP address that `public_address` denotes, and
/// the contents of the files of the answers. `None` stands for text that is no
/// address and for a file that could not be read.
pub struct ProxySources {
    pub front: Option<SocketAddr>,
    pub public_address: Option<IpAddr>,
    pub answer_404: Option<String>,
    pub answer_503: Option<String>,
}

/// What was found where a `ProxyConfig` for an HTTPS proxy points: besides the
/// above, the contents of the files of the default certificate and of its key.
pub struct TlsSources {
    pub proxy: ProxySources,
    pub default_certificate: Option<Vec<u8>>,
    pub default_key: Option<Vec<u8>>,
}

/// An `HttpProxyConfiguration` as mathematical values.
#[verifier::ext_equal]
pub struct HttpProxyConfigurationView {
    pub front: SocketAddr,
    pub public_address: Option<IpAddr>,
    pub max_connections: usize,
    pub buffer_size: usize,
    pub answer_404: Seq<char>,
    pub answer_503: Seq<char>,
}

impl View for HttpProxyConfiguration {
    type V = HttpProxyConfigurationView;

    open spec fn view(&self) -> HttpProxyConfigurationView {
        HttpProxyConfigurationView {
            front: self.front,
            public_address: self.public_address,
            max_connections: self.max_connections,
            buffer_size: self.buffer_size,
            answer_404: self.answer_404@,
            answer_503: self.answer_503@,
        }
    }
}

/// A `TlsProxyConfiguration` as mathematical values.
#[verifier::ext_equal]
pub struct TlsProxyConfigurationView {
    pub front: SocketAddr,
    pub public_address: Option<IpAddr>,
    pub max_connections: usize,
    pub buffer_size: usize,
    pub answer_404: Seq<char>,
    pub answer_503: Seq<char>,
    pub cipher_list: Seq<char>,
    pub default_app_id: Option<Seq<char>>,
    pub default_certificate: Option<Seq<u8>>,
    pub default_certificate_chain: Option<Seq<char>>,
    pub default_key: Option<Seq<u8>>,
}

/// The characters of a string that may be absent.
pub open spec fn text_view(text: Option<String>) -> Option<Seq<char>> {
    match text {
        Some(text) => Some(text@),
        None => None,
    }
}

/// The bytes of a file that may be absent.
pub open spec fn bytes_view(bytes: Option<Vec<u8>>) -> Option<Seq<u8>> {
    match bytes {
        Some(bytes) => Some(bytes@),
        None => None,
    }
}

impl View for TlsProxyConfiguration {
    type V = TlsProxyConfigurationView;

    open spec fn view(&self) -> TlsProxyConfigurationView {
        TlsProxyConfigurationView {
            front: self.front,
            public_address: self.public_address,
            max_connections: self.max_connections,
            buffer_size: self.buffer_size,
            answer_404: self.answer_404@,
            answer_503: self.answer_503@,
            cipher_list: self.cipher_list@,
            default_app_id: text_view(self.default_app_id),
            default_certificate: bytes_view(self.default_certificate),
            default_certificate_chain: text_view(self.default_certificate_chain),
            default_key: bytes_view(self.default_key),
        }
    }
}

/// What was found, if there was a place to look at.
pub open spec fn looked_up<T>(place: Option<String>, found: Option<T>) -> Option<T> {
    if place is Some {
        found
    } else {
        None
    }
}

/// The text in the file, or else the default.
pub open spec fn text_or(file: Option<String>, default: Seq<char>) -> Seq<char> {
    match file {
        Some(text) => text@,
        None => default,
    }
}

/// The bytes in the file, or else the default.
pub open spec fn bytes_or(file: Option<Vec<u8>>, default: Option<Seq<u8>>) -> Option<Seq<u8>> {
    match file {
        Some(bytes) => Some(bytes@),
        None => default,
    }
}

/// The text in the file at `place`, or else the default.
fn answer(place: &Option<String>, found: Option<String>, default: String) -> (text: String)
    ensures
        text@ == text_or(looked_up(*place, found), default@),
{
    match (place, found) {
        (Some(_), Some(text)) => text,
        _ => default,
    }
}

/// The bytes in the file at `place`, or else the default.
fn file_bytes(place: &Option<String>, found: Option<Vec<u8>>, default: Option<Vec<u8>>) -> (bytes:
    Option<Vec<u8>>)
    ensures
        bytes_view(bytes) == bytes_or(looked_up(*place, found), bytes_view(default)),
{
    match (place, found) {
        (Some(_), Some(bytes)) => Some(bytes),
        _ => default,
    }
}

impl ProxyConfig {
    /// The HTTP proxy that is configured: none if the address on which to
    /// listen denotes no socket address.
    pub open spec fn http_configuration(
        self,
        sources: ProxySources,
        defaults: HttpProxyConfigurationView,
    ) -> Option<HttpProxyConfigurationView> {
        match sources.front {
            Some(front) => Some(
                HttpProxyConfigurationView {
                    front,
                    public_address: looked_up(self.public_address, sources.public_address),
                    max_connections: self.max_connections,
                    buffer_size: self.buffer_size,
                    answer_404: text_or(
                        looked_up(self.answer_404, sources.answer_404),
                        defaults.answer_404,
                    ),
                    answer_503: text_or(
                        looked_up(self.answer_503, sources.answer_503),
                        defaults.answer_503,
                    ),
                },
            ),
            None => None,
        }
    }

    /// The HTTPS proxy that is configured: none if the address on which to
    /// listen denotes no socket address.
    pub open spec fn tls_configuration(
        self,
        sources: TlsSources,
        defaults: TlsProxyConfigurationView,
    ) -> Option<TlsProxyConfigurationView> {
        match sources.proxy.front {
            Some(front) => Some(
                TlsProxyConfigurationView {
                    front,
                    public_address: looked_up(self.public_address, sources.proxy.public_address),
                    max_connections: self.max_connections,
                    buffer_size: self.buffer_size,
                    answer_404: text_or(
                        looked_up(self.answer_404, sources.proxy.answer_404),
                        defaults.answer_404,
                    ),
                    answer_503: text_or(
                        looked_up(self.answer_503, sources.proxy.answer_503),
                        defaults.answer_503,
                    ),
                    cipher_list: text_or(self.cipher_list, DEFAULT_CIPHER_LIST@),
                    default_app_id: text_view(self.default_app_id),
                    default_certificate: bytes_or(
                        looked_up(self.default_certificate, sources.default_certificate),
                        defaults.default_certificate,
                    ),
                    default_certificate_chain: text_view(self.default_certificate_chain),
                    default_key: bytes_or(
                        looked_up(self.default_key, sources.default_key),
                        defaults.default_key,
                    ),
                },
            ),
            None => None,
        }
    }

    /// The text of the address on which the proxy listens: `address:port`.
    pub fn socket_address(&self) -> (text: String)
        ensures
            text@ == host_and_port(self.address@, self.port),
    {
        socket_text(&self.address, self.port)
    }

    /// The configuration of the HTTP proxy. What neither the configuration file
    /// nor the files that it names settle is taken from `defaults`.
    pub fn to_http(&self, sources: ProxySources, defaults: HttpProxyConfiguration) -> (configuration:
        Option<HttpProxyConfiguration>)
        ensures
            match configuration {
                Some(configuration) => Some(configuration@),
                None => None,
            } == self.http_configuration(sources, defaults@),
            configuration is Some <==> sources.front is Some,
            configuration is Some ==> {
                &&& configuration->0.front == sources.front->0
                &&& self.answer_404 is Some && sources.answer_404 is Some
                    ==> configuration->0.answer_404@ == sources.answer_404->0@
                &&& self.answer_503 is Some && sources.answer_503 is Some
                    ==> configuration->0.answer_503@ == sources.answer_503->0@
            },
    {
        match sources.front {
            Some(front) => {
                let public_address = match &self.public_address {
                    Some(_) => sources.public_address,
                    None => None,
                };
                Some(
                    HttpProxyConfiguration {
                        front,
                        public_address,
                        max_connections: self.max_connections,
                        buffer_size: self.buffer_size,
                        answer_404: answer(
                            &self.answer_404,
                            sources.answer_404,
                            defaults.answer_404,
                        ),
                        answer_503: answer(
                            &self.answer_503,
                            sources.answer_503,
                            defaults.answer_503,
                        ),
                    },
                )
            },
            None => None,
        }
    }

    /// The configuration of the HTTPS proxy. What neither the configuration file
    /// nor the files that it names settle is taken from `defaults`.
    pub fn to_tls(&self, sources: TlsSources, defaults: TlsProxyConfiguration) -> (configuration:
        Option<TlsProxyConfiguration>)
        ensures
            match configuration {
                Some(configuration) => Some(configuration@),
                None => None,
            } == self.tls_configuration(sources, defaults@),
            configuration is Some <==> sources.proxy.front is Some,
            configuration is Some ==> {
                &&& configuration->0.front == sources.proxy.front->0
                &&& self.answer_404 is Some && sources.proxy.answer_404 is Some
                    ==> configuration->0.answer_404@ == sources.proxy.answer_404->0@
                &&& self.answer_503 is Some && sources.proxy.answer_503 is Some
                    ==> configuration->0.answer_503@ == sources.proxy.answer_503->0@
                &&& self.cipher_list is Some ==> configuration->0.cipher_list@
                    == self.cipher_list->0@
                &&& self.default_certificate is Some && sources.default_certificate is Some ==> {
                    &&& configuration->0.default_certificate is Some
                    &&& configuration->0.default_certificate->0@ == sources.default_certificate->0@
                }
                &&& self.default_key is Some && sources.default_key is Some ==> {
                    &&& configuration->0.default_key is Some
                    &&& configuration->0.default_key->0@ == sources.default_key->0@
                }
            },
    {
        let cipher_list: String = match &self.cipher_list {
            Some(list) => list.clone(),
            None => DEFAULT_CIPHER_LIST.to_owned(),
        };
        match sources.proxy.front {
            Some(front) => {
                let public_address = match &self.public_address {
                    Some(_) => sources.proxy.public_address,
                    None => None,
                };
                Some(
                    TlsProxyConfiguration {
                        front,
                        public_address,
                        max_connections: self.max_connections,
                        buffer_size: self.buffer_size,
                        answer_404: answer(
                            &self.answer_404,
                            sources.proxy.answer_404,
                            defaults.answer_404,
                        ),
                        answer_503: answer(
                            &self.answer_503,
                            sources.proxy.answer_503,
                            defaults.answer_503,
                        ),
                        cipher_list,
                        default_app_id: self.default_app_id.clone(),
                        default_certificate: file_bytes(
                            &self.default_certificate,
                            sources.default_certificate,
                            defaults.default_certificate,
                        ),
                        default_certificate_chain: self.default_certificate_chain.clone(),
                        default_key: file_bytes(
                            &self.default_key,
                            sources.default_key,
                            defaults.default_key,
                        ),
                    },
                )
            },
            None => None,
        }
    }
}

/// A proxy is configured the same way for HTTP and for HTTPS in all that both
/// have; in an answer, given the same default for it.
pub proof fn http_and_tls_agree(
    config: ProxyConfig,
    sources: TlsSources,
    http_defaults: HttpProxyConfigurationView,
    tls_defaults: TlsProxyConfigurationView,
)
    ensures
        ({
            let http = config.http_configuration(sources.proxy, http_defaults);
            let tls = config.tls_configuration(sources, tls_defaults);
            &&& http is Some <==> tls is Some
            &&& http is Some ==> {
                &&& http->0.front == tls->0.front
                &&& http->0.public_address == tls->0.public_address
                &&& http->0.max_connections == tls->0.max_connections
                &&& http->0.buffer_size == tls->0.buffer_size
                &&& http_defaults.answer_404 == tls_defaults.answer_404 ==> http->0.answer_404
                    == tls->0.answer_404
                &&& http_defaults.answer_503 == tls_defaults.answer_503 ==> http->0.answer_503
                    == tls->0.answer_503
            }
        }),
{
}

/// Each field of the configuration of an HTTP proxy is what its own source says.
/// There is a configuration exactly where the address denotes one; an answer is
/// the text of its file wherever the section names a file and it was read, and
/// the default otherwise.
pub proof fn http_fields_have_their_own_source(
    config: ProxyConfig,
    sources: ProxySources,
    defaults: HttpProxyConfigurationView,
)
    ensures
        ({
            let made = config.http_configuration(sources, defaults);
            &&& made is Some <==> sources.front is Some
            &&& made is Some ==> {
                &&& made->0.front == sources.front->0
                &&& made->0.max_connections == config.max_connections
                &&& made->0.buffer_size == config.buffer_size
                &&& config.public_address is Some ==> made->0.public_address
                    == sources.public_address
                &&& config.public_address is None ==> made->0.public_address is None
                &&& config.answer_404 is Some && sources.answer_404 is Some ==> made->0.answer_404
                    == sources.answer_404->0@
                &&& config.answer_404 is None || sources.answer_404 is None ==> made->0.answer_404
                    == defaults.answer_404
                &&& config.answer_503 is Some && sources.answer_503 is Some ==> made->0.answer_503
                    == sources.answer_503->0@
                &&& config.answer_503 is None || sources.answer_503 is None ==> made->0.answer_503
                    == defaults.answer_503
            }
        }),
{
}

/// Each field of the configuration of an HTTPS proxy is what its own source
/// says. The certificate is the bytes of its file wherever the section names a
/// file and it was read, whatever the other fields are, and the default
/// otherwise; so is the key. The ciphers are those of the section, or else the
/// usual ones.
pub proof fn tls_fields_have_their_own_source(
    config: ProxyConfig,
    sources: TlsSources,
    defaults: TlsProxyConfigurationView,
)
    ensures
        ({
            let made = config.tls_configuration(sources, defaults);
            let found = sources.proxy;
            &&& made is Some <==> found.front is Some
            &&& made is Some ==> {
                &&& made->0.front == found.front->0
                &&& made->0.max_connections == config.max_connections
                &&& made->0.buffer_size == config.buffer_size
                &&& config.public_address is Some ==> made->0.public_address == found.public_address
                &&& config.public_address is None ==> made->0.public_address is None
                &&& config.answer_404 is Some && found.answer_404 is Some ==> made->0.answer_404
                    == found.answer_404->0@
                &&& config.answer_404 is None || found.answer_404 is None ==> made->0.answer_404
                    == defaults.answer_404
                &&& config.answer_503 is Some && found.answer_503 is Some ==> made->0.answer_503
                    == found.answer_503->0@
                &&& config.answer_503 is None || found.answer_503 is None ==> made->0.answer_503
                    == defaults.answer_503
                &&& config.cipher_list is Some ==> made->0.cipher_list == config.cipher_list->0@
                &&& config.cipher_list is None ==> made->0.cipher_list == DEFAULT_CIPHER_LIST@
                &&& config.default_app_id is Some ==> made->0.default_app_id == Some(
                    config.default_app_id->0@,
                )
                &&& config.default_app_id is None ==> made->0.default_app_id is None
                &&& config.default_certificate_chain is Some
                    ==> made->0.default_certificate_chain == Some(
                    config.default_certificate_chain->0@,
                )
                &&& config.default_certificate_chain is None
                    ==> made->0.default_certificate_chain is None
                &&& config.default_certificate is Some && sources.default_certificate is Some
                    ==> made->0.default_certificate == Some(sources.default_certificate->0@)
                &&& config.default_certificate is None || sources.default_certificate is None
                    ==> made->0.default_certificate == defaults.default_certificate
                &&& config.default_key is Some && sources.default_key is Some
                    ==> made->0.default_key == Some(sources.default_key->0@)
                &&& config.default_key is None || sources.default_key is None
                    ==> made->0.default_key == defaults.default_key
            }
        }),
{
}

/// A configuration is its fields, and each is seen as it is.
pub proof fn configurations_are_their_fields(
    http: HttpProxyConfiguration,
    tls: TlsProxyConfiguration,
)
    ensures
        http@.front == http.front,
        http@.public_address == http.public_address,
        http@.max_connections == http.max_connections,
        http@.buffer_size == http.buffer_size,
        http@.answer_404 == http.answer_404@,
        http@.answer_503 == http.answer_503@,
        tls@.front == tls.front,
        tls@.public_address == tls.public_address,
        tls@.max_connections == tls.max_connections,
        tls@.buffer_size == tls.buffer_size,
        tls@.answer_404 == tls.answer_404@,
        tls@.answer_503 == tls.answer_503@,
        tls@.cipher_list == tls.cipher_list@,
        tls@.default_app_id is Some <==> tls.default_app_id is Some,
        tls.default_app_id is Some ==> tls@.default_app_id->0 == tls.default_app_id->0@,
        tls@.default_certificate is Some <==> tls.default_certificate is Some,
        tls.default_certificate is Some ==> tls@.default_certificate->0
            == tls.default_certificate->0@,
        tls@.default_certificate_chain is Some <==> tls.default_certificate_chain is Some,
        tls.default_certificate_chain is Some ==> tls@.default_certificate_chain->0
            == tls.default_certificate_chain->0@,
        tls@.default_key is Some <==> tls.default_key is Some,
        tls.default_key is Some ==> tls@.default_key->0 == tls.default_key->0@,
{
}

/// The fields of a section do not interfere: where two sections agree on what
/// decides a field of the HTTPS proxy, that field comes out the same, however
/// they differ otherwise.
pub proof fn fields_of_a_section_do_not_interfere(
    config: ProxyConfig,
    other: ProxyConfig,
    sources: TlsSources,
    defaults: TlsProxyConfigurationView,
)
    requires
        sources.proxy.front is Some,
    ensures
        ({
            let made = config.tls_configuration(sources, defaults);
            let made2 = other.tls_configuration(sources, defaults);
            &&& made is Some && made2 is Some
            &&& made->0.front == made2->0.front
            &&& config.max_connections == other.max_connections ==> made->0.max_connections
                == made2->0.max_connections
            &&& config.buffer_size == other.buffer_size ==> made->0.buffer_size
                == made2->0.buffer_size
            &&& config.public_address == other.public_address ==> made->0.public_address
                == made2->0.public_address
            &&& config.answer_404 == other.answer_404 ==> made->0.answer_404
                == made2->0.answer_404
            &&& config.answer_503 == other.answer_503 ==> made->0.answer_503
                == made2->0.answer_503
            &&& config.cipher_list == other.cipher_list ==> made->0.cipher_list
                == made2->0.cipher_list
            &&& config.default_app_id == other.default_app_id ==> made->0.default_app_id
                == made2->0.default_app_id
            &&& config.default_certificate == other.default_certificate
                ==> made->0.default_certificate == made2->0.default_certificate
            &&& config.default_certificate_chain == other.default_certificate_chain
                ==> made->0.default_certificate_chain == made2->0.default_certificate_chain
            &&& config.default_key == other.default_key ==> made->0.default_key
                == made2->0.default_key
        }),
{
}

} // verus!
