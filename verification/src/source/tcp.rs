//! The source that reads records from TCP connections.

use vstd::prelude::*;
use crate::component::{
    get_pair, get_small_number, pair, small_number, FactoryError, FactoryErrorView,
};
use crate::json::{Json, JsonView};
use crate::source::stream::StreamDecoder;
use crate::source::{Input, InputView, Source, SourceFactory};

verus! {

/// Where a TCP source listens.
#[derive(Debug, PartialEq)]
pub struct Config {
    /// The host and the port.
    pub endpoint: (String, u16),
}

/// Listens on a TCP endpoint and reads a stream of JSON values from every
/// connection.
#[derive(Debug, PartialEq)]
pub struct TcpSource {
    pub host: String,
    pub port: u16,
}

/// What came of waiting for a connection.
#[derive(Debug, PartialEq)]
pub enum Incoming {
    /// A peer connected; its address is known.
    Connected(String),
    /// A peer connected and was gone before it could be asked who it is.
    Anonymous,
    /// Accepting failed; these are the words of the failure.
    Failed(String),
}

/// What the acceptor does with what came.
#[derive(Debug, PartialEq)]
pub enum Accept {
    /// Accept no more.
    Stop,
    /// Read records from this peer on a thread of its own, and go on
    /// accepting.
    Serve(String),
    /// Go on accepting.
    Skip,
    /// Log these words as an error and go on accepting.
    Report(String),
}

/// What [`Accept`] is, with strings as character sequences.
pub enum AcceptView {
    Stop,
    Serve(Seq<char>),
    Skip,
    Report(Seq<char>),
}

impl View for Accept {
    type V = AcceptView;

    open spec fn view(&self) -> AcceptView {
        match self {
            Accept::Stop => AcceptView::Stop,
            Accept::Serve(peer) => AcceptView::Serve(peer@),
            Accept::Skip => AcceptView::Skip,
            Accept::Report(words) => AcceptView::Report(words@),
        }
    }
}

/// What the acceptor does with what came. Once the source is told to
/// abort, whatever comes only wakes the acceptor up to stop.
pub open spec fn accept_step(aborted: bool, incoming: Incoming) -> AcceptView {
    if aborted {
        AcceptView::Stop
    } else {
        match incoming {
            Incoming::Connected(peer) => AcceptView::Serve(peer@),
            Incoming::Anonymous => AcceptView::Skip,
            Incoming::Failed(words) => AcceptView::Report(
                "unable to accept TCP connection: "@ + words@,
            ),
        }
    }
}

impl TcpSource {
    /// A source that listens on `host` and `port`.
    pub fn new(host: &str, port: u16) -> (source: TcpSource)
        ensures
            source.host@ == host@,
            source.port == port,
    {
        TcpSource { host: host.to_owned(), port }
    }

    /// What the acceptor does with what came.
    pub fn accept(&self, aborted: bool, incoming: Incoming) -> (next: Accept)
        ensures
            next@ == accept_step(aborted, incoming),
    {
        if aborted {
            return Accept::Stop;
        }
        match incoming {
            Incoming::Connected(peer) => Accept::Serve(peer),
            Incoming::Anonymous => Accept::Skip,
            Incoming::Failed(words) => Accept::Report(
                "unable to accept TCP connection: ".to_owned().concat(words.as_str()),
            ),
        }
    }

    /// The framer for one connection. Its reader sends on every record that
    /// it hands out, and ends when the peer closes or sends what is no JSON;
    /// that ends the reader and nothing else.
    pub fn decoder(&self) -> (decoder: StreamDecoder)
        ensures
            decoder@ == Seq::<u8>::empty(),
    {
        StreamDecoder::new()
    }
}

impl Source for TcpSource {

}

/// The configuration that `cfg` spells: its `endpoint` has to be there, a
/// host and a port.
pub open spec fn tcp_config_of(cfg: JsonView) -> Result<(Seq<char>, u16), FactoryErrorView> {
    match cfg.lookup("endpoint"@) {
        None => Err(FactoryErrorView::MissingField("endpoint"@)),
        Some(endpoint) => match pair(endpoint) {
            Some((JsonView::Str(host), port)) => match small_number(port) {
                Some(port) => Ok((host, port)),
                None => Err(FactoryErrorView::InvalidField("endpoint"@)),
            },
            _ => Err(FactoryErrorView::InvalidField("endpoint"@)),
        },
    }
}

/// The TCP source that `cfg` describes.
pub open spec fn tcp_source_of(cfg: JsonView) -> Result<InputView, FactoryErrorView> {
    match tcp_config_of(cfg) {
        Ok((host, port)) => Ok(InputView::Tcp(host, port)),
        Err(error) => Err(error),
    }
}

impl Config {
    /// The configuration that `cfg` spells.
    pub fn read(cfg: &Json) -> (config: Result<Config, FactoryError>)
        ensures
            match config {
                Ok(config) => tcp_config_of(cfg@) == Ok::<(Seq<char>, u16), FactoryErrorView>(
                    (config.endpoint.0@, config.endpoint.1),
                ),
                Err(error) => tcp_config_of(cfg@) == Err::<(Seq<char>, u16), FactoryErrorView>(
                    error@,
                ),
            },
    {
        let endpoint = match cfg.lookup("endpoint") {
            Some(endpoint) => endpoint,
            None => {
                return Err(FactoryError::MissingField("endpoint".to_owned()));
            },
        };
        match get_pair(endpoint) {
            Some((Json::Str(host), port)) => match get_small_number(port) {
                Some(port) => Ok(Config { endpoint: (host.clone(), port) }),
                None => Err(FactoryError::InvalidField("endpoint".to_owned())),
            },
            _ => Err(FactoryError::InvalidField("endpoint".to_owned())),
        }
    }
}

impl SourceFactory for TcpSource {
    open spec fn name() -> Seq<char> {
        "tcp"@
    }

    open spec fn made_from(cfg: JsonView) -> Result<InputView, FactoryErrorView> {
        tcp_source_of(cfg)
    }

    fn ty() -> (name: &'static str) {
        "tcp"
    }

    fn run(cfg: &Json) -> (made: Result<Input, FactoryError>) {
        match Config::read(cfg) {
            Ok(config) => Ok(Input::Tcp(TcpSource { host: config.endpoint.0, port: config.endpoint.1 })),
            Err(error) => Err(error),
        }
    }
}

} // verus!
