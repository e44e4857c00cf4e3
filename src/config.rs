//! Service configuration: an explicit, immutable value built once at startup and
//! passed to each client and to the aggregator.
use vstd::prelude::*;
use vstd::string::StringExecFns;
use crate::text::{decimal_digits, push_decimal};

verus! {

/// Addresses of the API server and of the frontend server.
#[derive(Clone, Debug)]
pub struct Server {
    pub api_host: String,
    pub api_port: u16,
    pub frontend_host: String,
    pub frontend_port: u16,
}

/// Locations of the frontend files.
#[derive(Clone, Debug)]
pub struct Frontend {
    pub dir: String,
    pub static_dir: String,
    pub templates_dir: String,
    pub index_html: String,
}

/// Endpoints of the streaming exchange.
#[derive(Clone, Debug)]
pub struct BinanceConfig {
    pub ws_url: String,
    pub rest_url: String,
}

/// Endpoint of the first polling exchange.
#[derive(Clone, Debug)]
pub struct KrakenConfig {
    pub url: String,
}

/// Endpoint of the second polling exchange.
#[derive(Clone, Debug)]
pub struct HuobiConfig {
    pub url: String,
}

/// Reconnect and keepalive settings of the streaming session; durations are in
/// seconds.
#[derive(Clone, Copy, Debug)]
pub struct ExchangeConfig {
    pub initial_reconnect_delay: u64,
    pub ping_interval: u64,
    pub max_reconnect_delay: u64,
    pub ping_retry_count: u32,
}

/// Time-decay weighting of exchange prices.
#[derive(Clone, Copy, Debug)]
pub struct PriceWeighting {
    /// Time constant of the decay, in seconds.
    pub decay_factor: u64,
}

/// Settings of all exchanges.
#[derive(Clone, Debug)]
pub struct Exchange {
    pub binance: BinanceConfig,
    pub kraken: KrakenConfig,
    pub huobi: HuobiConfig,
    pub config: ExchangeConfig,
}

/// The whole configuration of the service.
#[derive(Clone, Debug)]
pub struct Settings {
    pub server: Server,
    pub frontend: Frontend,
    pub exchange: Exchange,
    pub price_weighting: PriceWeighting,
}

impl Settings {
    /// The settings used when no configuration file can be loaded.
    pub fn defaults() -> (r: Settings)
        ensures
            r.server.api_host@ == "127.0.0.1"@,
            r.server.api_port == 8080,
            r.server.frontend_host@ == "127.0.0.1"@,
            r.server.frontend_port == 8081,
            r.frontend.dir@ == "frontend"@,
            r.frontend.static_dir@ == "static"@,
            r.frontend.templates_dir@ == "templates"@,
            r.frontend.index_html@ == "index.html"@,
            r.exchange.binance.ws_url@ == "wss://stream.binance.com:9443/ws/btcusdt@depth"@,
            r.exchange.binance.rest_url@
                == "https://api.binance.com/api/v3/depth?symbol=BTCUSDT&limit=1000"@,
            r.exchange.kraken.url@ == "https://api.kraken.com/0/public/Depth?pair=XBTUSDT"@,
            r.exchange.huobi.url@ == "https://api.huobi.pro/market/depth"@,
            r.exchange.config.initial_reconnect_delay == 1,
            r.exchange.config.ping_interval == 30,
            r.exchange.config.max_reconnect_delay == 300,
            r.exchange.config.ping_retry_count == 3,
            r.price_weighting.decay_factor == 300,
    {
        Settings {
            server: Server {
                api_host: String::from_str("127.0.0.1"),
                api_port: 8080,
                frontend_host: String::from_str("127.0.0.1"),
                frontend_port: 8081,
            },
            frontend: Frontend {
                dir: String::from_str("frontend"),
                static_dir: String::from_str("static"),
                templates_dir: String::from_str("templates"),
                index_html: String::from_str("index.html"),
            },
            exchange: Exchange {
                binance: BinanceConfig {
                    ws_url: String::from_str("wss://stream.binance.com:9443/ws/btcusdt@depth"),
                    rest_url: String::from_str(
                        "https://api.binance.com/api/v3/depth?symbol=BTCUSDT&limit=1000",
                    ),
                },
                kraken: KrakenConfig {
                    url: String::from_str("https://api.kraken.com/0/public/Depth?pair=XBTUSDT"),
                },
                huobi: HuobiConfig { url: String::from_str("https://api.huobi.pro/market/depth") },
                config: ExchangeConfig {
                    initial_reconnect_delay: 1,
                    ping_interval: 30,
                    max_reconnect_delay: 300,
                    ping_retry_count: 3,
                },
            },
            price_weighting: PriceWeighting { decay_factor: 300 },
        }
    }
}

/// `host:port`.
pub open spec fn host_port(host: Seq<char>, port: u16) -> Seq<char> {
    host + seq![':'] + decimal_digits(port as nat)
}

/// The WebSocket URL of the streaming exchange.
pub fn get_binance_ws_url(settings: &Settings) -> (r: String)
    ensures
        r@ == settings.exchange.binance.ws_url@,
{
    settings.exchange.binance.ws_url.clone()
}

/// The REST snapshot URL of the streaming exchange.
pub fn get_binance_rest_url(settings: &Settings) -> (r: String)
    ensures
        r@ == settings.exchange.binance.rest_url@,
{
    settings.exchange.binance.rest_url.clone()
}

/// The depth URL of the first polling exchange.
pub fn get_kraken_url(settings: &Settings) -> (r: String)
    ensures
        r@ == settings.exchange.kraken.url@,
{
    settings.exchange.kraken.url.clone()
}

/// The depth URL of the second polling exchange.
pub fn get_huobi_url(settings: &Settings) -> (r: String)
    ensures
        r@ == settings.exchange.huobi.url@,
{
    settings.exchange.huobi.url.clone()
}

/// The first reconnect delay, in seconds.
pub fn get_initial_reconnect_delay(settings: &Settings) -> (r: u64)
    ensures
        r == settings.exchange.config.initial_reconnect_delay,
{
    settings.exchange.config.initial_reconnect_delay
}

/// The keepalive ping interval, in seconds.
pub fn get_ping_interval(settings: &Settings) -> (r: u64)
    ensures
        r == settings.exchange.config.ping_interval,
{
    settings.exchange.config.ping_interval
}

/// The largest reconnect delay, in seconds.
pub fn get_max_reconnect_delay(settings: &Settings) -> (r: u64)
    ensures
        r == settings.exchange.config.max_reconnect_delay,
{
    settings.exchange.config.max_reconnect_delay
}

/// How many times a ping or pong is attempted before the connection is dropped.
pub fn get_ping_retry_count(settings: &Settings) -> (r: u32)
    ensures
        r == settings.exchange.config.ping_retry_count,
{
    settings.exchange.config.ping_retry_count
}

/// The decay time constant of the price weighting, in seconds.
pub fn get_decay_factor(settings: &Settings) -> (r: u64)
    ensures
        r == settings.price_weighting.decay_factor,
{
    settings.price_weighting.decay_factor
}

fn address(prefix: &str, host: &String, port: u16) -> (r: String)
    ensures
        r@ == prefix@ + host_port(host@, port),
{
    let mut out = String::from_str(prefix);
    out.append(host.as_str());
    proof {
        reveal_strlit(":");
    }
    out.append(":");
    push_decimal(&mut out, port as u64);
    assert(out@ =~= prefix@ + host_port(host@, port));
    out
}

/// The API server address, `host:port`.
pub fn get_api_server_addr(settings: &Settings) -> (r: String)
    ensures
        r@ == host_port(settings.server.api_host@, settings.server.api_port),
{
    proof {
        reveal_strlit("");
    }
    let r = address("", &settings.server.api_host, settings.server.api_port);
    assert(r@ =~= host_port(settings.server.api_host@, settings.server.api_port));
    r
}

/// The frontend server address, `host:port`.
pub fn get_frontend_server_addr(settings: &Settings) -> (r: String)
    ensures
        r@ == host_port(settings.server.frontend_host@, settings.server.frontend_port),
{
    proof {
        reveal_strlit("");
    }
    let r = address("", &settings.server.frontend_host, settings.server.frontend_port);
    assert(r@ =~= host_port(settings.server.frontend_host@, settings.server.frontend_port));
    r
}

/// The API server URL, `http://host:port`.
pub fn get_api_server_url(settings: &Settings) -> (r: String)
    ensures
        r@ == "http://"@ + host_port(settings.server.api_host@, settings.server.api_port),
{
    address("http://", &settings.server.api_host, settings.server.api_port)
}

/// The frontend server URL, `http://host:port`.
pub fn get_frontend_server_url(settings: &Settings) -> (r: String)
    ensures
        r@ == "http://"@ + host_port(settings.server.frontend_host@, settings.server.frontend_port),
{
    address("http://", &settings.server.frontend_host, settings.server.frontend_port)
}

/// The frontend directory.
pub fn get_frontend_dir(settings: &Settings) -> (r: String)
    ensures
        r@ == settings.frontend.dir@,
{
    settings.frontend.dir.clone()
}

/// The static files directory, inside the frontend directory.
pub fn get_static_dir(settings: &Settings) -> (r: String)
    ensures
        r@ == settings.frontend.static_dir@,
{
    settings.frontend.static_dir.clone()
}

/// The templates directory, inside the frontend directory.
pub fn get_templates_dir(settings: &Settings) -> (r: String)
    ensures
        r@ == settings.frontend.templates_dir@,
{
    settings.frontend.templates_dir.clone()
}

/// The name of the index page.
pub fn get_index_html(settings: &Settings) -> (r: String)
    ensures
        r@ == settings.frontend.index_html@,
{
    settings.frontend.index_html.clone()
}

} // verus!
