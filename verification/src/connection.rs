//! How the proxy is dialled and how the subscription is opened.

use vstd::prelude::*;

verus! {

/// The keep-alive and time-out settings of a connection, in seconds. They are
/// short, so that a connection that has gone silent is given up within
/// seconds.
#[derive(Clone, Copy, Debug, PartialEq, Eq, Structural)]
pub struct ChannelSettings {
    /// Whether pings go out while no call is open.
    pub keep_alive_while_idle: bool,
    /// Seconds between two pings.
    pub keep_alive_interval_secs: u64,
    /// Seconds to wait for the answer to a ping.
    pub keep_alive_timeout_secs: u64,
    /// Seconds of silence before the transport probes the peer.
    pub tcp_keepalive_secs: u64,
    /// Seconds to wait for the dial.
    pub connect_timeout_secs: u64,
}

impl ChannelSettings {
    /// The settings every session dials with.
    pub fn standard() -> (settings: Self)
        ensures
            settings == (ChannelSettings {
                keep_alive_while_idle: true,
                keep_alive_interval_secs: 5,
                keep_alive_timeout_secs: 10,
                tcp_keepalive_secs: 15,
                connect_timeout_secs: 5,
            }),
    {
        ChannelSettings {
            keep_alive_while_idle: true,
            keep_alive_interval_secs: 5,
            keep_alive_timeout_secs: 10,
            tcp_keepalive_secs: 15,
            connect_timeout_secs: 5,
        }
    }
}

/// The header that carries the token, by name and value, where a token is
/// configured; none otherwise.
pub fn subscription_header<'a>(x_token: Option<&'a str>) -> (header: Option<
    (&'static str, &'a str),
>)
    ensures
        header == match x_token {
            Some(token) => Some(("x-token", token)),
            None => None,
        },
{
    match x_token {
        Some(token) => Some(("x-token", token)),
        None => None,
    }
}

} // verus!
