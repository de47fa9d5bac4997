//! Simulation parameters and the rules a parameter set has to meet.
use std::time::Duration;
use vstd::prelude::*;
use vstd::string::*;

verus! {

/// Scalar parameters of one simulation.
#[derive(Clone, Copy, Debug)]
pub struct Config {
    /// Latency between nodes in milliseconds
    pub latency_ms: u64,
    /// Packets' time to live
    pub time_to_live: u64,
    /// Number of nodes in the network
    pub num_nodes: u64,
    /// Number of connected neighbors in the network
    pub num_neighbors: u64,
    /// Number of nodes to gossip to
    pub num_peers: u64,
    /// Number of packets to send into the network
    pub num_runs: u64,
}

/// Why a parameter set was turned down.
#[derive(Clone, Copy, Debug, PartialEq, Eq, Structural)]
pub enum ConfigError {
    /// The re-broadcast fan-out is zero.
    NoPeers,
    /// The re-broadcast fan-out exceeds the number of neighbors.
    TooManyPeers { num_peers: u64, num_neighbors: u64 },
    /// Every node needs `num_neighbors` other nodes to pick from.
    TooFewNodes { num_nodes: u64, num_neighbors: u64 },
}

/// The span of time that `Duration::from_millis` makes of a number of
/// milliseconds.
pub uninterp spec fn millis_span(millis: u64) -> Duration;

/// `Duration::from_millis` builds a span from whole milliseconds; the span
/// depends on their number alone, and the contract names it.
pub assume_specification[ Duration::from_millis ](millis: u64) -> (span: Duration)
    ensures
        span == millis_span(millis),
;

/// The text of one decimal digit.
pub open spec fn digit_text(d: nat) -> Seq<char> {
    if d == 0 {
        "0"@
    } else if d == 1 {
        "1"@
    } else if d == 2 {
        "2"@
    } else if d == 3 {
        "3"@
    } else if d == 4 {
        "4"@
    } else if d == 5 {
        "5"@
    } else if d == 6 {
        "6"@
    } else if d == 7 {
        "7"@
    } else if d == 8 {
        "8"@
    } else {
        "9"@
    }
}

/// `n` written in base ten, most significant digit first, without padding.
pub open spec fn decimal_text(n: nat) -> Seq<char>
    decreases n,
{
    if n < 10 {
        digit_text(n)
    } else {
        decimal_text(n / 10) + digit_text(n % 10)
    }
}

/// The outcome of the validation rules, checked in this order: a fan-out of
/// zero, a fan-out above the neighbor count, a population that does not
/// exceed the neighbor count.
pub open spec fn rejection(config: Config) -> Option<ConfigError> {
    if config.num_peers == 0 {
        Some(ConfigError::NoPeers)
    } else if config.num_peers > config.num_neighbors {
        Some(
            ConfigError::TooManyPeers {
                num_peers: config.num_peers,
                num_neighbors: config.num_neighbors,
            },
        )
    } else if config.num_nodes <= config.num_neighbors {
        Some(
            ConfigError::TooFewNodes {
                num_nodes: config.num_nodes,
                num_neighbors: config.num_neighbors,
            },
        )
    } else {
        None
    }
}

/// What the propagation engine takes for granted about its parameters.
pub open spec fn is_valid(config: Config) -> bool {
    &&& 0 < config.num_peers <= config.num_neighbors
    &&& config.num_neighbors < config.num_nodes
}

/// The diagnostic that belongs to an error.
pub open spec fn error_text(error: ConfigError) -> Seq<char> {
    match error {
        ConfigError::NoPeers => "num_peers can't be 0"@,
        ConfigError::TooManyPeers { num_peers, num_neighbors } => "More peers (= "@ + decimal_text(
            num_peers as nat,
        ) + ") than neighbors available (= "@ + decimal_text(num_neighbors as nat) + ")"@,
        ConfigError::TooFewNodes { num_nodes, num_neighbors } => "There must be more nodes (= "@
            + decimal_text(num_nodes as nat) + ") than neighbors (= "@ + decimal_text(
            num_neighbors as nat,
        ) + ")"@,
    }
}

fn digit_str(d: u64) -> (s: &'static str)
    requires
        d < 10,
    ensures
        s@ == digit_text(d as nat),
{
    if d == 0 {
        "0"
    } else if d == 1 {
        "1"
    } else if d == 2 {
        "2"
    } else if d == 3 {
        "3"
    } else if d == 4 {
        "4"
    } else if d == 5 {
        "5"
    } else if d == 6 {
        "6"
    } else if d == 7 {
        "7"
    } else if d == 8 {
        "8"
    } else {
        "9"
    }
}

fn append_decimal(text: &mut String, n: u64)
    ensures
        final(text)@ == old(text)@ + decimal_text(n as nat),
    decreases n,
{
    if n >= 10 {
        append_decimal(text, n / 10);
    }
    text.append(digit_str(n % 10));
}

impl ConfigError {
    /// The diagnostic as text.
    pub fn to_string(&self) -> (text: String)
        ensures
            text@ == error_text(*self),
    {
        match *self {
            ConfigError::NoPeers => String::from_str("num_peers can't be 0"),
            ConfigError::TooManyPeers { num_peers, num_neighbors } => {
                let mut text = String::from_str("More peers (= ");
                append_decimal(&mut text, num_peers);
                text.append(") than neighbors available (= ");
                append_decimal(&mut text, num_neighbors);
                text.append(")");
                text
            },
            ConfigError::TooFewNodes { num_nodes, num_neighbors } => {
                let mut text = String::from_str("There must be more nodes (= ");
                append_decimal(&mut text, num_nodes);
                text.append(") than neighbors (= ");
                append_decimal(&mut text, num_neighbors);
                text.append(")");
                text
            },
        }
    }
}

impl Config {
    /// Builds a parameter set from its six scalars and validates it.
    pub fn load(
        latency_ms: u64,
        time_to_live: u64,
        num_nodes: u64,
        num_neighbors: u64,
        num_peers: u64,
        num_runs: u64,
    ) -> (result: Result<Config, ConfigError>)
        ensures
            result == Self::checked(
                Config { latency_ms, time_to_live, num_nodes, num_neighbors, num_peers, num_runs },
            ),
    {
        Config::validate_config(
            Config { latency_ms, time_to_live, num_nodes, num_neighbors, num_peers, num_runs },
        )
    }

    /// The latency between two nodes.
    pub fn latency(&self) -> (span: Duration)
        ensures
            span == millis_span(self.latency_ms),
    {
        Duration::from_millis(self.latency_ms)
    }

    /// A parameter set is handed back unchanged when no rule turns it down.
    pub open spec fn checked(config: Config) -> Result<Config, ConfigError> {
        match rejection(config) {
            Some(error) => Err(error),
            None => Ok(config),
        }
    }

    /// Applies the validation rules.
    pub fn validate_config(config: Config) -> (result: Result<Config, ConfigError>)
        ensures
            result == Self::checked(config),
            result.is_ok() <==> is_valid(config),
    {
        if config.num_peers == 0 {
            Err(ConfigError::NoPeers)
        } else if config.num_peers > config.num_neighbors {
            Err(
                ConfigError::TooManyPeers {
                    num_peers: config.num_peers,
                    num_neighbors: config.num_neighbors,
                },
            )
        } else if config.num_nodes <= config.num_neighbors {
            Err(
                ConfigError::TooFewNodes {
                    num_nodes: config.num_nodes,
                    num_neighbors: config.num_neighbors,
                },
            )
        } else {
            Ok(config)
        }
    }
}

} // verus!
