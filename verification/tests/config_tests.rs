use order_propagation::config::{Config, ConfigError};
use std::time::Duration;

fn base_config() -> Config {
    Config {
        latency_ms: 0,
        time_to_live: 0,
        num_nodes: 1_000,
        num_neighbors: 24,
        num_peers: 8,
        num_runs: 0,
    }
}

#[test]
fn test_config() {
    let config = Config {
        latency_ms: 0,
        time_to_live: 0,
        num_nodes: 1_000,
        num_neighbors: 24,
        num_peers: 8,
        num_runs: 0,
    };

    assert!(Config::validate_config(config.clone()).is_ok());

    // Not enough nodes for neighbors
    let mut config_0 = config.clone();
    config_0.num_nodes = 24;
    let e_0 = Config::validate_config(config_0.clone()).err().unwrap();
    assert_eq!(
        e_0.to_string(),
        "There must be more nodes (= 24) than neighbors (= 24)"
    );

    // Not enough neighbors for peers
    let mut config_1 = config.clone();
    config_1.num_neighbors = 7;
    let e_1 = Config::validate_config(config_1.clone()).err().unwrap();
    assert_eq!(
        e_1.to_string(),
        "More peers (= 8) than neighbors available (= 7)"
    );

    // Not enough peers
    let mut config_2 = config.clone();
    config_2.num_peers = 0;
    let e_2 = Config::validate_config(config_2.clone()).err().unwrap();
    assert_eq!(e_2.to_string(), "num_peers can't be 0");
}

#[test]
fn valid_config_comes_back_unchanged() {
    let checked = Config::validate_config(base_config()).unwrap();
    assert_eq!(checked.latency_ms, 0);
    assert_eq!(checked.time_to_live, 0);
    assert_eq!(checked.num_nodes, 1_000);
    assert_eq!(checked.num_neighbors, 24);
    assert_eq!(checked.num_peers, 8);
    assert_eq!(checked.num_runs, 0);
}

#[test]
fn each_rejection_has_its_own_variant() {
    let mut no_peers = base_config();
    no_peers.num_peers = 0;
    assert_eq!(
        Config::validate_config(no_peers).err().unwrap(),
        ConfigError::NoPeers
    );

    let mut too_many_peers = base_config();
    too_many_peers.num_peers = 25;
    assert_eq!(
        Config::validate_config(too_many_peers).err().unwrap(),
        ConfigError::TooManyPeers { num_peers: 25, num_neighbors: 24 }
    );

    let mut too_few_nodes = base_config();
    too_few_nodes.num_nodes = 3;
    assert_eq!(
        Config::validate_config(too_few_nodes).err().unwrap(),
        ConfigError::TooFewNodes { num_nodes: 3, num_neighbors: 24 }
    );
}

#[test]
fn zero_peers_is_reported_before_anything_else() {
    let config = Config {
        latency_ms: 5,
        time_to_live: 1,
        num_nodes: 0,
        num_neighbors: 0,
        num_peers: 0,
        num_runs: 1,
    };
    assert_eq!(
        Config::validate_config(config).err().unwrap(),
        ConfigError::NoPeers
    );
}

#[test]
fn peers_are_checked_before_nodes() {
    let config = Config {
        latency_ms: 5,
        time_to_live: 1,
        num_nodes: 2,
        num_neighbors: 7,
        num_peers: 8,
        num_runs: 1,
    };
    assert_eq!(
        Config::validate_config(config).err().unwrap().to_string(),
        "More peers (= 8) than neighbors available (= 7)"
    );
}

#[test]
fn as_many_peers_as_neighbors_is_accepted() {
    let mut config = base_config();
    config.num_peers = 24;
    assert!(Config::validate_config(config).is_ok());
    config.num_nodes = 25;
    assert!(Config::validate_config(config).is_ok());
}

#[test]
fn messages_write_numbers_in_full() {
    let big = ConfigError::TooManyPeers { num_peers: u64::MAX, num_neighbors: 0 };
    assert_eq!(
        big.to_string(),
        "More peers (= 18446744073709551615) than neighbors available (= 0)"
    );
    let round = ConfigError::TooFewNodes { num_nodes: 100, num_neighbors: 1_000_000 };
    assert_eq!(
        round.to_string(),
        "There must be more nodes (= 100) than neighbors (= 1000000)"
    );
    let digits = ConfigError::TooFewNodes { num_nodes: 1234567890, num_neighbors: 9876543210 };
    assert_eq!(
        digits.to_string(),
        "There must be more nodes (= 1234567890) than neighbors (= 9876543210)"
    );
}

#[test]
fn load_validates_the_values_it_is_given() {
    let loaded = Config::load(10, 5, 1_000, 24, 8, 3).unwrap();
    assert_eq!(loaded.latency_ms, 10);
    assert_eq!(loaded.time_to_live, 5);
    assert_eq!(loaded.num_nodes, 1_000);
    assert_eq!(loaded.num_neighbors, 24);
    assert_eq!(loaded.num_peers, 8);
    assert_eq!(loaded.num_runs, 3);

    assert_eq!(
        Config::load(10, 5, 24, 24, 8, 3).err().unwrap().to_string(),
        "There must be more nodes (= 24) than neighbors (= 24)"
    );
    assert_eq!(
        Config::load(10, 5, 1_000, 24, 0, 3).err().unwrap().to_string(),
        "num_peers can't be 0"
    );
}

#[test]
fn latency_is_counted_in_milliseconds() {
    let mut config = base_config();
    assert_eq!(config.latency(), Duration::ZERO);
    config.latency_ms = 250;
    assert_eq!(config.latency(), Duration::from_millis(250));
    assert_ne!(config.latency(), Duration::from_secs(250));
}
