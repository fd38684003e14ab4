use lob::connectivity::{HTTPTradingServer, HTTPTradingServerConfig};
use lob::sequencer::{AtomicMonotonicSequencer, OrderSequencer};

#[test]
fn test_sequencer_counts_from_one_strictly_increasing() {
    let mut sequencer = AtomicMonotonicSequencer::new();
    assert_eq!(sequencer.next_order_id(), 1);
    assert_eq!(sequencer.next_order_id(), 2);
    assert_eq!(sequencer.next_order_id(), 3);
}

#[test]
fn test_http_server_config_defaults() {
    let server = HTTPTradingServer::new(HTTPTradingServerConfig {
        host: None,
        port: None,
        max_connections: None,
    });
    assert_eq!(server.host, "localhost");
    assert_eq!(server.port, 8080);
    assert_eq!(server.max_connections, 100);

    let server = HTTPTradingServer::new(HTTPTradingServerConfig {
        host: Some("0.0.0.0"),
        port: Some(9000),
        max_connections: Some(7),
    });
    assert_eq!(server.host, "0.0.0.0");
    assert_eq!(server.port, 9000);
    assert_eq!(server.max_connections, 7);
}
