use nu_plugin_ws::bridge::WebSocketClient;
use nu_plugin_ws::errors::WsError;
use nu_protocol::Signals;
use std::sync::atomic::AtomicBool;
use std::sync::mpsc;
use std::sync::Arc;

#[test]
fn undersized_reads_drain_one_chunk_before_the_next() {
    let (tx, rx) = mpsc::sync_channel::<Vec<u8>>(16);
    let mut client = WebSocketClient::new(rx, Some(500_000_000), Signals::empty());
    tx.send(b"abcde\n".to_vec()).unwrap();
    tx.send(b"xyz\n".to_vec()).unwrap();
    assert_eq!(client.read(3).unwrap(), b"abc".to_vec());
    assert_eq!(client.read(3).unwrap(), b"de\n".to_vec());
    assert_eq!(client.read(3).unwrap(), b"xyz".to_vec());
    assert_eq!(client.read(3).unwrap(), b"\n".to_vec());
}

#[test]
fn zero_duration_deadline_first_read_returns_zero() {
    let (_tx, rx) = mpsc::sync_channel::<Vec<u8>>(16);
    let mut client = WebSocketClient::new(rx, Some(0), Signals::empty());
    let first = client.read(10).unwrap();
    assert_eq!(first.len(), 0);
    let second = client.read(10).unwrap();
    assert_eq!(second.len(), 0);
}

#[test]
fn cancellation_interrupts_a_polling_read() {
    let (_tx, rx) = mpsc::sync_channel::<Vec<u8>>(16);
    let flag = Arc::new(AtomicBool::new(true));
    let mut client = WebSocketClient::new(rx, None, Signals::new(flag));
    let result = client.read(10);
    assert!(matches!(result, Err(WsError::ReadInterrupted)));
}

#[test]
fn cancellation_does_not_lose_buffered_bytes() {
    let (tx, rx) = mpsc::sync_channel::<Vec<u8>>(16);
    let flag = Arc::new(AtomicBool::new(false));
    let signals = Signals::new(flag);
    let mut client = WebSocketClient::new(rx, None, signals.clone());
    tx.send(b"hello\n".to_vec()).unwrap();
    assert_eq!(client.read(3).unwrap(), b"hel".to_vec());
    signals.trigger();
    // The unconsumed tail of the chunk is still served; only a poll fails.
    assert_eq!(client.read(10).unwrap(), b"lo\n".to_vec());
    assert!(matches!(client.read(10), Err(WsError::ReadInterrupted)));
}

#[test]
fn producer_gone_yields_terminal_zero_and_stays_terminal() {
    let (tx, rx) = mpsc::sync_channel::<Vec<u8>>(16);
    let mut client = WebSocketClient::new(rx, None, Signals::empty());
    tx.send(b"last\n".to_vec()).unwrap();
    drop(tx);
    assert_eq!(client.read(100).unwrap(), b"last\n".to_vec());
    assert_eq!(client.read(100).unwrap().len(), 0);
    assert_eq!(client.read(100).unwrap().len(), 0);
    assert_eq!(client.read(1).unwrap().len(), 0);
}

#[test]
fn two_connections_never_cross_deliver() {
    let (tx_a, rx_a) = mpsc::sync_channel::<Vec<u8>>(16);
    let (tx_b, rx_b) = mpsc::sync_channel::<Vec<u8>>(16);
    let mut client_a = WebSocketClient::new(rx_a, Some(200_000_000), Signals::empty());
    let mut client_b = WebSocketClient::new(rx_b, Some(200_000_000), Signals::empty());
    tx_a.send(b"for a\n".to_vec()).unwrap();
    tx_b.send(b"for b\n".to_vec()).unwrap();
    assert_eq!(client_a.read(100).unwrap(), b"for a\n".to_vec());
    assert_eq!(client_b.read(100).unwrap(), b"for b\n".to_vec());
    // Each stream is drained: neither ever sees the other's chunk.
    assert_eq!(client_a.read(100).unwrap().len(), 0);
    assert_eq!(client_b.read(100).unwrap().len(), 0);
}

#[test]
fn zero_sized_buffer_reads_no_bytes_and_keeps_data() {
    let (tx, rx) = mpsc::sync_channel::<Vec<u8>>(16);
    let mut client = WebSocketClient::new(rx, Some(500_000_000), Signals::empty());
    tx.send(b"kept\n".to_vec()).unwrap();
    assert_eq!(client.read(0).unwrap().len(), 0);
    assert_eq!(client.read(100).unwrap(), b"kept\n".to_vec());
}
