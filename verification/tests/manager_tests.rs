use std::io::Read;
use std::time::Duration;

use serialport::SerialPort;

use roboctl::manager::{CommandError, ConnectionManager, ManagerError, Notification};
use roboctl::parser::{parse, ParseError};

#[test]
fn send_before_connect_fails_not_connected() {
    let mut mgr = ConnectionManager::new();
    let p = parse("stop").unwrap();
    assert_eq!(mgr.send(&p), Err(ManagerError::NotConnected));
}

#[test]
fn is_connected_reports_state_and_notifies() {
    let mgr = ConnectionManager::new();
    let (b, n) = mgr.is_connected();
    assert!(!b);
    assert_eq!(n, Notification::Connected(false));
}

#[test]
fn connect_failure_notifies_false() {
    let mut mgr = ConnectionManager::new();
    let (res, note) = mgr.connect("/dev/this-port-does-not-exist");
    assert!(matches!(res, Err(ManagerError::TransportOpenFailure(_))));
    assert_eq!(note, Notification::Connected(false));
    let (b, _) = mgr.is_connected();
    assert!(!b);
}

#[test]
fn disconnect_while_disconnected_is_an_error() {
    let mut mgr = ConnectionManager::new();
    let (res, note) = mgr.disconnect();
    assert_eq!(res, Err(ManagerError::NotConnected));
    assert_eq!(note, None);
}

#[test]
fn send_command_surfaces_parse_errors() {
    let mut mgr = ConnectionManager::new();
    let r = mgr.send_command("fly up");
    assert_eq!(
        r,
        Err(CommandError::Parse(ParseError::UnknownVerb("fly".to_string())))
    );
    // a parseable line still needs a connection
    assert_eq!(
        mgr.send_command("stop"),
        Err(CommandError::Link(ManagerError::NotConnected))
    );
}

#[test]
fn inbound_frames_are_forwarded_unchanged() {
    let mgr = ConnectionManager::new();
    assert_eq!(
        mgr.on_inbound_frame("pong".to_string()),
        Notification::Inbound("pong".to_string())
    );
}

#[test]
fn error_messages() {
    assert_eq!(ManagerError::NotConnected.message(), "not connected");
    assert_eq!(
        ManagerError::TransportIoFailure("broken pipe".to_string()).message(),
        "Write failed: broken pipe"
    );
    assert_eq!(
        ManagerError::TransportOpenFailure("no such device".to_string()).message(),
        "no such device"
    );
}

#[test]
fn connect_send_disconnect_over_pty() {
    let (mut master, slave) = serialport::TTYPort::pair().expect("pseudo-terminal pair");
    master.set_timeout(Duration::from_secs(5)).expect("timeout");
    let path = slave.name().expect("slave path");

    let mut mgr = ConnectionManager::new();
    let (res, note) = mgr.connect(&path);
    assert!(res.is_ok(), "connect failed: {:?}", res);
    assert_eq!(note, Notification::Connected(true));
    let (b, n) = mgr.is_connected();
    assert!(b);
    assert_eq!(n, Notification::Connected(true));

    // connecting again while connected is a no-op that still succeeds,
    // even with a target that could never be opened
    let (res2, note2) = mgr.connect("/dev/this-port-does-not-exist");
    assert!(res2.is_ok());
    assert_eq!(note2, Notification::Connected(true));

    // a sent packet arrives as its canonical wire text plus a newline
    let p = parse("move forward --steps 5").unwrap();
    mgr.send(&p).expect("send");
    let expected =
        b"{\"cmd\":\"walk\",\"dir\":\"f\",\"steps\":5,\"mode\":\"crawl\",\"step_length\":80}\n";
    let mut got: Vec<u8> = Vec::new();
    let mut buf = [0u8; 256];
    while got.len() < expected.len() {
        let n = master.read(&mut buf).expect("read");
        got.extend_from_slice(&buf[..n]);
    }
    assert_eq!(got, expected);

    // send_command drives the same path
    mgr.send_command("stop").expect("send_command");
    let expected2 = b"{\"cmd\":\"stop\"}\n";
    let mut got2: Vec<u8> = Vec::new();
    while got2.len() < expected2.len() {
        let n = master.read(&mut buf).expect("read");
        got2.extend_from_slice(&buf[..n]);
    }
    assert_eq!(got2, expected2);

    // disconnect flips the state and notifies once
    let (res3, note3) = mgr.disconnect();
    assert!(res3.is_ok());
    assert_eq!(note3, Some(Notification::Connected(false)));
    assert_eq!(mgr.send(&p), Err(ManagerError::NotConnected));
    let (res4, note4) = mgr.disconnect();
    assert_eq!(res4, Err(ManagerError::NotConnected));
    assert_eq!(note4, None);
}

#[test]
fn stream_end_notifies_exactly_once() {
    let (master, slave) = serialport::TTYPort::pair().expect("pseudo-terminal pair");
    let path = slave.name().expect("slave path");

    let mut mgr = ConnectionManager::new();
    let (res, _) = mgr.connect(&path);
    assert!(res.is_ok());

    // the transport fails: the read loop observes the end of the stream
    drop(master);
    let first = mgr.on_stream_end();
    assert_eq!(first, Some(Notification::Connected(false)));
    let second = mgr.on_stream_end();
    assert_eq!(second, None);

    // a subsequent send observes the disconnection
    let p = parse("stop").unwrap();
    assert_eq!(mgr.send(&p), Err(ManagerError::NotConnected));
}
