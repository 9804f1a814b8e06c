use replication::lifecycle::{ConnEvent, ConnState, Connection};

#[test]
fn accept_then_snapshot_then_established() {
    let mut c = Connection::accept(1);
    assert_eq!(c.state, ConnState::Connecting);
    assert!(!c.step(ConnEvent::Accepted));
    assert_eq!(c.state, ConnState::LoggingIn);
    // the full-snapshot burst is owed exactly at this transition
    assert!(c.step(ConnEvent::SnapshotSent));
    assert_eq!(c.state, ConnState::Established);
}

#[test]
fn no_second_snapshot_burst() {
    let mut c = Connection::accept(1);
    let _ = c.step(ConnEvent::Accepted);
    assert!(c.step(ConnEvent::SnapshotSent));
    // an established connection never receives a second burst
    assert!(!c.step(ConnEvent::SnapshotSent));
    assert_eq!(c.state, ConnState::Established);
    // nor does a duplicate accept reset it
    assert!(!c.step(ConnEvent::Accepted));
    assert_eq!(c.state, ConnState::Established);
    assert!(!c.step(ConnEvent::SnapshotSent));
}

#[test]
fn snapshot_before_login_is_ignored() {
    let mut c = Connection::accept(2);
    assert!(!c.step(ConnEvent::SnapshotSent));
    assert_eq!(c.state, ConnState::Connecting);
}

#[test]
fn disconnect_is_terminal() {
    let mut c = Connection::accept(3);
    let _ = c.step(ConnEvent::Accepted);
    assert!(!c.step(ConnEvent::SocketError));
    assert_eq!(c.state, ConnState::Disconnected);
    assert!(!c.step(ConnEvent::Accepted));
    assert!(!c.step(ConnEvent::SnapshotSent));
    assert_eq!(c.state, ConnState::Disconnected);
}

#[test]
fn logoff_disconnects() {
    let mut c = Connection::accept(4);
    let _ = c.step(ConnEvent::Accepted);
    let _ = c.step(ConnEvent::SnapshotSent);
    assert!(!c.step(ConnEvent::Logoff));
    assert_eq!(c.state, ConnState::Disconnected);
}
