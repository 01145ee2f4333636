use rigel::lifecycle::{stream_url, ServerState};
use tokio::sync::oneshot;

#[test]
fn stop_with_nothing_running_is_a_noop_success() {
    let mut state = ServerState::new();
    let msg = state.stop();
    assert_eq!(msg, "No server running");
}

#[test]
fn stop_fires_the_stored_signal() {
    let mut state = ServerState::new();
    let (tx, mut rx) = oneshot::channel::<()>();
    let superseded = state.install(tx);
    assert!(!superseded);
    let msg = state.stop();
    assert_eq!(msg, "Server stopped");
    assert!(rx.try_recv().is_ok());
    // A second stop finds nothing running.
    assert_eq!(state.stop(), "No server running");
}

#[test]
fn starting_again_supersedes_the_first_instance() {
    let mut state = ServerState::new();
    let (tx1, mut rx1) = oneshot::channel::<()>();
    let (tx2, mut rx2) = oneshot::channel::<()>();
    assert!(!state.install(tx1));
    // Installing the second signal fires the first: the old instance is
    // shut down by the time the new one is reachable.
    assert!(state.install(tx2));
    assert!(rx1.try_recv().is_ok());
    assert!(rx2.try_recv().is_err());
    let msg = state.stop();
    assert_eq!(msg, "Server stopped");
    assert!(rx2.try_recv().is_ok());
}

#[test]
fn superseding_a_gone_receiver_is_harmless() {
    let mut state = ServerState::new();
    let (tx1, rx1) = oneshot::channel::<()>();
    drop(rx1);
    assert!(!state.install(tx1));
    let (tx2, mut rx2) = oneshot::channel::<()>();
    assert!(state.install(tx2));
    let msg = state.stop();
    assert_eq!(msg, "Server stopped");
    assert!(rx2.try_recv().is_ok());
}

#[test]
fn stream_url_formats_port() {
    assert_eq!(stream_url(8080), "http://127.0.0.1:8080/video");
    assert_eq!(stream_url(1), "http://127.0.0.1:1/video");
    assert_eq!(stream_url(65535), "http://127.0.0.1:65535/video");
}
