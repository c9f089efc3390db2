use loungy::ipc::{bind_decision, BindDecision};
use smol::net::unix::{UnixListener, UnixStream};

// Two bind attempts on the same address: the operating system lets exactly
// one own the listener; the other's probe connect succeeds and the bind
// decision refuses to start.
#[test]
fn second_instance_observes_already_running() {
    let path = "/tmp/loungy_singleton_test.sock";
    smol::block_on(async {
        let _ = smol::fs::remove_file(path).await;

        // first instance: probe finds nothing, binds
        let probe = UnixStream::connect(path).await;
        let decision = bind_decision(probe.is_ok(), false);
        assert_eq!(decision, BindDecision::Bind);
        let first = UnixListener::bind(path).expect("first bind must win");

        // second instance: probe reaches the live listener, bind refused
        let probe = UnixStream::connect(path).await;
        let decision = bind_decision(probe.is_ok(), true);
        assert_eq!(decision, BindDecision::AlreadyRunning);

        // and the address itself cannot be bound a second time
        assert!(UnixListener::bind(path).is_err());

        drop(first);
        let _ = smol::fs::remove_file(path).await;
    });
}

// A dead address file is stale: the probe fails, and the decision is to
// remove it before binding.
#[test]
fn stale_socket_file_is_removed_then_bound() {
    let path = "/tmp/loungy_stale_test.sock";
    smol::block_on(async {
        let _ = smol::fs::remove_file(path).await;
        let first = UnixListener::bind(path).expect("bind on a free address");
        drop(first);
        // the file is still there, but nothing listens
        let probe = UnixStream::connect(path).await;
        assert!(probe.is_err());
        let decision = bind_decision(probe.is_ok(), true);
        assert_eq!(decision, BindDecision::RemoveStaleAndBind);
        let _ = smol::fs::remove_file(path).await;
        let again = UnixListener::bind(path).expect("bind after removing the stale file");
        drop(again);
        let _ = smol::fs::remove_file(path).await;
    });
}
