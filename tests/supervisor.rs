use xelis_miner::config::{MinerConfig, NetworkError};
use xelis_miner::hex::to_hex;
use xelis_miner::supervisor::{
    ConnectionState, GetBlockTemplateResult, InboundFrame, SocketMessage, Supervisor, SupervisorAction,
    SupervisorEvent, RECONNECT_DELAY_MILLIS,
};
use xelis_miner::worker::ThreadNotification;

fn connected() -> Supervisor {
    let mut s = Supervisor::new();
    assert!(matches!(s.step(SupervisorEvent::BackoffElapsed), SupervisorAction::Connect));
    assert!(matches!(s.step(SupervisorEvent::ConnectResponse { status: 101 }), SupervisorAction::Listen));
    assert!(s.is_connected());
    s
}

fn job_block(height: u64) -> Vec<u8> {
    let mut b = vec![0u8; 70];
    b[..8].copy_from_slice(&height.to_be_bytes());
    b
}

#[test]
fn connect_failures_retry_after_backoff() {
    let mut s = Supervisor::new();
    for _ in 0..5 {
        assert!(matches!(s.step(SupervisorEvent::BackoffElapsed), SupervisorAction::Connect));
        assert_eq!(s.connection, ConnectionState::Connecting);
        match s.step(SupervisorEvent::ConnectFailed) {
            SupervisorAction::Wait(ms) => assert_eq!(ms, RECONNECT_DELAY_MILLIS),
            _ => panic!("expected a backoff"),
        }
        assert!(!s.is_connected());
    }
    assert!(matches!(s.step(SupervisorEvent::BackoffElapsed), SupervisorAction::Connect));
    assert!(matches!(s.step(SupervisorEvent::ConnectResponse { status: 503 }), SupervisorAction::Wait(10000)));
    assert_eq!(s.connection, ConnectionState::Disconnected);
}

#[test]
fn acknowledgments_count_once() {
    let mut s = connected();
    let a = s.step(SupervisorEvent::Inbound(InboundFrame::Message(SocketMessage::BlockAccepted)));
    assert!(matches!(a, SupervisorAction::Listen));
    assert_eq!((s.accepted, s.rejected), (1, 0));
    let a = s.step(SupervisorEvent::Inbound(InboundFrame::Message(SocketMessage::BlockRejected)));
    assert!(matches!(a, SupervisorAction::Listen));
    assert_eq!((s.accepted, s.rejected), (1, 1));
}

#[test]
fn job_is_decoded_and_broadcast() {
    let mut s = connected();
    let block = job_block(42);
    let job = GetBlockTemplateResult { template: to_hex(&block), difficulty: 900 };
    match s.step(SupervisorEvent::Inbound(InboundFrame::Message(SocketMessage::NewJob(job)))) {
        SupervisorAction::Broadcast(ThreadNotification::NewJob(b, d)) => {
            assert_eq!(b, block);
            assert_eq!(d, 900);
        },
        _ => panic!("expected a broadcast"),
    }
    assert_eq!(s.height, 42);
}

#[test]
fn corrupt_job_is_dropped_and_reconnects() {
    let mut s = connected();
    let job = GetBlockTemplateResult { template: b"zz".to_vec(), difficulty: 900 };
    let a = s.step(SupervisorEvent::Inbound(InboundFrame::Message(SocketMessage::NewJob(job))));
    assert!(matches!(a, SupervisorAction::Wait(10000)));
    assert!(!s.is_connected());
    assert_eq!((s.height, s.accepted, s.rejected), (0, 0, 0));
    assert!(matches!(s.step(SupervisorEvent::BackoffElapsed), SupervisorAction::Connect));

    // hex text, but shorter than a header
    let mut s = connected();
    let job = GetBlockTemplateResult { template: b"00ff".to_vec(), difficulty: 900 };
    let a = s.step(SupervisorEvent::Inbound(InboundFrame::Message(SocketMessage::NewJob(job))));
    assert!(matches!(a, SupervisorAction::Wait(10000)));
    assert!(!s.is_connected());
    assert_eq!(s.height, 0);
}

#[test]
fn close_and_send_failure_reconnect() {
    let mut s = connected();
    assert!(matches!(s.step(SupervisorEvent::Inbound(InboundFrame::Closed)), SupervisorAction::Wait(10000)));
    assert!(!s.is_connected());
    let mut s = connected();
    assert!(matches!(s.step(SupervisorEvent::Inbound(InboundFrame::Malformed)), SupervisorAction::Wait(10000)));
    let mut s = connected();
    assert!(matches!(s.step(SupervisorEvent::SendFailed), SupervisorAction::Wait(10000)));
    assert!(matches!(s.step(SupervisorEvent::BackoffElapsed), SupervisorAction::Connect));
}

#[test]
fn solution_is_submitted_as_hex() {
    let mut s = connected();
    match s.step(SupervisorEvent::SolutionFound(vec![0xde, 0xad])) {
        SupervisorAction::Submit(t) => assert_eq!(t, b"dead".to_vec()),
        _ => panic!("expected a submission"),
    }
    let mut d = Supervisor::new();
    assert!(matches!(d.step(SupervisorEvent::SolutionFound(vec![1])), SupervisorAction::Ignore));
}

#[test]
fn stop_broadcasts_exit_once() {
    let mut s = connected();
    assert!(matches!(s.step(SupervisorEvent::Stop), SupervisorAction::Broadcast(ThreadNotification::Exit)));
    assert!(!s.is_connected());
    assert!(matches!(s.step(SupervisorEvent::BackoffElapsed), SupervisorAction::Ignore));
}

fn config(num_threads: u8) -> MinerConfig {
    MinerConfig {
        miner_address: String::from("addr"),
        daemon_address: String::from("127.0.0.1:8080"),
        log_level: String::from("info"),
        benchmark: false,
        iterations: 100_000,
        disable_file_logging: false,
        filename_log: String::from("xelis-miner.log"),
        num_threads,
        worker: String::from("default"),
    }
}

#[test]
fn thread_count_resolution() {
    assert_eq!(config(4).threads(16), 4);
    assert_eq!(config(0).threads(16), 16);
    assert_eq!(config(0).threads(1000), 255);
    assert_eq!(config(0).threads(0), 1);
    assert_eq!(NetworkError::AlreadyRunning, NetworkError::AlreadyRunning);
}
