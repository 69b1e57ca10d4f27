use std::hash::DefaultHasher;
use std::hash::Hash;
use std::hash::Hasher;
use std::path::PathBuf;
use std::time::Duration;

use tmux_agent_sidebar::runtime;
use tmux_agent_sidebar::shared_snapshot;
use tmux_agent_sidebar::shared_snapshot::cache::PaneInfo;
use tmux_agent_sidebar::shared_snapshot::cache::PaneProcessSnapshot;
use tmux_agent_sidebar::shared_snapshot::cache::SessionInfo;
use tmux_agent_sidebar::shared_snapshot::cache::SessionQuery;
use tmux_agent_sidebar::shared_snapshot::cache::SnapshotAction;
use tmux_agent_sidebar::shared_snapshot::cache::SnapshotCache;
use tmux_agent_sidebar::shared_snapshot::cache::SnapshotEvent;
use tmux_agent_sidebar::shared_snapshot::cache::WindowInfo;
use tmux_agent_sidebar::shared_snapshot::client;
use tmux_agent_sidebar::shared_snapshot::client::Client;
use tmux_agent_sidebar::shared_snapshot::client::ClientStep;
use tmux_agent_sidebar::shared_snapshot::daemon;
use tmux_agent_sidebar::shared_snapshot::daemon::Accepted;
use tmux_agent_sidebar::shared_snapshot::daemon::Daemon;
use tmux_agent_sidebar::shared_snapshot::daemon::DaemonEvent;
use tmux_agent_sidebar::shared_snapshot::daemon::DaemonStage;
use tmux_agent_sidebar::shared_snapshot::daemon::DaemonStep;
use tmux_agent_sidebar::shared_snapshot::daemon::LockAttempt;
use tmux_agent_sidebar::shared_snapshot::daemon::LockEvent;
use tmux_agent_sidebar::shared_snapshot::daemon::LockStep;
use tmux_agent_sidebar::shared_snapshot::request::decode_request;
use tmux_agent_sidebar::shared_snapshot::request::encode_request;
use tmux_agent_sidebar::shared_snapshot::request::Request;
use tmux_agent_sidebar::shared_snapshot::visibility::query_sidebar_visibility;
use tmux_agent_sidebar::shared_snapshot::visibility::SidebarVisibility;

type Cache = SnapshotCache<(), u8, u16>;
type Event = SnapshotEvent<(), u8, u16>;

fn runtime_path(extension: &str) -> PathBuf {
    PathBuf::from("/tmp").join(runtime::runtime_file_name(
        1000,
        "/tmp/tmux-1000/default,42,0",
        extension,
    ))
}

fn session(panes: &[&str]) -> SessionInfo<()> {
    SessionInfo {
        session_name: "main".to_string(),
        windows: vec![WindowInfo {
            window_name: "shell".to_string(),
            panes: panes
                .iter()
                .map(|id| PaneInfo { pane_id: id.to_string(), agent: () })
                .collect(),
        }],
    }
}

fn pane_ids(sessions: &Vec<SessionInfo<()>>) -> Vec<String> {
    sessions
        .iter()
        .flat_map(|session| session.windows.iter())
        .flat_map(|window| window.panes.iter())
        .map(|pane| pane.pane_id.clone())
        .collect()
}

#[test]
fn runtime_paths_are_server_specific_and_share_a_stem() {
    let socket = runtime_path("sock");
    let lock = runtime_path("lock");
    assert_eq!(socket.with_extension("lock"), lock);
    assert!(
        socket
            .file_name()
            .unwrap()
            .to_string_lossy()
            .contains("sidebar")
    );
}

#[test]
fn process_lifecycle_cache_matches_foreground_refresh_cadence() {
    assert_eq!(
        Duration::from_nanos(shared_snapshot::TMUX_FALLBACK_REFRESH_INTERVAL),
        Duration::from_secs(2)
    );
    assert_eq!(
        Duration::from_nanos(shared_snapshot::PROCESS_REFRESH_INTERVAL),
        Duration::from_secs(2)
    );
}

#[test]
fn server_keys_depend_on_user_and_socket_alone() {
    let key = runtime::server_key(1000, "/tmp/a,1,0");
    assert_eq!(key, runtime::server_key(1000, "/tmp/a,77,3"));
    assert_eq!(key, runtime::server_key(1000, "/tmp/a"));
    assert_ne!(key, runtime::server_key(1001, "/tmp/a"));
    assert_ne!(key, runtime::server_key(1000, "/tmp/b"));
}

#[test]
fn server_keys_are_the_hash_of_their_parts() {
    let mut hasher = DefaultHasher::new();
    1000u32.hash(&mut hasher);
    tmux_agent_sidebar::version::LOCAL_VERSION.hash(&mut hasher);
    2u8.hash(&mut hasher);
    1u8.hash(&mut hasher);
    "/tmp/a".hash(&mut hasher);
    let expected = hasher.finish();
    assert_eq!(runtime::server_key(1000, "/tmp/a,1,0"), expected);
    assert_eq!(
        runtime::runtime_file_name(1000, "/tmp/a,1,0", "sock"),
        format!("tmux-agent-sidebar-{:016x}.sock", expected)
    );
}

#[test]
fn create_locks_are_per_server_and_window() {
    let mut hasher = DefaultHasher::new();
    String::from("/tmp/a,1,0").hash(&mut hasher);
    "@3".hash(&mut hasher);
    assert_eq!(
        runtime::create_lock_file_name("/tmp/a,1,0", "@3"),
        format!("tmux-agent-sidebar-create-{:016x}.lock", hasher.finish())
    );
    assert_ne!(
        runtime::create_lock_file_name("/tmp/a,1,0", "@3"),
        runtime::create_lock_file_name("/tmp/a,1,0", "@4")
    );
}

#[test]
fn requests_arrive_as_they_were_sent() {
    let request = Request::Snapshot { generation: 0x0102_0304_0506_0708 };
    let bytes = encode_request(request);
    assert_eq!(bytes, vec![2, 1, 1, 2, 3, 4, 5, 6, 7, 8]);
    assert_eq!(decode_request(&bytes), Some(request));
    let bytes = encode_request(Request::Invalidate);
    assert_eq!(bytes, vec![2, 2, 0, 0, 0, 0, 0, 0, 0, 0]);
    assert_eq!(decode_request(&bytes), Some(Request::Invalidate));
}

#[test]
fn other_requests_are_refused() {
    assert_eq!(decode_request(&[1, 1, 0, 0, 0, 0, 0, 0, 0, 0]), None);
    assert_eq!(decode_request(&[2, 3, 0, 0, 0, 0, 0, 0, 0, 0]), None);
    assert_eq!(decode_request(&[2, 1, 0]), None);
    assert_eq!(decode_request(&[]), None);
}

#[test]
fn visibility_tells_of_sidebars_only() {
    let told = query_sidebar_visibility(Some(
        "%1|1|1|1|sidebar\n%2|1|1|1|\n%3|0|1|2|sidebar|more\nbad\n%1|0|1|0|sidebar\n",
    ));
    assert_eq!(
        told.get("%1"),
        Some(&SidebarVisibility {
            pane_active: false,
            window_active: true,
            session_attached: false
        })
    );
    assert_eq!(told.get("%2"), None);
    assert_eq!(
        told.get("%3"),
        Some(&SidebarVisibility {
            pane_active: false,
            window_active: true,
            session_attached: false
        })
    );
    assert_eq!(query_sidebar_visibility(None).get("%1"), None);
}

#[test]
fn a_first_refresh_scans_processes_but_not_ports() {
    let mut cache = Cache::new(0);
    assert!(matches!(
        cache.begin(1),
        SnapshotAction::QuerySessions { query: SessionQuery::WithProcesses }
    ));
    let next = cache.resume(
        Event::Sessions { sessions: vec![session(&["%1"])], processes: Some(7) },
        2,
    );
    assert!(matches!(next, Some(SnapshotAction::QuerySidebars)));
    let next = cache.resume(
        Event::Sidebars { output: Some("%9|1|1|1|sidebar".to_string()) },
        3,
    );
    assert!(matches!(next, Some(SnapshotAction::Respond)));
    assert_eq!(cache.generation, 1);
    assert_eq!(cache.processes, Some(7));
    let response = cache.snapshot(0);
    assert_eq!(response.version, 2);
    assert_eq!(response.generation, 1);
    assert!(!response.unchanged);
    assert_eq!(pane_ids(response.sessions.unwrap()), vec!["%1"]);
    assert!(response.pane_processes.is_none());
    assert!(response.sidebar_visibility.get("%9").is_some());
    let response = cache.snapshot(1);
    assert!(response.unchanged);
    assert!(response.sessions.is_none());
    assert!(response.sidebar_visibility.get("%9").is_some());
}

#[test]
fn fresh_snapshots_are_not_asked_for_again() {
    let mut cache = Cache::new(0);
    cache.begin(0);
    cache.resume(Event::Sessions { sessions: vec![], processes: None }, 10);
    cache.resume(Event::Sidebars { output: None }, 11);
    assert!(matches!(cache.begin(2_000_000_009), SnapshotAction::Respond));
    assert_eq!(cache.generation, 1);
    assert!(matches!(
        cache.begin(2_000_000_010),
        SnapshotAction::QuerySessions { query: SessionQuery::WithProcesses }
    ));
    cache.resume(Event::Sessions { sessions: vec![], processes: None }, 2_000_000_010);
    cache.resume(Event::Sidebars { output: None }, 2_000_000_010);
    cache.invalidate();
    assert!(matches!(
        cache.begin(2_000_000_020),
        SnapshotAction::QuerySessions { query: SessionQuery::WithoutProcesses }
    ));
    cache.processes = Some(1);
    assert!(matches!(
        cache.begin(2_000_000_020),
        SnapshotAction::QuerySessions { query: SessionQuery::WithCachedProcesses }
    ));
    // A scan that was not asked for does not count.
    cache.resume(Event::Sessions { sessions: vec![], processes: Some(9) }, 2_000_000_021);
    assert_eq!(cache.processes, Some(1));
}

#[test]
fn a_port_scan_drops_and_clears_dead_panes() {
    let mut cache = Cache::new(0);
    let later = 60_000_000_000;
    cache.begin(later);
    let next = cache.resume(
        Event::Sessions {
            sessions: vec![session(&["%1", "%2", "%3"]), session(&["%4"])],
            processes: Some(7),
        },
        later,
    );
    assert!(matches!(next, Some(SnapshotAction::ScanPorts)));
    // An answer to another question is ignored.
    assert!(cache.resume(Event::Cleared, later).is_none());
    let scan = PaneProcessSnapshot { live_agent_panes: vec!["%2".to_string()], ports: 8080 };
    match cache.resume(Event::Scanned { scan: Some(scan) }, later) {
        Some(SnapshotAction::ClearMetadata { panes }) => {
            assert_eq!(panes, vec!["%1", "%3", "%4"])
        }
        _ => panic!("expected the dead panes"),
    }
    assert!(matches!(
        cache.resume(Event::Cleared, later + 5),
        Some(SnapshotAction::QuerySidebars)
    ));
    assert_eq!(cache.last_port_refresh, Some(later + 5));
    assert_eq!(cache.last_tmux_refresh, Some(later + 5));
    cache.resume(Event::Sidebars { output: None }, later + 6);
    assert_eq!(pane_ids(&cache.sessions), vec!["%2"]);
    assert_eq!(cache.sessions.len(), 2);
    assert_eq!(cache.snapshot(0).pane_processes.unwrap().ports, 8080);
}

#[test]
fn a_failed_port_scan_changes_nothing_but_the_clock() {
    let mut cache = Cache::new(0);
    let later = 60_000_000_000;
    cache.begin(later);
    cache.resume(
        Event::Sessions { sessions: vec![session(&["%1"])], processes: None },
        later,
    );
    assert!(matches!(
        cache.resume(Event::Scanned { scan: None }, later + 1),
        Some(SnapshotAction::QuerySidebars)
    ));
    assert_eq!(pane_ids(&cache.sessions), vec!["%1"]);
    assert_eq!(cache.last_port_refresh, Some(later + 1));
}

#[test]
fn generations_come_round() {
    let mut cache = Cache::new(0);
    cache.generation = u64::MAX;
    cache.begin(0);
    cache.resume(Event::Sessions { sessions: vec![], processes: None }, 1);
    cache.resume(Event::Sidebars { output: None }, 2);
    assert_eq!(cache.generation, 0);
}

#[test]
fn a_client_starts_the_daemon_once_and_asks_twenty_times() {
    let mut way = client::query_sessions();
    let mut requests = 0;
    let mut spawns = 0;
    let mut slept = 0;
    loop {
        let worked = match way.step() {
            ClientStep::Request => {
                requests += 1;
                false
            }
            ClientStep::Spawn => {
                spawns += 1;
                true
            }
            ClientStep::Sleep { duration } => {
                slept += duration;
                true
            }
            ClientStep::Done { answered } => {
                assert!(!answered);
                break;
            }
        };
        way = way.resume(worked);
    }
    assert_eq!((requests, spawns), (21, 1));
    assert_eq!(Duration::from_nanos(slept), Duration::from_millis(500));
}

#[test]
fn a_client_ends_with_its_first_answer() {
    let way = client::query_sessions().resume(true);
    assert_eq!(way, Client::Answered);
    let way = client::query_sessions().resume(false);
    assert_eq!(way.step(), ClientStep::Spawn);
    assert_eq!(way.resume(false).step(), ClientStep::Done { answered: false });
    let way = way.resume(true).resume(true);
    assert_eq!(way.resume(true).step(), ClientStep::Done { answered: true });
    assert!(client::accepts_response(2));
    assert!(!client::accepts_response(1));
}

#[test]
fn a_running_daemon_keeps_its_lock() {
    let attempt = daemon::acquire_lock();
    assert_eq!(attempt.step(), LockStep::Create);
    let attempt = attempt.resume(LockEvent::Exists);
    assert_eq!(attempt.step(), LockStep::ReadOwner);
    let attempt = attempt.resume(LockEvent::Owner { text: Some(" 42\n".to_string()) });
    assert_eq!(attempt.step(), LockStep::AskAlive { pid: 42 });
    let attempt = attempt.resume(LockEvent::Alive { alive: true });
    assert_eq!(attempt.step(), LockStep::Done { acquired: false });
}

#[test]
fn a_stale_lock_is_removed_and_tried_once_more() {
    for text in [None, Some("x"), Some("0"), Some("-4"), Some("2147483648"), Some("")] {
        let owner = LockEvent::Owner { text: text.map(str::to_string) };
        let attempt = daemon::acquire_lock().resume(LockEvent::Exists).resume(owner);
        assert_eq!(attempt.step(), LockStep::Remove);
    }
    let gone = LockAttempt::Asking { pid: 42, last: false }
        .resume(LockEvent::Alive { alive: false })
        .resume(LockEvent::Done);
    assert_eq!(gone.step(), LockStep::Create);
    let won = gone.resume(LockEvent::Done);
    assert_eq!(won.step(), LockStep::WriteOwner);
    assert_eq!(won.resume(LockEvent::Done).step(), LockStep::Done { acquired: true });
    assert_eq!(won.resume(LockEvent::Failed).step(), LockStep::Fail);
    assert_eq!(gone.resume(LockEvent::Failed).step(), LockStep::Fail);
    let again = gone
        .resume(LockEvent::Exists)
        .resume(LockEvent::Owner { text: None })
        .resume(LockEvent::Done);
    assert_eq!(again.step(), LockStep::Done { acquired: false });
}

type Server = Daemon<(), u8, u16>;
type Served = DaemonEvent<(), u8, u16>;

#[test]
fn an_idle_daemon_ends() {
    let poll = |ready, interrupted, now| {
        let mut this = Server::new(0);
        let next = this.resume(Served::Polled { ready, interrupted }, now).unwrap();
        (next, this.stage)
    };
    assert!(matches!(
        poll(0, false, 299_999_999_999),
        (DaemonStep::Poll, DaemonStage::Polling)
    ));
    assert!(matches!(
        poll(0, false, 300_000_000_000),
        (DaemonStep::Exit, DaemonStage::Ended)
    ));
    assert!(matches!(
        poll(1, false, 300_000_000_000),
        (DaemonStep::Accept, DaemonStage::Accepting)
    ));
    assert!(matches!(
        poll(-1, true, 300_000_000_000),
        (DaemonStep::Poll, DaemonStage::Polling)
    ));
    assert!(matches!(
        poll(-1, false, 0),
        (DaemonStep::Fail, DaemonStage::Ended)
    ));
}

fn connected(this: &mut Server, outcome: Accepted, now: u64) -> Option<DaemonStep> {
    this.resume(Served::Polled { ready: 1, interrupted: false }, now);
    this.resume(Served::Accepted { outcome }, now)
}

#[test]
fn a_connection_counts_as_a_request() {
    let mut this = Server::new(0);
    assert!(matches!(
        connected(&mut this, Accepted::WouldBlock, 7),
        Some(DaemonStep::Poll)
    ));
    assert_eq!(this.last_request, 0);
    assert!(matches!(
        connected(&mut this, Accepted::Connection, 8),
        Some(DaemonStep::Read)
    ));
    assert_eq!(this.last_request, 8);
    // What is no request is ignored.
    for bytes in [None, Some(vec![]), Some(vec![1; 10])] {
        this.stage = DaemonStage::Reading;
        assert!(matches!(
            this.resume(Served::Request { bytes }, 9),
            Some(DaemonStep::Poll)
        ));
    }
    assert!(matches!(
        connected(&mut this, Accepted::Failed, 9),
        Some(DaemonStep::Fail)
    ));
    assert!(this.resume(Served::Sent, 9).is_none());
}

#[test]
fn a_daemon_finds_out_what_it_sends() {
    let mut this = Server::new(0);
    let ask = |generation| Served::Request {
        bytes: Some(encode_request(Request::Snapshot { generation })),
    };
    connected(&mut this, Accepted::Connection, 1);
    assert!(matches!(
        this.resume(ask(5), 1),
        Some(DaemonStep::Work {
            action: SnapshotAction::QuerySessions { query: SessionQuery::WithProcesses }
        })
    ));
    let event = Event::Sessions { sessions: vec![session(&["%1"])], processes: None };
    assert!(matches!(
        this.resume(Served::Worked { event }, 2),
        Some(DaemonStep::Work { action: SnapshotAction::QuerySidebars })
    ));
    let event = Event::Sidebars { output: None };
    assert!(matches!(
        this.resume(Served::Worked { event }, 3),
        Some(DaemonStep::Send { generation: 5 })
    ));
    assert!(!this.cache.snapshot(5).unchanged);
    assert!(matches!(this.resume(Served::Sent, 4), Some(DaemonStep::Poll)));
    connected(&mut this, Accepted::Connection, 5);
    assert!(matches!(
        this.resume(ask(1), 5),
        Some(DaemonStep::Send { generation: 1 })
    ));
    assert!(this.cache.snapshot(1).unchanged);
    this.resume(Served::Sent, 6);
    connected(&mut this, Accepted::Connection, 7);
    let bytes = Some(encode_request(Request::Invalidate));
    assert!(matches!(
        this.resume(Served::Request { bytes }, 7),
        Some(DaemonStep::Poll)
    ));
    connected(&mut this, Accepted::Connection, 8);
    assert!(matches!(this.resume(ask(1), 8), Some(DaemonStep::Work { .. })));
}
