use http_vfs::buffer::LazyBuffer;
use http_vfs::conn::{decide_length, parse_usize, Connection, LockKind};
use http_vfs::utils::{AtomicRuntime, ProbeHeaders};
use http_vfs::VfsError;

fn offline_connection() -> Connection {
    Connection {
        lock_count: 0,
        lock: LockKind::NoLock,
        rt: AtomicRuntime { core: None },
        buffer: LazyBuffer::new(64, 16, 0),
        url: String::from("http://127.0.0.1:1/db"),
    }
}

#[test]
fn test_parse_usize() {
    assert_eq!(parse_usize("0"), Some(0));
    assert_eq!(parse_usize("123"), Some(123));
    assert_eq!(parse_usize("+57"), Some(57));
    assert_eq!(parse_usize("007"), Some(7));
    assert_eq!(parse_usize(""), None);
    assert_eq!(parse_usize("+"), None);
    assert_eq!(parse_usize("12a"), None);
    assert_eq!(parse_usize("-3"), None);
    assert_eq!(parse_usize(" 5"), None);
    assert_eq!(parse_usize("99999999999999999999999999999999"), None);
    assert_eq!(parse_usize("18446744073709551615"), Some(usize::MAX));
}

#[test]
fn test_decide_length() {
    let h = |ar: Option<&str>, cl: Option<&str>| ProbeHeaders {
        accept_ranges: ar.map(|s| s.to_string()),
        content_length: cl.map(|s| s.to_string()),
    };
    assert_eq!(decide_length(&h(Some("bytes"), Some("64"))), Some(64));
    // a server that does not advertise byte ranges is refused
    assert_eq!(decide_length(&h(Some("none"), Some("64"))), None);
    assert_eq!(decide_length(&h(None, Some("64"))), None);
    // a missing or unreadable length counts as zero (and is rejected at
    // construction, where zero-length files are refused)
    assert_eq!(decide_length(&h(Some("bytes"), None)), Some(0));
    assert_eq!(decide_length(&h(Some("bytes"), Some("many"))), Some(0));
    assert_eq!(decide_length(&h(Some("bytes"), Some("0"))), Some(0));
}

#[test]
fn test_lock_state_machine() {
    let mut c = offline_connection();
    assert_eq!(c.current_lock(), Ok(LockKind::NoLock));
    assert_eq!(c.shared_count(), 0);

    // none from none is a no-op at the counter
    assert_eq!(c.lock(LockKind::NoLock), Ok(true));
    assert_eq!(c.shared_count(), 0);
    assert_eq!(c.current_lock(), Ok(LockKind::NoLock));

    // shared increments the counter once
    assert_eq!(c.lock(LockKind::Shared), Ok(true));
    assert_eq!(c.current_lock(), Ok(LockKind::Shared));
    assert_eq!(c.shared_count(), 1);

    // a second shared acquire counts again
    assert_eq!(c.lock(LockKind::Shared), Ok(true));
    assert_eq!(c.shared_count(), 2);

    // releasing decrements exactly once
    assert_eq!(c.lock(LockKind::NoLock), Ok(true));
    assert_eq!(c.current_lock(), Ok(LockKind::NoLock));
    assert_eq!(c.shared_count(), 1);

    // releasing again no longer touches the counter
    assert_eq!(c.lock(LockKind::NoLock), Ok(true));
    assert_eq!(c.shared_count(), 1);

    // upgrades are refused without any state change
    assert_eq!(c.lock(LockKind::Reserved), Ok(false));
    assert_eq!(c.lock(LockKind::Pending), Ok(false));
    assert_eq!(c.lock(LockKind::Exclusive), Ok(false));
    assert_eq!(c.current_lock(), Ok(LockKind::NoLock));
    assert_eq!(c.shared_count(), 1);
}

#[test]
fn test_shared_then_unlock_restores_counter() {
    let mut c = offline_connection();
    assert_eq!(c.lock(LockKind::Shared), Ok(true));
    assert_eq!(c.lock(LockKind::NoLock), Ok(true));
    assert_eq!(c.shared_count(), 0);
}

#[test]
fn test_read_only_operations() {
    let mut c = offline_connection();
    assert_eq!(c.size(), Ok(64));
    assert_eq!(c.write_all_at(&[1, 2, 3], 0), Err(VfsError::WriteNotSupported));
    assert_eq!(c.set_len(32), Err(VfsError::ResizeNotSupported));
    assert!(c.sync(true).is_ok());
    assert!(c.sync(false).is_ok());
    assert_eq!(c.reserved(), Ok(false));
}

#[test]
fn test_read_through_torn_down_bridge() {
    let mut c = offline_connection();

    // bounds are checked before any fetch
    let mut buf = vec![0u8; 16];
    assert_eq!(c.read_exact_at(&mut buf, 70), Err(VfsError::OutOfBounds));
    let mut straddling = vec![0u8; 16];
    assert_eq!(c.read_exact_at(&mut straddling, 24), Err(VfsError::OutOfBounds));

    // a zero-length read needs no bridge
    let mut empty = Vec::new();
    assert!(c.read_exact_at(&mut empty, 0).is_ok());

    // an uncached block cannot be fetched once the bridge is gone
    let mut data = vec![0u8; 16];
    assert_eq!(c.read_exact_at(&mut data, 0), Err(VfsError::Unavailable));
}

#[test]
fn test_shutdown_is_idempotent() {
    let mut rt = AtomicRuntime::new(None);
    rt.drop();
    assert!(rt.probe("http://127.0.0.1:1/").is_none());
    rt.drop();
    assert!(rt.probe("http://127.0.0.1:1/").is_none());

    let mut c = offline_connection();
    c.shutdown();
    c.shutdown();
    assert_eq!(c.size(), Ok(64));
}

#[test]
fn test_connection_to_unreachable_server_fails_init() {
    // nothing listens on this port, so the probe fails and construction
    // reports an initialization failure
    let r = Connection::new("http://127.0.0.1:1/db", 16, 0);
    assert!(matches!(r, Err(VfsError::InitFailed)));
}

#[test]
fn test_bridge_keeps_injected_client() {
    // a bridge built around an injected client still answers probes (the
    // server is unreachable, so the probe reports failure rather than
    // unavailability)
    let client = reqwest::Client::new();
    let rt = AtomicRuntime::new(Some(client));
    match rt.probe("http://127.0.0.1:1/") {
        Some(r) => assert!(r.is_err()),
        None => {
            // the executor could not be built in this environment; then
            // the bridge starts out unavailable, and stays so
            assert!(rt.probe("http://127.0.0.1:1/").is_none());
        }
    }
}
