use harbor_cache::errors::{CoreError, ProxyError};
use harbor_cache::registry::{blob_fetch_outcome, blob_get_plan, BlobSource};
use harbor_cache::storage::{compute_sha256, digest_from_hash, StorageError};
use harbor_cache::tee::{tee_start, tee_start_plan, tee_step, TeeAction, TeeEvent, TeeStart, TeeState};

const D: &str = "sha256:e3b0c44298fc1c149afbf4c8996fb92427ae41e4649b934ca495991b7852b855";

#[test]
fn blob_comes_from_cache_then_upstream() {
    match blob_get_plan(D, Some(42), Some("main".to_string())) {
        Ok(BlobSource::Cache { size }) => assert_eq!(size, 42),
        _ => panic!("expected the cache"),
    }
    match blob_get_plan(D, None, Some("main".to_string())) {
        Ok(BlobSource::Upstream { name }) => assert_eq!(name, "main"),
        _ => panic!("expected the upstream"),
    }
    match blob_get_plan(D, None, None) {
        Err(CoreError::NotFound(m)) => assert_eq!(m, "No upstream configured"),
        _ => panic!("expected not found"),
    }
    match blob_get_plan("sha256:../etc", Some(1), Some("main".to_string())) {
        Err(CoreError::Storage(StorageError::InvalidDigest(m))) => {
            assert!(m.starts_with("Hash too short for sha256"))
        }
        _ => panic!("expected an invalid digest"),
    }
}

#[test]
fn upstream_fetch_outcomes() {
    assert!(matches!(blob_fetch_outcome(Ok(7), D), Ok(7)));
    match blob_fetch_outcome(Err(ProxyError::NotFound("x".to_string())), D) {
        Err(CoreError::NotFound(m)) => assert_eq!(m, D),
        _ => panic!("expected not found"),
    }
    assert!(matches!(blob_fetch_outcome(Err(ProxyError::Unauthorized), D), Err(CoreError::Proxy(ProxyError::Unauthorized))));
}

fn forward(s: TeeState, chunk: &[u8]) -> (TeeState, bool, bool) {
    match tee_step(s, TeeEvent::Chunk(chunk.to_vec())) {
        (t, TeeAction::Forward { chunk: c, to_client, to_storage }) => {
            assert_eq!(c, chunk.to_vec());
            (t, to_client, to_storage)
        }
        _ => panic!("expected a forward"),
    }
}

#[test]
fn tee_steps() {
    let s = tee_start();
    assert_eq!(s, TeeState { client_open: true, storage_open: true, finished: false });
    assert_eq!(forward(s, b"ab"), (s, true, true));
    // A failed cache write does not cut the client short.
    let (t, a) = tee_step(s, TeeEvent::StorageClosed);
    assert!(matches!(a, TeeAction::Continue));
    assert_eq!(forward(t, b"cd").1, true);
    assert_eq!(forward(t, b"cd").2, false);
    // A departed client does not stop caching.
    let (u, a) = tee_step(s, TeeEvent::ClientGone);
    assert!(matches!(a, TeeAction::Continue));
    assert_eq!((forward(u, b"e").1, forward(u, b"e").2), (false, true));
    // With both gone the reading stops.
    let (v, a) = tee_step(u, TeeEvent::StorageClosed);
    assert!(matches!(a, TeeAction::Stop));
    assert!(v.finished);
    // A source error is passed on to each open side.
    match tee_step(t, TeeEvent::SourceError("reset".to_string())) {
        (w, TeeAction::Fail { message, to_client, to_storage }) => {
            assert_eq!(message, "reset");
            assert!(to_client && !to_storage && w.finished);
        }
        _ => panic!("expected a failure"),
    }
    let (done, a) = tee_step(s, TeeEvent::SourceEnd);
    assert!(matches!(a, TeeAction::Finish));
    assert!(matches!(tee_step(done, TeeEvent::Chunk(vec![1])).1, TeeAction::Continue));
}

#[test]
fn client_gets_every_chunk_whatever_the_cache_does() {
    let events = vec![
        TeeEvent::Chunk(b"one".to_vec()),
        TeeEvent::StorageClosed,
        TeeEvent::Chunk(b"two".to_vec()),
        TeeEvent::Chunk(b"three".to_vec()),
        TeeEvent::SourceEnd,
    ];
    let mut s = tee_start();
    let mut client: Vec<u8> = Vec::new();
    let mut cache: Vec<u8> = Vec::new();
    for e in events {
        let (t, a) = tee_step(s, e);
        s = t;
        if let TeeAction::Forward { chunk, to_client, to_storage } = a {
            if to_client {
                client.extend_from_slice(&chunk);
            }
            if to_storage {
                cache.extend_from_slice(&chunk);
            }
        }
    }
    assert_eq!(client, b"onetwothree".to_vec());
    assert_eq!(cache, b"one".to_vec());
    assert!(s.finished);
}

#[test]
fn tee_start_choices() {
    assert!(matches!(tee_start_plan(true, Some(10)), TeeStart::ServeCached));
    assert!(matches!(tee_start_plan(false, Some(10)), TeeStart::Tee { reserve: Some(10) }));
    assert!(matches!(tee_start_plan(false, None), TeeStart::Tee { reserve: None }));
}

#[test]
fn digest_of_a_hash() {
    let hash: Vec<u8> = (0u8..32).collect();
    assert_eq!(
        digest_from_hash(&hash),
        "sha256:000102030405060708090a0b0c0d0e0f101112131415161718191a1b1c1d1e1f"
    );
    assert_eq!(compute_sha256(b""), D);
}
