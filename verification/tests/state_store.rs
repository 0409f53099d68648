use memlink::protocol::{AgentId, StateFormat, StateTransport};
use memlink::state::{checksum_of, state_path, InMemoryStateStore, StateError, StateMeta};
use memlink::words::embedding_token_digests;

fn deterministic_embedding(text: &str, dims: usize) -> Vec<f32> {
    let mut vector = vec![0.0f32; dims.max(1)];
    for digest in embedding_token_digests(text) {
        for (index, value) in vector.iter_mut().enumerate() {
            let byte = digest[index % digest.len()] as f32;
            *value += (byte / 255.0) - 0.5;
        }
    }
    let norm = vector.iter().map(|value| value * value).sum::<f32>().sqrt();
    if norm > 0.0 {
        for value in &mut vector {
            *value /= norm;
        }
    }
    vector
}

fn embedding_to_bytes(embedding: &[f32]) -> Vec<u8> {
    let mut bytes = Vec::with_capacity(embedding.len() * 4);
    for value in embedding {
        bytes.extend_from_slice(&value.to_le_bytes());
    }
    bytes
}

#[test]
fn stores_embedding_state_ref_with_checksum() {
    let mut store = InMemoryStateStore::new();
    let embedding = deterministic_embedding("StateRef evidence pack", 16);
    let state_ref = store.put(
        embedding_to_bytes(&embedding),
        StateMeta {
            producer: AgentId::new("retriever"),
            format: StateFormat::EmbeddingF32,
            shape: Some(vec![16]),
            ttl: Some(60_000_000),
        },
    );

    assert_eq!(state_ref.byte_len, 64);
    assert_eq!(state_ref.producer, AgentId::new("retriever"));
    assert_eq!(
        store.get(&state_ref).expect("get state"),
        embedding_to_bytes(&embedding)
    );
}

#[test]
fn put_with_records_the_handle() {
    let mut store = InMemoryStateStore::new();
    let bytes = vec![1u8, 2, 3];
    let r = store.put_with(
        42,
        1_000,
        bytes.clone(),
        StateMeta {
            producer: AgentId::new("executor"),
            format: StateFormat::ToolOutputJson,
            shape: None,
            ttl: Some(500),
        },
    );
    assert_eq!(r.state_id, 42);
    assert_eq!(r.created_at, 1_000);
    assert_eq!(r.expires_at, Some(1_500));
    assert_eq!(r.transport, StateTransport::InMemory);
    assert_eq!(r.checksum.algorithm, "blake3");
    assert_eq!(r.checksum.value, checksum_of(&bytes).value);
    assert_eq!(store.len(), 1);
    assert_eq!(store.get(&r).expect("stored"), bytes);
}

#[test]
fn get_reports_missing_and_tampered_states() {
    let mut store = InMemoryStateStore::new();
    let meta = StateMeta {
        producer: AgentId::new("retriever"),
        format: StateFormat::EvidencePackJson,
        shape: None,
        ttl: None,
    };
    let r = store.put_with(1, 0, b"evidence".to_vec(), meta);
    let mut tampered = r.clone();
    tampered.checksum.value = checksum_of(b"other").value;
    assert!(matches!(store.get(&tampered), Err(StateError::ChecksumMismatch(1))));
    let mut missing = r.clone();
    missing.state_id = 2;
    assert!(matches!(store.get(&missing), Err(StateError::NotFound(2))));
}

#[test]
fn expired_states_are_dropped_and_live_ones_kept() {
    let mut store = InMemoryStateStore::new();
    let meta = |ttl| StateMeta {
        producer: AgentId::new("executor"),
        format: StateFormat::ToolOutputJson,
        shape: None,
        ttl,
    };
    let short = store.put_with(1, 100, vec![7u8; 128 * 1024], meta(Some(1)));
    let long = store.put_with(2, 100, vec![8u8; 4], meta(Some(1_000)));
    let forever = store.put_with(3, 100, vec![9u8; 4], meta(None));
    assert_eq!(store.delete_expired_at(100), 0);
    assert_eq!(store.delete_expired_at(101), 1);
    assert!(store.get(&short).is_err());
    assert!(store.get(&long).is_ok());
    assert!(store.get(&forever).is_ok());
    assert_eq!(store.delete_expired_at(5_000), 1);
    assert!(store.get(&long).is_err());
    assert_eq!(store.len(), 1);
}

#[test]
fn pin_extends_the_life_of_a_state() {
    let mut store = InMemoryStateStore::new();
    let r = store.put_with(
        5,
        0,
        vec![1u8],
        StateMeta {
            producer: AgentId::new("retriever"),
            format: StateFormat::EmbeddingF32,
            shape: Some(vec![1]),
            ttl: Some(10),
        },
    );
    assert!(store.pin_at(5, 0, 1_000).is_ok());
    assert_eq!(store.delete_expired_at(500), 0);
    assert!(store.get(&r).is_ok());
    assert!(matches!(store.pin_at(6, 0, 1), Err(StateError::NotFound(6))));
    assert!(matches!(store.pin(6, 1), Err(StateError::NotFound(6))));
}

#[test]
fn checksums_are_lower_case_blake3_hex() {
    let empty = checksum_of(&[]);
    assert_eq!(empty.algorithm, "blake3");
    assert_eq!(
        empty.value,
        "af1349b9f5f9a1a6a0404dea36dcc9499bcb25c9adc112b7cc9a93cae41f3262"
    );
    assert_eq!(
        checksum_of(b"abc").value,
        "6437b3ac38465133ffb63b75273a8db548c558465d79db03fd359c6cd5bd9d85"
    );
}

#[test]
fn state_files_are_named_by_id() {
    let path = state_path("data/state", 0x67e5_5044_10b1_426f_9247_bb68_0e5f_e0c8);
    assert_eq!(path, "data/state/67e55044-10b1-426f-9247-bb680e5fe0c8.bin");
}

#[test]
fn the_index_finds_pins_and_drops_by_id() {
    use_index();
}

fn entry(id: u128, expires_at: Option<i64>) -> memlink::state::IndexEntry<String> {
    let mut r = memlink::state::make_state_ref(
        id,
        0,
        b"x",
        StateMeta { producer: AgentId::new("executor"), format: StateFormat::ToolOutputJson, shape: None, ttl: None },
        StateTransport::MmapFile,
    );
    r.expires_at = expires_at;
    memlink::state::IndexEntry { payload: format!("/tmp/{id}.bin"), state_ref: r }
}

fn use_index() {
    let mut index: memlink::state::StateIndex<String> = memlink::state::StateIndex::new();
    index.insert(entry(1, Some(10)));
    index.insert(entry(2, None));
    index.insert(entry(3, Some(50)));
    assert_eq!(index.len(), 3);
    assert_eq!(index.find(2).map(|e| e.payload.clone()), Some("/tmp/2.bin".to_owned()));
    assert!(index.find(9).is_none());
    let mut expired = index.expired_ids(20);
    expired.sort();
    assert_eq!(expired, vec![1]);
    assert!(index.set_expiry(2, Some(5)));
    assert!(!index.set_expiry(9, Some(5)));
    assert_eq!(index.remove_expired(20), 2);
    assert_eq!(index.len(), 1);
    assert!(index.find(3).is_some());
    assert!(index.remove(3).is_some());
    assert!(index.remove(3).is_none());
}

#[test]
fn state_errors_name_the_state() {
    let id: u128 = 0x0123_4567_89ab_cdef_0011_2233_4455_6677;
    assert_eq!(
        StateError::NotFound(id).message(),
        "state not found: 01234567-89ab-cdef-0011-223344556677"
    );
    assert_eq!(
        StateError::ChecksumMismatch(id).message(),
        "checksum mismatch for state: 01234567-89ab-cdef-0011-223344556677"
    );
    let io = StateError::Io(std::io::Error::new(std::io::ErrorKind::Other, "disk full"));
    assert_eq!(io.message(), "state io error: disk full");
}
