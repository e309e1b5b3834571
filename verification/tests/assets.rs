use rustyracer_engine::assets::handle::AssetHandle;
use rustyracer_engine::assets::manager::AssetManager;
use rustyracer_engine::assets::pipeline::compression::{
    check_hash, CompressedAsset, CompressionAlgorithm, LZ4_MAX_INPUT,
};
use rustyracer_engine::assets::pipeline::streaming::{AssetStreamer, StreamPriority};
use rustyracer_engine::engine_core::config::WindowConfig;
use rustyracer_engine::engine_core::error::EngineError;

#[derive(Debug, Clone, Default, PartialEq)]
struct MeshData {
    vertices: Vec<u32>,
}

#[test]
fn asset_handle_keeps_its_id() {
    let h: AssetHandle<MeshData> = AssetHandle::new(17);
    assert_eq!(h.id(), 17);
    let copy = h;
    assert_eq!(copy, h);
}

#[test]
fn asset_manager_loads_each_path_once() {
    let mut m = AssetManager::new();
    let a = m.load::<MeshData>("car.mesh").unwrap();
    let b = m.load::<MeshData>("track.mesh").unwrap();
    let a2 = m.load::<MeshData>("car.mesh").unwrap();
    assert_eq!(a.id(), 0);
    assert_eq!(b.id(), 1);
    assert_eq!(a2.id(), a.id());
    assert_eq!(m.get(a), Some(&MeshData::default()));
    if let Some(mesh) = m.get_mut(b) {
        mesh.vertices.push(3);
    }
    assert_eq!(m.get(b).map(|x| x.vertices.clone()), Some(vec![3]));
    assert!(m.get(AssetHandle::<MeshData>::new(9)).is_none());
    assert!(m.get(AssetHandle::<String>::new(0)).is_none());
}

fn sample() -> Vec<u8> {
    let mut v = Vec::new();
    for i in 0..2000u32 {
        v.push((i % 7) as u8);
    }
    v
}

#[test]
fn compression_round_trips() {
    let data = sample();
    for alg in [CompressionAlgorithm::Uncompressed, CompressionAlgorithm::LZ4, CompressionAlgorithm::ZSTD] {
        let asset = CompressedAsset::new(alg, &data).unwrap();
        assert_eq!(asset.original_size, data.len());
        assert_eq!(asset.decompress_and_verify().unwrap(), data);
        let packed = alg.compress(&data).unwrap();
        assert_eq!(alg.decompress(&packed, data.len()).unwrap(), data);
    }
    assert_eq!(CompressionAlgorithm::default(), CompressionAlgorithm::Uncompressed);
}

#[test]
fn compression_actually_compresses() {
    let data = sample();
    let lz4 = CompressionAlgorithm::LZ4.compress(&data).unwrap();
    let zstd = CompressionAlgorithm::ZSTD.compress(&data).unwrap();
    assert!(lz4.len() < data.len());
    assert!(zstd.len() < data.len());
    assert_ne!(lz4, data);
    assert_eq!(CompressionAlgorithm::Uncompressed.compress(&data).unwrap(), data);
}

#[test]
fn compressed_asset_hash_mismatch_is_an_asset_error() {
    let data = sample();
    let mut asset = CompressedAsset::new(CompressionAlgorithm::LZ4, &data).unwrap();
    asset.hash ^= 1;
    match asset.decompress_and_verify() {
        Err(EngineError::AssetError(msg)) => assert_eq!(msg, "Hash mismatch after decompression"),
        other => panic!("unexpected {:?}", other),
    }
}

#[test]
fn malformed_input_is_an_error() {
    let junk = vec![0xffu8; 16];
    assert!(matches!(CompressionAlgorithm::LZ4.decompress(&junk, 4), Err(EngineError::AssetError(_))));
    assert!(matches!(CompressionAlgorithm::ZSTD.decompress(&junk, 4), Err(EngineError::IoError(_))));
    assert_eq!(CompressionAlgorithm::Uncompressed.decompress(&junk, 0).unwrap(), junk);
}

#[test]
fn streamer_requests_each_path_once_while_pending() {
    let (tx, mut rx) = tokio::sync::mpsc::channel(4);
    let mut s = AssetStreamer::with_sender(tx);
    assert!(s.request("a.png".to_string(), AssetHandle::new(1), StreamPriority::High));
    assert!(!s.request("a.png".to_string(), AssetHandle::new(1), StreamPriority::Low));
    assert!(s.request("b.png".to_string(), AssetHandle::new(2), StreamPriority::default()));
    let first = rx.try_recv().unwrap();
    assert_eq!(first.path, "a.png");
    assert_eq!(first.priority, StreamPriority::High);
    s.mark_completed("a.png");
    assert!(s.request("a.png".to_string(), AssetHandle::new(1), StreamPriority::Critical));
    assert!(StreamPriority::Low < StreamPriority::Critical);
}

#[test]
fn streamer_full_channel_refuses_request() {
    let (tx, _rx) = tokio::sync::mpsc::channel(1);
    let mut s = AssetStreamer::with_sender(tx);
    assert!(s.request("a".to_string(), AssetHandle::new(0), StreamPriority::Low));
    assert!(!s.request("b".to_string(), AssetHandle::new(1), StreamPriority::Low));
    // "b" was not accepted, so it is not pending and can be asked again later.
    s.mark_completed("a");
}

#[test]
fn window_config_defaults() {
    let c = WindowConfig::default();
    assert_eq!(c.title, "RustyRacer Engine");
    assert_eq!((c.width, c.height), (1280, 720));
    assert!(!c.fullscreen);
    assert!(c.resizable);
}

#[test]
fn asset_handles_are_equal_when_their_ids_are() {
    let a: AssetHandle<MeshData> = AssetHandle::new(3);
    let b: AssetHandle<MeshData> = AssetHandle::new(3);
    let c: AssetHandle<MeshData> = AssetHandle::new(4);
    assert!(a == b);
    assert!(a != c);
}

#[test]
fn lz4_block_longer_than_the_limit_is_refused() {
    let long = vec![0u8; LZ4_MAX_INPUT + 1];
    match CompressionAlgorithm::LZ4.decompress(&long, 16) {
        Err(EngineError::AssetError(msg)) => assert_eq!(msg, "LZ4 decompression failed"),
        other => panic!("unexpected {:?}", other.map(|v| v.len())),
    }
}

#[test]
fn check_hash_accepts_only_the_expected_hash() {
    let data = vec![1u8, 2, 3];
    assert_eq!(check_hash(data.clone(), 42, 42).unwrap(), data);
    match check_hash(data, 41, 42) {
        Err(EngineError::AssetError(msg)) => assert_eq!(msg, "Hash mismatch after decompression"),
        other => panic!("unexpected {:?}", other),
    }
}

#[test]
fn record_outcome_makes_a_sent_path_pending_once() {
    let (tx, _rx) = tokio::sync::mpsc::channel(4);
    let mut s = AssetStreamer::with_sender(tx);
    assert!(!s.record_outcome("a".to_string(), false));
    // "a" was not sent, so it is not pending and a request sends it.
    assert!(s.request("a".to_string(), AssetHandle::new(0), StreamPriority::Low));
    assert!(s.record_outcome("b".to_string(), true));
    assert!(s.record_outcome("b".to_string(), true));
    // "b" is pending: a new request for it is refused.
    assert!(!s.request("b".to_string(), AssetHandle::new(1), StreamPriority::Low));
    s.mark_completed("b");
    assert!(s.request("b".to_string(), AssetHandle::new(1), StreamPriority::Low));
}
