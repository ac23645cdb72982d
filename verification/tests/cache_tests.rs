use rustymixer::cache::{hint_chunks, total_chunks, ChunkCache, ChunkLoad};

fn chunk(value: i32, frames: usize) -> Vec<i32> {
    let mut v = Vec::new();
    for f in 0..frames {
        v.push(value * 1000 + f as i32);
        v.push(-(value * 1000 + f as i32));
    }
    v
}

#[test]
fn miss_returns_zero_frames() {
    let mut cache: ChunkCache<i32> = ChunkCache::new(4, 8);
    let mut out = vec![0; 16];
    assert_eq!(cache.read(0, &mut out, 8), 0);
    assert!(!cache.is_cached(0));
}

#[test]
fn hit_returns_samples() {
    let mut cache: ChunkCache<i32> = ChunkCache::new(4, 8);
    assert!(cache.load_chunk(0, ChunkLoad::Decoded(chunk(0, 8))));
    assert!(cache.is_cached(0));
    assert!(cache.is_frame_cached(7));
    assert!(!cache.is_frame_cached(8));
    let mut out = vec![0; 8];
    assert_eq!(cache.read(2, &mut out, 4), 4);
    assert_eq!(out, vec![2, -2, 3, -3, 4, -4, 5, -5]);
}

#[test]
fn cache_read_across_chunk_boundary() {
    let mut cache: ChunkCache<i32> = ChunkCache::new(4, 4);
    cache.load_chunk(0, ChunkLoad::Decoded(chunk(0, 4)));
    cache.load_chunk(1, ChunkLoad::Decoded(chunk(1, 4)));
    let mut out = vec![0; 8];
    assert_eq!(cache.read(2, &mut out, 4), 4);
    assert_eq!(out, vec![2, -2, 3, -3, 1000, -1000, 1001, -1001]);
}

#[test]
fn read_stops_at_missing_chunk() {
    let mut cache: ChunkCache<i32> = ChunkCache::new(4, 4);
    cache.load_chunk(0, ChunkLoad::Decoded(chunk(0, 4)));
    let mut out = vec![7; 8];
    assert_eq!(cache.read(2, &mut out, 4), 2);
    assert_eq!(&out[..4], &[2, -2, 3, -3]);
}

#[test]
fn partial_last_chunk() {
    let mut cache: ChunkCache<i32> = ChunkCache::new(2, 4);
    cache.load_chunk(0, ChunkLoad::Decoded(chunk(0, 2)));
    let mut out = vec![0; 8];
    assert_eq!(cache.read(0, &mut out, 4), 2);
}

#[test]
fn failed_load_leaves_chunk_uncached() {
    let mut cache: ChunkCache<i32> = ChunkCache::new(2, 4);
    assert!(!cache.load_chunk(3, ChunkLoad::Failed));
    assert!(!cache.is_cached(3));
}

#[test]
fn least_recently_read_chunk_is_evicted() {
    let mut cache: ChunkCache<i32> = ChunkCache::new(2, 4);
    cache.load_chunk(0, ChunkLoad::Decoded(chunk(0, 4)));
    cache.load_chunk(1, ChunkLoad::Decoded(chunk(1, 4)));
    // Read chunk 0 so chunk 1 becomes the least recently used.
    let mut out = vec![0; 2];
    assert_eq!(cache.read(0, &mut out, 1), 1);
    cache.load_chunk(2, ChunkLoad::Decoded(chunk(2, 4)));
    assert!(cache.is_cached(0));
    assert!(!cache.is_cached(1));
    assert!(cache.is_cached(2));
}

#[test]
fn loading_a_cached_chunk_keeps_it() {
    let mut cache: ChunkCache<i32> = ChunkCache::new(2, 4);
    cache.load_chunk(0, ChunkLoad::Decoded(chunk(0, 4)));
    assert!(cache.load_chunk(0, ChunkLoad::Decoded(chunk(9, 4))));
    let mut out = vec![0; 2];
    cache.read(1, &mut out, 1);
    assert_eq!(out, vec![1, -1]);
}

#[test]
fn chunk_counts() {
    assert_eq!(total_chunks(0, 8192), u64::MAX);
    assert_eq!(total_chunks(1, 8192), 1);
    assert_eq!(total_chunks(8192, 8192), 1);
    assert_eq!(total_chunks(8193, 8192), 2);
    assert_eq!(total_chunks(44100 * 3, 8192), 17);
}

#[test]
fn hints_look_ahead_within_track() {
    assert_eq!(hint_chunks(0, 8192, 100), vec![0, 1, 2, 3]);
    assert_eq!(hint_chunks(8192 * 5 + 10, 8192, 100), vec![5, 6, 7, 8]);
    assert_eq!(hint_chunks(8192 * 98, 8192, 100), vec![98, 99]);
    assert_eq!(hint_chunks(8192 * 99, 8192, 100), vec![99]);
    assert_eq!(hint_chunks(8192 * 200, 8192, 100), vec![200]);
}

#[test]
fn read_stops_at_the_last_frame_position() {
    // Chunk size 4: the chunk of the last frame positions is u64::MAX / 4,
    // frames u64::MAX - 3 ..= u64::MAX.
    let mut cache: ChunkCache<i32> = ChunkCache::new(2, 4);
    assert!(cache.load_chunk(u64::MAX / 4, ChunkLoad::Decoded(chunk(7, 4))));
    let mut out = vec![0; 16];
    assert_eq!(cache.read(u64::MAX - 1, &mut out, 8), 2);
    assert_eq!(&out[..4], &[7002, -7002, 7003, -7003]);
    assert_eq!(&out[4..], &[0; 12]);
}
