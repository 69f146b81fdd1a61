use std::collections::hash_map::DefaultHasher;
use std::hash::{Hash, Hasher};

use bulk_watermark::cache::{
    cleanup_cutoff, cleanup_summary, extraction_error_message, generate_cache_key, new_entry,
    tally_removed, thumbnail_file_name, CleanupTally, DeletionOutcome, MAX_CACHE_BYTES,
    MAX_ENTRIES,
};
use bulk_watermark::ffmpeg::FfmpegError;
use bulk_watermark::types::{ThumbnailCache, ThumbnailCacheEntry};

fn entry(n: u64, last_accessed: u64, size: u64) -> (String, ThumbnailCacheEntry) {
    (
        format!("k{}", n),
        ThumbnailCacheEntry {
            video_path: format!("/v/{}.mp4", n),
            video_mtime: 1,
            thumbnail_path: format!("/t/k{}.jpg", n),
            created_at: last_accessed,
            last_accessed,
            file_size: size,
        },
    )
}

fn cache_of(entries: Vec<(String, ThumbnailCacheEntry)>) -> ThumbnailCache {
    let mut c = ThumbnailCache::empty();
    c.entries = entries;
    c
}

#[test]
fn cache_key_is_hex_of_std_hash() {
    let mut h = DefaultHasher::new();
    "/videos/a.mp4123".to_string().hash(&mut h);
    assert_eq!(generate_cache_key("/videos/a.mp4", 123), format!("{:x}", h.finish()));
}

#[test]
fn cache_key_stable_and_tracks_mtime() {
    let a = generate_cache_key("/videos/a.mp4", 1_700_000_000);
    let b = generate_cache_key("/videos/a.mp4", 1_700_000_000);
    let c = generate_cache_key("/videos/a.mp4", 1_700_000_001);
    assert_eq!(a, b);
    assert_ne!(a, c);
    assert_eq!(thumbnail_file_name(&a), format!("{}.jpg", a));
}

#[test]
fn second_request_hits_same_thumbnail() {
    let mut cache = ThumbnailCache::empty();
    let key = generate_cache_key("/v/x.mp4", 42);
    assert_eq!(cache.record_access(&key, false, 10), None);
    let path = format!("/t/{}", thumbnail_file_name(&key));
    let e = new_entry("/v/x.mp4".to_string(), 42, path.clone(), 900, 10);
    let evicted = cache.add_thumbnail(key.clone(), e);
    assert!(evicted.is_empty());
    assert_eq!(cache.entry_path(&key), Some(path.clone()));
    assert_eq!(cache.record_access(&key, true, 20), Some(path.clone()));
    assert_eq!(cache.entries.len(), 1);
    assert_eq!(cache.entries[0].1.last_accessed, 20);
    assert_eq!(cache.entries[0].1.created_at, 10);
    let new_key = generate_cache_key("/v/x.mp4", 43);
    assert_ne!(new_key, key);
    assert_eq!(cache.record_access(&new_key, true, 30), None);
}

#[test]
fn stale_entry_is_purged_on_lookup() {
    let mut cache = cache_of(vec![entry(1, 5, 10), entry(2, 6, 10)]);
    assert_eq!(cache.record_access("k1", false, 9), None);
    assert_eq!(cache.entries.len(), 1);
    assert_eq!(cache.entries[0].0, "k2");
}

#[test]
fn insert_replaces_same_key() {
    let mut cache = cache_of(vec![entry(1, 5, 10), entry(2, 6, 10)]);
    let (_, mut e) = entry(9, 50, 77);
    e.thumbnail_path = "/t/new.jpg".to_string();
    cache.insert_entry("k1".to_string(), e);
    assert_eq!(cache.entries.len(), 2);
    assert_eq!(cache.entries[0].1.thumbnail_path, "/t/new.jpg");
}

#[test]
fn hundred_and_first_entry_evicts_oldest() {
    let mut entries = Vec::new();
    for n in 0..100u64 {
        entries.push(entry(n, 1000 + ((n * 37) % 100), 1024));
    }
    let mut cache = cache_of(entries);
    let (k, e) = entry(500, 5000, 1024);
    let evicted = cache.add_thumbnail(k, e);
    assert_eq!(evicted.len(), 1);
    assert_eq!(evicted[0].1.last_accessed, 1000);
    assert_eq!(cache.entries.len(), MAX_ENTRIES);
    assert!(cache.entries.iter().all(|(_, e)| e.last_accessed > 1000));
}

#[test]
fn size_bound_evicts_until_under() {
    let mut cache = cache_of(vec![entry(1, 10, 300), entry(2, 30, 300), entry(3, 20, 300)]);
    let evicted = cache.evict_lru_entries(10, 650);
    assert_eq!(evicted.len(), 1);
    assert_eq!(evicted[0].0, "k1");
    let evicted = cache.evict_lru_entries(10, 100);
    assert_eq!(evicted.len(), 2);
    assert_eq!(evicted[0].0, "k3");
    assert_eq!(evicted[1].0, "k2");
    assert!(cache.entries.is_empty());
}

#[test]
fn within_bounds_evicts_nothing() {
    let mut cache = cache_of(vec![entry(1, 10, 300)]);
    assert!(cache.evict_lru_entries(MAX_ENTRIES, MAX_CACHE_BYTES).is_empty());
    assert_eq!(cache.entries.len(), 1);
}

#[test]
fn load_drops_missing_files() {
    let mut cache = cache_of(vec![entry(1, 1, 1), entry(2, 2, 2), entry(3, 3, 3)]);
    cache.retain_present(&vec![true, false, true]);
    let keys: Vec<&str> = cache.entries.iter().map(|(k, _)| k.as_str()).collect();
    assert_eq!(keys, vec!["k1", "k3"]);
}

#[test]
fn cleanup_cutoffs() {
    assert_eq!(cleanup_cutoff(1_000_000, None), 1_000_000 - 7 * 86_400);
    assert_eq!(cleanup_cutoff(1_000_000, Some(0)), 1_000_000);
    assert_eq!(cleanup_cutoff(1_000_000, Some(1)), 1_000_000 - 86_400);
    assert_eq!(cleanup_cutoff(100, Some(3)), 0);
}

#[test]
fn cleanup_with_age_zero_removes_everything() {
    let mut cache = cache_of(vec![entry(1, 10, 100), entry(2, 1000, 250), entry(3, 1000, 4096)]);
    let removed = cache.remove_expired(1000, Some(0), &vec![true, true, true]);
    assert!(cache.entries.is_empty());
    assert_eq!(removed.len(), 3);
    let tally = tally_removed(&removed, &vec![DeletionOutcome::Deleted; 3]);
    assert_eq!(tally.cleaned, 3);
    assert_eq!(tally.freed_bytes, 100 + 250 + 4096);
}

#[test]
fn cleanup_keeps_recent_entries() {
    let mut cache = cache_of(vec![entry(1, 10, 100), entry(2, 900, 250), entry(3, 950, 10)]);
    let removed = cache.remove_expired(500 + 86_400, Some(1), &vec![true, true, false]);
    assert_eq!(removed.len(), 2);
    assert_eq!(removed[0].0, "k1");
    assert_eq!(removed[1].0, "k3");
    assert_eq!(cache.entries.len(), 1);
    assert_eq!(cache.entries[0].0, "k2");
    let tally = tally_removed(&removed, &vec![DeletionOutcome::Failed, DeletionOutcome::Missing]);
    assert_eq!(tally.cleaned, 1);
    assert_eq!(tally.freed_bytes, 0);
}

#[test]
fn orphan_detection() {
    let cache = cache_of(vec![entry(1, 1, 1)]);
    assert!(cache.is_orphan("/t/other.jpg", Some("other.jpg"), Some("jpg")));
    assert!(!cache.is_orphan("/t/k1.jpg", Some("k1.jpg"), Some("jpg")));
    assert!(!cache.is_orphan("/t/cache.json", Some("cache.json"), Some("json")));
    assert!(!cache.is_orphan("/t/notes.png", Some("notes.png"), Some("png")));
}

#[test]
fn tally_and_summary() {
    let mut t = CleanupTally::new();
    t.record(DeletionOutcome::Deleted, 1_048_576);
    t.record(DeletionOutcome::Missing, 999);
    t.record(DeletionOutcome::Failed, 5);
    assert_eq!(t.cleaned, 2);
    assert_eq!(t.freed_bytes, 1_048_576);
    assert_eq!(cleanup_summary(&t), "Cleaned up 2 thumbnails, freed 1.00 MB");
    let t = CleanupTally { cleaned: 0, freed_bytes: 0 };
    assert_eq!(cleanup_summary(&t), "Cleaned up 0 thumbnails, freed 0.00 MB");
    let t = CleanupTally { cleaned: 5, freed_bytes: 5_767_168 };
    assert_eq!(cleanup_summary(&t), format!("Cleaned up 5 thumbnails, freed {:.2} MB", 5_767_168f64 / 1_048_576.0));
    let mut t = CleanupTally { cleaned: u64::MAX, freed_bytes: u64::MAX - 1 };
    t.record(DeletionOutcome::Deleted, 10);
    assert_eq!((t.cleaned, t.freed_bytes), (u64::MAX, u64::MAX));
}

#[test]
fn extraction_errors() {
    assert_eq!(
        extraction_error_message(&FfmpegError::MissingBinary("m".to_string())),
        "FFmpeg not found: m"
    );
    assert_eq!(
        extraction_error_message(&FfmpegError::UnsupportedFormat("File is not a video".to_string())),
        "Unsupported format: File is not a video"
    );
    assert_eq!(
        extraction_error_message(&FfmpegError::Execution("bad".to_string())),
        "Failed to extract thumbnail: FFmpeg exited with error: bad"
    );
}
