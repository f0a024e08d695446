//! Thumbnails: the cache, the work in flight and the shared cache on disk.

use fileman::path::FilePath;
use fileman::text::decimal_of;
use fileman::thumbs::cached;
use fileman::thumbs::can_thumbnail;
use fileman::thumbs::clear;
use fileman::thumbs::decode_limit;
use fileman::thumbs::fail_root;
use fileman::thumbs::failure_marker;
use fileman::thumbs::fdo_target_size;
use fileman::thumbs::icon_for;
use fileman::thumbs::is_current;
use fileman::thumbs::load;
use fileman::thumbs::loaded;
use fileman::thumbs::produce;
use fileman::thumbs::shared_candidates;
use fileman::thumbs::store_in_shared_cache;
use fileman::thumbs::thumbnail_root;
use fileman::thumbs::thumbnails_in;
use fileman::thumbs::Action;
use fileman::thumbs::CacheKey;
use fileman::thumbs::Event;
use fileman::thumbs::InFlight;
use fileman::thumbs::Load;
use fileman::thumbs::PixelFormat;
use fileman::thumbs::RawThumb;
use fileman::thumbs::Stage;
use fileman::thumbs::ThemedIcon;
use fileman::thumbs::ThumbCache;
use fileman::thumbs::MAX_CACHED;

/// The key of a numbered picture.
fn key(n: u64) -> CacheKey {
    CacheKey::new(&FilePath::new(&format!("/pictures/{n}.png")), 5, 64)
}

#[test]
fn what_is_cached_is_found_again() {
    let mut cache: ThumbCache<u32> = ThumbCache::new();
    assert_eq!(cache.get(&key(1)), None);
    cache.insert(key(1), 10);
    cache.insert(key(2), 20);
    assert_eq!(cache.get(&key(1)), Some(&10));
    assert_eq!(cache.get(&key(2)), Some(&20));
    cache.insert(key(1), 11);
    assert_eq!(cache.get(&key(1)), Some(&11));
    assert_eq!(cached(&cache, &FilePath::new("/pictures//2.png"), 5, 64), Some(&20));
    assert_eq!(cached(&cache, &FilePath::new("/pictures/2.png"), 6, 64), None);
    assert_eq!(cached(&cache, &FilePath::new("/pictures/2.png"), 5, 32), None);
    clear(&mut cache);
    assert_eq!(cache.get(&key(2)), None);
}

#[test]
fn the_oldest_quarter_makes_room_for_the_newest() {
    let mut cache: ThumbCache<u64> = ThumbCache::new();
    let most = MAX_CACHED as u64;
    for n in 0..most {
        cache.insert(key(n), n);
    }
    assert_eq!(cache.get(&key(0)), Some(&0));
    cache.insert(key(most), most);
    assert_eq!(cache.get(&key(0)), None);
    assert_eq!(cache.get(&key(127)), None);
    assert_eq!(cache.get(&key(128)), Some(&128));
    assert_eq!(cache.get(&key(most)), Some(&most));
    assert_eq!(cache.entries.len(), 385);
}

#[test]
fn a_held_key_takes_no_further_place() {
    let mut cache: ThumbCache<u64> = ThumbCache::new();
    let most = MAX_CACHED as u64;
    for n in 0..most {
        cache.insert(key(n), n);
    }
    cache.insert(key(7), 70);
    assert_eq!(cache.entries.len(), MAX_CACHED);
    assert_eq!(cache.get(&key(7)), Some(&70));
    assert_eq!(cache.get(&key(0)), Some(&0));
    assert_eq!(cache.get(&key(most - 1)), Some(&(most - 1)));
}

#[test]
fn requests_for_one_picture_share_the_work() {
    let cache: ThumbCache<u32> = ThumbCache::new();
    let mut flight: InFlight<u32> = InFlight::new();
    assert!(matches!(load(&cache, &mut flight, &key(1), 7), Load::Produce));
    assert!(matches!(load(&cache, &mut flight, &key(1), 8), Load::Wait));
    assert!(matches!(load(&cache, &mut flight, &key(2), 9), Load::Produce));
    assert!(flight.has_waiters(&key(1)));

    let mut cache = cache;
    assert_eq!(loaded(&mut cache, &mut flight, &key(1), Some(42)), vec![8]);
    assert!(!flight.has_waiters(&key(1)));
    assert!(matches!(load(&cache, &mut flight, &key(1), 1), Load::Hit(&42)));
    assert!(loaded(&mut cache, &mut flight, &key(2), None).is_empty());
    assert!(cache.get(&key(2)).is_none());
}

#[test]
fn a_thumbnail_is_looked_for_before_it_is_made() {
    let (stage, action) = produce(Stage::Start, Event::Checked { failed: true }, 64);
    assert_eq!((stage, action), (Stage::Done, Action::GiveUp));
    let (stage, action) = produce(Stage::Start, Event::Checked { failed: false }, 64);
    assert_eq!((stage, action), (Stage::Shared, Action::LookInSharedCache));
    let (stage, action) = produce(stage, Event::Looked { found: false }, 64);
    assert_eq!((stage, action), (Stage::Queued, Action::AwaitPermit));
    let permit = Event::Permit { granted: true, still_wanted: true, has_waiters: false };
    let (stage, action) = produce(stage, permit, 64);
    assert_eq!((stage, action), (Stage::Decoding, Action::Decode { target: 128 }));
    let (stage, action) = produce(stage, Event::Decoded { ok: true }, 64);
    assert_eq!((stage, action), (Stage::Done, Action::StoreAndShow));
}

#[test]
fn work_nobody_waits_for_is_dropped() {
    let unwanted = Event::Permit { granted: true, still_wanted: false, has_waiters: false };
    let (_, action) = produce(Stage::Queued, unwanted, 64);
    assert_eq!(action, Action::ReturnPermit);
    let shared = Event::Permit { granted: true, still_wanted: false, has_waiters: true };
    let (_, action) = produce(Stage::Queued, shared, 64);
    assert!(matches!(action, Action::Decode { .. }));
}

#[test]
fn buckets_grow_to_hold_the_size() {
    assert_eq!(fdo_target_size(16), 128);
    assert_eq!(fdo_target_size(128), 128);
    assert_eq!(fdo_target_size(129), 256);
    assert_eq!(fdo_target_size(4000), 256);
}

#[test]
fn the_bucket_that_is_written_is_read_first() {
    let root = FilePath::new("/home/ada/.cache/thumbnails");
    let found: Vec<String> =
        shared_candidates(&root, "abc", 200).iter().map(|p| p.display()).collect();
    assert_eq!(found[0], "/home/ada/.cache/thumbnails/large/abc.png");
    assert_eq!(found[3], "/home/ada/.cache/thumbnails/normal/abc.png");
    assert_eq!(found.len(), 4);
    let small: Vec<String> =
        shared_candidates(&root, "abc", 64).iter().map(|p| p.display()).collect();
    assert_eq!(small[0], "/home/ada/.cache/thumbnails/normal/abc.png");
    assert_eq!(small[1], found[0]);
    let plan = store_in_shared_cache(&root, "abc", "file:///a.png", 77, 200, 4242);
    assert_eq!(plan.final_path.display(), found[0]);
    assert_eq!(plan.dir.display(), "/home/ada/.cache/thumbnails/large");
    assert_eq!(
        plan.temp_path.display(),
        "/home/ada/.cache/thumbnails/large/abc.png.4242.tmp"
    );
    assert!(plan.chunks.iter().any(|(k, v)| *k == "tEXt::Thumb::URI" && v == "file:///a.png"));
    assert!(plan.chunks.iter().any(|(k, v)| *k == "tEXt::Thumb::MTime" && v == "77"));
    assert_eq!(plan.mode, 0o600);
}

#[test]
fn a_stale_thumbnail_is_not_shown() {
    assert!(is_current(Some(5), 5));
    assert!(!is_current(Some(4), 5));
    assert!(is_current(None, 5));
    let raw = RawThumb::from_parts(2, 1, 8, true, vec![0; 8], Some(&decimal_of(77)));
    assert_eq!(raw.recorded_mtime, Some(77));
    assert!(matches!(raw.format(), PixelFormat::Rgba));
    let raw = RawThumb::from_parts(2, 1, 6, false, vec![0; 6], Some("soon"));
    assert_eq!(raw.recorded_mtime, None);
    assert!(matches!(raw.format(), PixelFormat::Rgb));
}

#[test]
fn failures_are_remembered_in_their_own_folder() {
    let root = thumbnails_in(&FilePath::new("/c"));
    assert_eq!(root.display(), "/c/thumbnails");
    let dir = fail_root(&root);
    assert!(dir.starts_with(&root));
    assert_eq!(failure_marker(&dir, "abc").file_name_text(), Some("abc.png".to_string()));
}

#[test]
fn the_cache_directory_holds_the_thumbnails() {
    if let Some(root) = thumbnail_root() {
        assert_eq!(root.file_name_text(), Some("thumbnails".to_string()));
        assert!(root.parent().is_some());
    }
}

#[test]
fn few_pictures_are_decoded_at_once() {
    assert_eq!(decode_limit(None), 4);
    assert_eq!(decode_limit(Some(1)), 2);
    assert_eq!(decode_limit(Some(4)), 4);
    assert_eq!(decode_limit(Some(64)), 6);
}

#[test]
fn only_pictures_have_thumbnails() {
    assert!(can_thumbnail("image/png"));
    assert!(!can_thumbnail("text/plain"));
    assert!(!can_thumbnail("image"));
    assert!(!can_thumbnail("image/x-xcf"));
    assert!(!can_thumbnail("image/vnd.adobe.photoshop"));
}

#[test]
fn icons_follow_the_content_type() {
    assert!(matches!(icon_for("inode/directory", true, false), ThemedIcon::Named("folder")));
    assert!(matches!(icon_for("", true, true), ThemedIcon::Named("folder-symbolic")));
    let icon = icon_for("text/plain", false, false);
    assert!(matches!(icon, ThemedIcon::ForContentType(t) if t == "text/plain"));
}
