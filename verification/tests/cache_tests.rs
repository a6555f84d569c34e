use grouped_alt_tab::cache::{IconCache, ThumbnailCache};

#[test]
fn thumbnail_reused_while_size_and_title_stay() {
    let mut cache = ThumbnailCache::new();
    assert_eq!(cache.cached(1, 800, 600, "Doc"), None);
    cache.store(1, 800, 600, "Doc".to_string(), "data:a".to_string());
    assert_eq!(cache.cached(1, 800, 600, "Doc").as_deref(), Some("data:a"));
    // a new size or title asks for a new capture
    assert_eq!(cache.cached(1, 801, 600, "Doc"), None);
    assert_eq!(cache.cached(1, 800, 601, "Doc"), None);
    assert_eq!(cache.cached(1, 800, 600, "Doc *"), None);
    // another window has no capture
    assert_eq!(cache.cached(2, 800, 600, "Doc"), None);
}

#[test]
fn thumbnail_store_replaces_earlier_capture() {
    let mut cache = ThumbnailCache::new();
    cache.store(1, 10, 10, "a".to_string(), "first".to_string());
    cache.store(2, 20, 20, "b".to_string(), "other".to_string());
    cache.store(1, 30, 30, "c".to_string(), "second".to_string());
    assert_eq!(cache.cached(1, 10, 10, "a"), None);
    assert_eq!(cache.cached(1, 30, 30, "c").as_deref(), Some("second"));
    assert_eq!(cache.cached(2, 20, 20, "b").as_deref(), Some("other"));
}

#[test]
fn closed_windows_are_forgotten() {
    let mut cache = ThumbnailCache::new();
    cache.store(1, 10, 10, "a".to_string(), "one".to_string());
    cache.store(2, 10, 10, "b".to_string(), "two".to_string());
    cache.store(3, 10, 10, "c".to_string(), "three".to_string());
    cache.retain_windows(&vec![3, 1, 99]);
    assert_eq!(cache.cached(1, 10, 10, "a").as_deref(), Some("one"));
    assert_eq!(cache.cached(2, 10, 10, "b"), None);
    assert_eq!(cache.cached(3, 10, 10, "c").as_deref(), Some("three"));
    cache.retain_windows(&Vec::new());
    assert_eq!(cache.cached(1, 10, 10, "a"), None);
}

#[test]
fn icons_are_extracted_once_per_executable() {
    let mut cache = IconCache::new();
    assert_eq!(cache.icon_for("C:\\a.exe"), None);
    cache.store("C:\\a.exe".to_string(), Some("data:icon".to_string()));
    cache.store("C:\\b.exe".to_string(), None);
    assert_eq!(cache.icon_for("C:\\a.exe"), Some(Some("data:icon".to_string())));
    assert_eq!(cache.icon_for("C:\\b.exe"), Some(None));
    assert_eq!(cache.icon_for("C:\\c.exe"), None);
    cache.store("C:\\a.exe".to_string(), Some("data:new".to_string()));
    assert_eq!(cache.icon_for("C:\\a.exe"), Some(Some("data:new".to_string())));
}
