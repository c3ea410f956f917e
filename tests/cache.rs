use wedi::cache::{CachedLine, EditType, HighlightCache};

#[test]
fn test_cache_basic() {
    let mut cache = HighlightCache::new();

    let cached = CachedLine {
        text: "test".to_string(),
        highlighted: "\x1b[0mtest\x1b[0m".to_string(),
    };

    cache.insert(0, cached.clone());
    assert!(cache.is_valid(0, "test"));
    assert!(!cache.is_valid(0, "different"));
}

#[test]
fn test_cache_invalidation() {
    let mut cache = HighlightCache::new();

    let cached = CachedLine {
        text: "test".to_string(),
        highlighted: String::new(),
    };

    cache.insert(0, cached.clone());
    cache.insert(1, cached.clone());
    cache.insert(2, cached);

    assert_eq!(cache.len(), 3);

    cache.invalidate_from(1);

    assert_eq!(cache.len(), 1);
    assert!(cache.get(0).is_some());
    assert!(cache.get(1).is_none());
    assert!(cache.get(2).is_none());
}

#[test]
fn test_smart_invalidation() {
    let mut cache = HighlightCache::new();

    let cached = CachedLine {
        text: "test".to_string(),
        highlighted: String::new(),
    };

    for i in 0..10 {
        cache.insert(i, cached.clone());
    }

    assert_eq!(cache.len(), 10);

    cache.invalidate_from_edit(5, EditType::CharInsert);

    assert_eq!(cache.len(), 5);
    assert!(cache.get(4).is_some());
    assert!(cache.get(5).is_none());
}

#[test]
fn test_line_edit_clears_all() {
    let mut cache = HighlightCache::new();

    let cached = CachedLine {
        text: "test".to_string(),
        highlighted: String::new(),
    };

    for i in 0..10 {
        cache.insert(i, cached.clone());
    }

    cache.invalidate_from_edit(5, EditType::LineInsert);

    assert_eq!(cache.len(), 0);
}

#[test]
fn cache_full_clears_before_insert() {
    let mut cache = HighlightCache::with_capacity(2);
    let line = CachedLine { text: "x".to_string(), highlighted: String::new() };
    cache.insert(0, line.clone());
    cache.insert(1, line.clone());
    cache.insert(7, line);
    assert_eq!(cache.len(), 1);
    assert!(cache.get(7).is_some());
    assert!(cache.get(0).is_none());
    assert_eq!(cache.stats().capacity, 2);
}

#[test]
fn cache_reinsert_replaces_entry() {
    let mut cache = HighlightCache::new();
    cache.insert(3, CachedLine { text: "old".to_string(), highlighted: String::new() });
    cache.insert(3, CachedLine { text: "new".to_string(), highlighted: String::new() });
    assert_eq!(cache.len(), 1);
    assert!(cache.is_valid(3, "new"));
    assert!(!cache.is_valid(3, "old"));
}

#[test]
fn cache_invalidate_range_and_single() {
    let mut cache = HighlightCache::new();
    let line = CachedLine { text: "x".to_string(), highlighted: String::new() };
    for i in 0..6 {
        cache.insert(i, line.clone());
    }
    cache.invalidate_range(1, 3);
    assert_eq!(cache.len(), 3);
    assert!(cache.get(0).is_some());
    assert!(cache.get(2).is_none());
    assert!(cache.get(4).is_some());
    cache.invalidate(4);
    assert!(cache.get(4).is_none());
    cache.clear();
    assert!(cache.is_empty());
}
