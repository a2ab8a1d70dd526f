use rustypod::db::{Connection, Database, StoreError};
use rustypod::podcast::Podcast;

fn podcast() -> Podcast {
    Podcast {
        id: 0,
        title: "Example Cast".to_string(),
        url: "https://example.com/feed.xml".to_string(),
        description: "A show".to_string(),
        enabled: true,
        last_checked: 1_700_000_000,
        image_url: Some("https://example.com/art.png".to_string()),
        cache_key: Some("abc123".to_string()),
    }
}

fn other_podcast() -> Podcast {
    Podcast {
        id: 0,
        title: "Second Cast".to_string(),
        url: "https://example.org/other.xml".to_string(),
        description: "Another show".to_string(),
        enabled: false,
        last_checked: 1_700_000_100,
        image_url: None,
        cache_key: None,
    }
}

#[test]
fn test_create_podcast() {
    let mut d = Database::new();
    let p = podcast();
    let podcast = d.create_podcast(&p);

    assert_eq!(podcast.id > 0, true);
    assert_eq!(podcast.title, p.title);
    assert_eq!(podcast.url, p.url);
    assert_eq!(podcast.description, p.description);
    assert_eq!(podcast.enabled, p.enabled);
    assert_eq!(podcast.last_checked, p.last_checked);
    assert_eq!(podcast.image_url, p.image_url);
    assert_eq!(podcast.cache_key, p.cache_key);

    // inserting twice is ok
    let same_podcast = d.create_podcast(&podcast);
    assert_eq!(&same_podcast, &podcast);
}

#[test]
fn test_update_podcast() {
    let mut d = Database::new();
    let created = d.create_podcast(&podcast());
    let p = Podcast {
        id: created.id,
        ..other_podcast()
    };
    let podcast = d.update_podcast(&p).unwrap();

    assert_eq!(podcast.id, p.id);
    assert_eq!(podcast.title, p.title);
    assert_eq!(podcast.url, p.url);
    assert_eq!(podcast.description, p.description);
    assert_eq!(podcast.enabled, p.enabled);
    assert_eq!(podcast.last_checked, p.last_checked);
    assert_eq!(podcast.image_url, p.image_url);
    assert_eq!(podcast.cache_key, p.cache_key);
}

#[test]
fn test_delete_podcast() {
    let mut d = Database::new();
    let p = d.create_podcast(&podcast());
    let p2 = d.get_podcast(&p.id);
    assert_eq!(p2, Some(p.clone()));

    d.delete_podcast(&p);
    let p2 = d.get_podcast(&p.id);
    assert_eq!(p2, None);
}

#[test]
fn test_uniqueness_by_url() {
    let mut d = Database::new();
    let first = d.create_podcast(&podcast());

    let mut refreshed = other_podcast();
    refreshed.url = podcast().url;
    let second = d.create_podcast(&refreshed);

    // one row per URL, and the identifier is stable
    assert_eq!(d.len(), 1);
    assert_eq!(second.id, first.id);

    // the merged row reflects the second write's fields, URL unchanged
    assert_eq!(second.url, first.url);
    assert_eq!(second.title, refreshed.title);
    assert_eq!(second.description, refreshed.description);
    assert_eq!(second.enabled, refreshed.enabled);
    assert_eq!(second.last_checked, refreshed.last_checked);
    assert_eq!(second.image_url, refreshed.image_url);
    assert_eq!(second.cache_key, refreshed.cache_key);
    assert_eq!(d.get_podcast(&first.id), Some(second.clone()));
}

#[test]
fn test_update_not_found() {
    let mut d = Database::new();
    d.create_podcast(&podcast());

    let mut ghostly = other_podcast();
    ghostly.id = 4242;
    match d.update_podcast(&ghostly) {
        Err(StoreError::NotFound { id }) => assert_eq!(id, 4242),
        other => panic!("expected NotFound, got {:?}", other),
    }
    // update never creates a row
    assert_eq!(d.len(), 1);
}

#[test]
fn test_update_url_conflict() {
    let mut d = Database::new();
    let a = d.create_podcast(&podcast());
    let b = d.create_podcast(&other_podcast());
    assert_eq!(d.len(), 2);

    let mut clash = b.clone();
    clash.url = a.url.clone();
    match d.update_podcast(&clash) {
        Err(StoreError::ConstraintViolation { url }) => assert_eq!(url, a.url),
        other => panic!("expected ConstraintViolation, got {:?}", other),
    }
    // the store is unchanged
    assert_eq!(d.get_podcast(&b.id), Some(b.clone()));
}

#[test]
fn test_delete_twice_is_not_an_error() {
    let mut d = Database::new();
    let p = d.create_podcast(&podcast());
    d.delete_podcast(&p);
    assert_eq!(d.get_podcast(&p.id), None);
    d.delete_podcast(&p);
    assert_eq!(d.get_podcast(&p.id), None);
    assert_eq!(d.len(), 0);
}

#[test]
fn test_round_trip() {
    let mut d = Database::new();
    let merged = d.create_podcast(&podcast());
    assert_eq!(d.get_podcast(&merged.id), Some(merged.clone()));
}

#[test]
fn test_connection_string() {
    assert_eq!(
        rustypod::db::connection_string(&Connection::Memory),
        "sqlite::memory:"
    );
    assert_eq!(
        rustypod::db::connection_string(&Connection::File("/tmp/pods/database".to_string())),
        "file:///tmp/pods/database?mode=rwc"
    );
}
