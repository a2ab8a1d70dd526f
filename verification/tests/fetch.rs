use rustypod::fetch::{normalize_response, normalize_response_now, FetchError};

const FEED_URL: &str = "https://example.com/feed.xml";

fn feed_xml() -> Vec<u8> {
    let xml = "<rss version=\"2.0\" \
         xmlns:itunes=\"http://www.itunes.com/dtds/podcast-1.0.dtd\">\
         <channel>\
         <title>Example Cast</title>\
         <description>A show</description>\
         <itunes:image href=\"https://example.com/art.png\"/>\
         </channel></rss>";
    xml.as_bytes().to_vec()
}

#[test]
fn test_normalize_ok() {
    let body = feed_xml();
    let r = normalize_response(
        FEED_URL.to_string(),
        200,
        &body,
        Some("abc123".to_string()),
        1_700_000_000,
    );
    match r {
        Ok(p) => {
            assert_eq!(p.id, 0);
            assert_eq!(p.title, "Example Cast");
            assert_eq!(p.url, FEED_URL);
            assert_eq!(p.description, "A show");
            assert!(p.enabled);
            assert_eq!(p.last_checked, 1_700_000_000);
            assert_eq!(p.image_url, Some("https://example.com/art.png".to_string()));
            assert_eq!(p.cache_key, Some("abc123".to_string()));
        }
        Err(e) => panic!("expected a record, got {:?}", e),
    }
}

#[test]
fn test_normalize_no_etag_no_image() {
    let xml = "<rss version=\"2.0\"><channel>\
         <title>Example Cast</title>\
         <description>A show</description>\
         </channel></rss>";
    let body = xml.as_bytes().to_vec();
    let r = normalize_response(FEED_URL.to_string(), 226, &body, None, 7);
    match r {
        Ok(p) => {
            assert_eq!(p.title, "Example Cast");
            assert_eq!(p.image_url, None);
            assert_eq!(p.cache_key, None);
            assert_eq!(p.last_checked, 7);
        }
        Err(e) => panic!("expected a record, got {:?}", e),
    }
}

#[test]
fn test_normalize_http_error() {
    let body = feed_xml();
    let r = normalize_response(FEED_URL.to_string(), 404, &body, None, 1);
    match r {
        Err(FetchError::FetchFailed { url, status }) => {
            assert_eq!(url, FEED_URL);
            assert_eq!(status, 404);
        }
        other => panic!("expected FetchFailed, got {:?}", other),
    }
}

#[test]
fn test_normalize_not_xml() {
    let body = b"this is no feed at all".to_vec();
    let r = normalize_response(FEED_URL.to_string(), 200, &body, None, 1);
    match r {
        Err(FetchError::ParseFailed { url }) => assert_eq!(url, FEED_URL),
        other => panic!("expected ParseFailed, got {:?}", other),
    }
}

#[test]
fn test_normalize_missing_title() {
    let xml = "<rss version=\"2.0\"><channel>\
         <description>A show</description>\
         </channel></rss>";
    let body = xml.as_bytes().to_vec();
    let r = normalize_response(FEED_URL.to_string(), 200, &body, None, 1);
    match r {
        Err(FetchError::ParseFailed { url }) => assert_eq!(url, FEED_URL),
        other => panic!("expected ParseFailed, got {:?}", other),
    }
}

#[test]
fn test_normalize_now_stamps_a_time() {
    let body = feed_xml();
    let r = normalize_response_now(FEED_URL.to_string(), 200, &body, None);
    match r {
        Ok(p) => {
            assert_eq!(p.title, "Example Cast");
            assert_eq!(p.url, FEED_URL);
            // the clock moved past the epoch a while ago
            assert!(p.last_checked > 0);
        }
        Err(e) => panic!("expected a record, got {:?}", e),
    }
}
