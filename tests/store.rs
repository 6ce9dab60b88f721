use http_cache::cache_url::CacheUrl;
use http_cache::error::CacheError;
use http_cache::headers::HeadersMap;
use http_cache::store::HttpCache;

fn headers_of(pairs: &[(&str, &str)]) -> HeadersMap {
    let mut h = HeadersMap::new();
    for (k, v) in pairs {
        h.insert(k.to_string(), v.to_string());
    }
    h
}

#[test]
fn test_get_set() {
    let cache = HttpCache::new("/cache/root");
    let url = CacheUrl::parse("https://deno.land/x/welcome.ts").unwrap();
    let headers = headers_of(&[
        ("content-type", "application/javascript"),
        ("etag", "as5625rqdsfb"),
    ]);
    let content = b"Hello world";
    let r = cache.set(&url, &headers, content);
    assert!(r.is_ok());
    let w = r.unwrap();
    let r = HttpCache::read_entry(Some(w.content.clone()), Some(w.headers.clone()));
    assert!(r.is_ok());
    let (body, headers) = r.unwrap();
    let content = String::from_utf8(body).unwrap();
    assert_eq!(content, "Hello world");
    assert_eq!(headers.get("content-type").unwrap(), "application/javascript");
    assert_eq!(headers.get("etag").unwrap(), "as5625rqdsfb");
    assert_eq!(headers.get("foobar"), None);
}

#[test]
fn set_then_read_scenario() {
    let cache = HttpCache::new("/c");
    let url = CacheUrl::parse("https://example.com/a.ts").unwrap();
    let w = cache
        .set(&url, &headers_of(&[("content-type", "text/x")]), b"hello")
        .unwrap();
    let (body, headers) = HttpCache::read_entry(Some(w.content), Some(w.headers)).unwrap();
    assert_eq!(body, b"hello".to_vec());
    assert_eq!(headers.get("content-type").unwrap(), "text/x");
}

#[test]
fn entry_paths_layout() {
    let cache = HttpCache::new("/root/cache");
    let url = CacheUrl::parse("https://deno.land:8080/x/foo.ts").unwrap();
    let p = cache.entry_paths(&url).unwrap();
    assert_eq!(p.dir, "/root/cache/https/deno.land_PORT8080");
    assert_eq!(
        p.content,
        "/root/cache/https/deno.land_PORT8080/2c0a064891b9e3fbe386f5d4a833bce5076543f5404613656042107213a7bbc8"
    );
    assert_eq!(p.headers, format!("{}.headers.json", p.content));
    let slash = HttpCache::new("/root/cache/");
    assert_eq!(slash.get_cache_filename(&url).unwrap(), p.content);
}

#[test]
fn set_writes_to_the_entry_paths() {
    let cache = HttpCache::new("/c");
    let url = CacheUrl::parse("http://h/a").unwrap();
    let w = cache.set(&url, &HeadersMap::new(), b"x").unwrap();
    let p = cache.entry_paths(&url).unwrap();
    assert_eq!(w.paths.content, p.content);
    assert_eq!(w.paths.headers, p.headers);
    assert_eq!(w.paths.dir, p.dir);
    assert_eq!(w.headers, b"{}".to_vec());
}

#[test]
fn headers_json_is_an_object_of_strings() {
    let h = headers_of(&[("a", "1"), ("b\"c", "x\ny")]);
    assert_eq!(h.to_json().unwrap(), "{\"a\":\"1\",\"b\\\"c\":\"x\\ny\"}");
    let back = HeadersMap::from_json(h.to_json().unwrap().as_bytes()).unwrap();
    assert_eq!(back.get("a").unwrap(), "1");
    assert_eq!(back.get("b\"c").unwrap(), "x\ny");
}

#[test]
fn second_set_replaces_the_first() {
    let cache = HttpCache::new("/c");
    let url = CacheUrl::parse("https://example.com/a.ts").unwrap();
    let w1 = cache
        .set(&url, &headers_of(&[("etag", "one"), ("old", "yes")]), b"first")
        .unwrap();
    let w2 = cache.set(&url, &headers_of(&[("etag", "two")]), b"second").unwrap();
    assert_eq!(w1.paths.content, w2.paths.content);
    let (body, headers) = HttpCache::read_entry(Some(w2.content), Some(w2.headers)).unwrap();
    assert_eq!(body, b"second".to_vec());
    assert_eq!(headers.get("etag").unwrap(), "two");
    assert_eq!(headers.get("old"), None);
}

#[test]
fn missing_files_are_a_miss() {
    assert!(matches!(
        HttpCache::read_entry(None, Some(b"{}".to_vec())),
        Err(CacheError::NotFound)
    ));
    assert!(matches!(
        HttpCache::read_entry(Some(b"x".to_vec()), None),
        Err(CacheError::NotFound)
    ));
    assert!(matches!(HttpCache::read_entry(None, None), Err(CacheError::NotFound)));
}

#[test]
fn malformed_headers_are_a_parse_error() {
    assert!(matches!(
        HttpCache::read_entry(Some(b"x".to_vec()), Some(b"{not json".to_vec())),
        Err(CacheError::ParseError)
    ));
    assert!(matches!(
        HttpCache::read_entry(Some(b"x".to_vec()), Some(b"{\"a\":1}".to_vec())),
        Err(CacheError::ParseError)
    ));
}

#[test]
fn header_insert_replaces_value() {
    let mut h = HeadersMap::new();
    h.insert("k".to_string(), "1".to_string());
    h.insert("k".to_string(), "2".to_string());
    assert_eq!(h.get("k").unwrap(), "2");
    assert_eq!(h.to_json().unwrap(), "{\"k\":\"2\"}");
    assert_eq!(h.get("other"), None);
}

#[test]
fn set_on_unsupported_scheme_fails() {
    let cache = HttpCache::new("/c");
    let url = CacheUrl::parse("ftp://h/a").unwrap();
    assert!(matches!(
        cache.set(&url, &HeadersMap::new(), b"x"),
        Err(CacheError::UnsupportedScheme)
    ));
}

#[test]
fn setting_the_same_entry_twice_succeeds_both_times() {
    let cache = HttpCache::new("/c");
    let url = CacheUrl::parse("https://example.com/a.ts").unwrap();
    let h = headers_of(&[("etag", "e")]);
    let w1 = cache.set(&url, &h, b"body").unwrap();
    let w2 = cache.set(&url, &h, b"body").unwrap();
    assert_eq!(w1.content, w2.content);
    assert_eq!(w1.headers, w2.headers);
    assert_eq!(w1.paths.content, w2.paths.content);
}

#[test]
fn headers_json_is_sorted_by_key() {
    let h = headers_of(&[("z", "1"), ("a", "2")]);
    assert_eq!(h.to_json().unwrap(), "{\"a\":\"2\",\"z\":\"1\"}");
}
