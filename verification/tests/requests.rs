use s3plz::path::{get_path, locate, not_found, resolve_key};
use s3plz::shared_state::SharedState;
use s3plz::util::fallback;
use s3plz::DirEntry;

fn fixture_state() -> SharedState {
    let entries = vec![
        DirEntry::File {
            name: b"deployment.yaml".to_vec(),
            contents: vec![7u8; 364],
        },
        DirEntry::Dir {
            name: b"things".to_vec(),
            entries: vec![DirEntry::File {
                name: b"service.yaml".to_vec(),
                contents: b"kind: Service\n".to_vec(),
            }],
        },
    ];
    SharedState::new(
        b"/srv/bucket".to_vec(),
        b"bucket".to_vec(),
        b"2025-07-03T04:21:58.888Z".to_vec(),
        &entries,
    )
}

fn header<'a>(resp: &'a s3plz::response::HttpResponse, name: &[u8]) -> &'a [u8] {
    for (k, v) in &resp.headers {
        if k.as_slice() == name {
            return v.as_slice();
        }
    }
    panic!("header missing");
}

#[test]
fn resolve_key_drops_the_bucket_segment() {
    assert_eq!(
        resolve_key(&b"/bucket/deployment.yaml".to_vec()),
        b"deployment.yaml".to_vec()
    );
    assert_eq!(
        resolve_key(&b"/bucket/a/b/c/d".to_vec()),
        b"a/b/c/d".to_vec()
    );
    assert_eq!(resolve_key(&b"/bucket/x/".to_vec()), b"x".to_vec());
    assert_eq!(resolve_key(&b"//bucket///x//y".to_vec()), b"x/y".to_vec());
    assert_eq!(resolve_key(&b"/bucket".to_vec()), b"".to_vec());
}

#[test]
fn fetching_an_existing_key_gives_200_with_metadata() {
    let state = fixture_state();
    let uri = b"/bucket/deployment.yaml".to_vec();
    let disk = locate(&state, &uri).expect("key should be indexed");
    assert_eq!(disk, b"/srv/bucket/deployment.yaml".to_vec());
    let resp = get_path(&state, &uri, Ok(vec![7u8; 364]));
    assert_eq!(resp.status, 200);
    assert_eq!(header(&resp, b"Content-Length"), b"364");
    let etag = header(&resp, b"ETag").to_vec();
    let (stored, _) = state.get(&b"deployment.yaml".to_vec()).unwrap();
    let mut quoted = vec![b'"'];
    quoted.extend_from_slice(&stored);
    quoted.push(b'"');
    assert_eq!(etag, quoted);
    assert_eq!(
        header(&resp, b"Last-Modified"),
        b"2025-07-03T04:21:58.888Z"
    );
    assert_eq!(header(&resp, b"Content-Type"), b"application/json");
    assert_eq!(resp.body.len(), 364);
}

#[test]
fn fetching_a_nested_key_gives_200() {
    let state = fixture_state();
    let uri = b"/bucket/things/service.yaml".to_vec();
    assert!(locate(&state, &uri).is_some());
    let resp = get_path(&state, &uri, Ok(b"kind: Service\n".to_vec()));
    assert_eq!(resp.status, 200);
}

#[test]
fn fetching_a_missing_key_gives_404() {
    let state = fixture_state();
    let uri = b"/bucket/does/not/exist".to_vec();
    assert!(locate(&state, &uri).is_none());
    let resp = not_found();
    assert_eq!(resp.status, 404);
    assert!(resp.body.is_empty());
}

#[test]
fn unreadable_file_gives_500_with_structured_error() {
    let state = fixture_state();
    let uri = b"/bucket/deployment.yaml".to_vec();
    let resp = get_path(&state, &uri, Err(b"No such file or directory".to_vec()));
    assert_eq!(resp.status, 500);
    let body = String::from_utf8(resp.body).unwrap();
    assert!(body.contains("<Code>CouldNotReadOffDisk</Code>"));
    assert!(body.contains("/srv/bucket/deployment.yaml"));
    assert!(body.contains("No such file or directory"));
}

#[test]
fn unmatched_requests_get_501() {
    let err = fallback();
    assert_eq!(err.status, 501);
    assert_eq!(err.code, b"NotImplemented".to_vec());
    let resp = err.into_response();
    assert_eq!(resp.status, 501);
    assert_eq!(header(&resp, b"Content-Type"), b"application/xml");
    let body = String::from_utf8(resp.body).unwrap();
    assert!(body.contains("<Code>NotImplemented</Code>"));
}

#[test]
fn escaping_round_trips_reserved_bytes() {
    let raw = b"a<b>c&d\"e".to_vec();
    let escaped = s3plz::xmlesc::escape_bytes(&raw);
    assert_eq!(escaped, b"a&lt;b&gt;c&amp;d&quot;e".to_vec());
    assert_eq!(s3plz::xmlesc::unescape_bytes(&escaped), raw);
}
