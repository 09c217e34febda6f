use s3plz::parse::parse_listing_exec;
use s3plz::root::{ListBucketResult, RootQuery};
use s3plz::shared_state::SharedState;
use s3plz::DirEntry;

#[test]
fn list_bucket_spec() {
    let list_bucket_example = r#"<?xml version="1.0" encoding="UTF-8"?>
<ListBucketResult xmlns="http://s3.amazonaws.com/doc/2006-03-01/">
  <Name>s3plz-test-bucket</Name>
  <Contents>
    <Key>deployment.yaml</Key>
    <Size>364</Size>
    <LastModified>2025-07-03T04:21:58.888Z</LastModified>
    <ETag>&quot;d79e6507072e6cf55e90ff4cda2a45b6&quot;</ETag>
    <StorageClass>STANDARD</StorageClass>
  </Contents>
  <Contents>
    <Key>fixtures%2Fdeployment.yaml</Key>
    <Size>364</Size>
    <LastModified>2025-07-03T17:36:14.244Z</LastModified>
    <ETag>&quot;d79e6507072e6cf55e90ff4cda2a45b6&quot;</ETag>
    <StorageClass>STANDARD</StorageClass>
  </Contents>
    <IsTruncated>false</IsTruncated>
  <MaxKeys>1000</MaxKeys>
  <KeyCount>4</KeyCount>
  <EncodingType>url</EncodingType>
</ListBucketResult>'
        "#;

    let deserialized = parse_listing_exec(&list_bucket_example.as_bytes().to_vec()).unwrap();

    assert_eq!(
        deserialized.bucket_name,
        b"s3plz-test-bucket".to_vec(),
        "bucket name mismatch"
    );
    assert_eq!(deserialized.is_truncated, false, "is_truncated mismatch");
    assert_eq!(deserialized.max_keys, 1000, "max_keys mismatch");
    assert_eq!(deserialized.key_count, 4, "key_count mismatch");
    assert_eq!(
        deserialized.encoding_type,
        b"url".to_vec(),
        "encoding_type mismatch"
    );
    assert_eq!(deserialized.contents.len(), 2, "contents length mismatch");
    assert_eq!(
        deserialized.contents[0].key,
        b"deployment.yaml".to_vec(),
        "first content key mismatch"
    );
    assert_eq!(
        deserialized.contents[1].key,
        b"fixtures%2Fdeployment.yaml".to_vec(),
        "second content key mismatch"
    );
}

#[test]
fn parsed_etag_is_unescaped() {
    let xml = "<ListBucketResult><Name>b</Name><Contents><Key>k</Key><Size>3</Size>\
<LastModified>t</LastModified><ETag>&quot;abc&quot;</ETag><StorageClass>STANDARD</StorageClass>\
</Contents><IsTruncated>false</IsTruncated><MaxKeys>1000</MaxKeys><KeyCount>1</KeyCount>\
<EncodingType>url</EncodingType></ListBucketResult>";
    let l = parse_listing_exec(&xml.as_bytes().to_vec()).unwrap();
    assert_eq!(l.contents[0].etag, b"\"abc\"".to_vec());
    assert_eq!(l.contents[0].size, 3);
}

fn two_file_state() -> SharedState {
    let entries = vec![
        DirEntry::File {
            name: b"deployment.yaml".to_vec(),
            contents: vec![7u8; 364],
        },
        DirEntry::Dir {
            name: b"things".to_vec(),
            entries: vec![DirEntry::File {
                name: b"service.yaml".to_vec(),
                contents: b"kind: Service\n".to_vec(),
            }],
        },
    ];
    SharedState::new(
        b"/srv/bucket".to_vec(),
        b"bucket".to_vec(),
        b"2025-07-03T04:21:58.888Z".to_vec(),
        &entries,
    )
}

#[test]
fn listing_round_trip_concrete() {
    let state = two_file_state();
    let listing = ListBucketResult::new(&state);
    let xml = listing.to_xml();
    let back = parse_listing_exec(&xml).unwrap();
    assert_eq!(back.bucket_name, b"bucket".to_vec());
    assert_eq!(back.is_truncated, false);
    assert_eq!(back.max_keys, 1000);
    assert_eq!(back.key_count, 2);
    assert_eq!(back.encoding_type, b"url".to_vec());
    assert_eq!(back.contents.len(), 2);
    for (a, b) in back.contents.iter().zip(listing.contents.iter()) {
        assert_eq!(a.key, b.key);
        assert_eq!(a.size, b.size);
        assert_eq!(a.etag, b.etag);
        assert_eq!(a.last_modified, b.last_modified);
        assert_eq!(a.storage_class, b.storage_class);
    }
}

#[test]
fn listing_round_trip_awkward_bytes() {
    // Keys and names holding the XML-reserved characters survive the trip.
    let entries = vec![DirEntry::File {
        name: b"a&b<c>d\"e.txt".to_vec(),
        contents: b"x".to_vec(),
    }];
    let state = SharedState::new(
        b"/srv/x".to_vec(),
        b"q&a<b>".to_vec(),
        b"now & then".to_vec(),
        &entries,
    );
    let xml = ListBucketResult::new(&state).to_xml();
    let back = parse_listing_exec(&xml).unwrap();
    assert_eq!(back.bucket_name, b"q&a<b>".to_vec());
    assert_eq!(back.contents[0].key, b"a&b<c>d\"e.txt".to_vec());
    assert_eq!(back.contents[0].last_modified, b"now & then".to_vec());
}

#[test]
fn listing_of_two_objects_has_key_count_two() {
    let state = two_file_state();
    let query = RootQuery {
        list_type: Some(2),
        location: None,
    };
    let resp = s3plz::root::get_root(&query, &state).unwrap();
    assert_eq!(resp.status, 200);
    let body = parse_listing_exec(&resp.body).unwrap();
    assert_eq!(body.key_count, 2);
    let keys: Vec<&[u8]> = body.contents.iter().map(|c| c.key.as_slice()).collect();
    assert_eq!(
        keys.iter()
            .filter(|k| **k == b"deployment.yaml".as_slice())
            .count(),
        1
    );
    assert_eq!(
        keys.iter()
            .filter(|k| **k == b"things/service.yaml".as_slice())
            .count(),
        1
    );
}

#[test]
fn location_query_returns_mock_region() {
    let state = two_file_state();
    let query = RootQuery {
        list_type: None,
        location: Some(b"".to_vec()),
    };
    let resp = s3plz::root::get_root(&query, &state).unwrap();
    assert_eq!(resp.status, 200);
    let body = String::from_utf8(resp.body).unwrap();
    assert!(body.contains("<LocationConstraint xmlns=\"http://s3.amazonaws.com/doc/2006-03-01/\">Europe</LocationConstraint>"));
}

#[test]
fn bare_root_query_falls_back() {
    let state = two_file_state();
    let query = RootQuery {
        list_type: None,
        location: None,
    };
    let err = s3plz::root::get_root(&query, &state).unwrap_err();
    assert_eq!(err.status, 501);
    assert_eq!(err.code, b"NotImplemented".to_vec());
    let resp = err.into_response();
    assert_eq!(resp.status, 501);
    let body = String::from_utf8(resp.body).unwrap();
    assert!(body.contains("<Code>NotImplemented</Code>"));
}

#[test]
fn head_root_is_empty_ok() {
    let resp = s3plz::root::head_root();
    assert_eq!(resp.status, 200);
    assert!(resp.body.is_empty());
    assert!(resp.headers.is_empty());
}

#[test]
fn malformed_documents_are_rejected() {
    assert!(parse_listing_exec(&b"not xml at all".to_vec()).is_none());
    assert!(parse_listing_exec(&b"<ListBucketResult><Name>b</Name>".to_vec()).is_none());
    let bad_count = "<ListBucketResult><Name>b</Name><IsTruncated>false</IsTruncated>\
<MaxKeys>many</MaxKeys><KeyCount>0</KeyCount><EncodingType>url</EncodingType></ListBucketResult>";
    assert!(parse_listing_exec(&bad_count.as_bytes().to_vec()).is_none());
}
