use s3plz::fingerprint::compute_fingerprint;
use s3plz::shared_state::SharedState;
use s3plz::DirEntry;

#[test]
fn test_shared_state_built() {
    let entries = vec![
        DirEntry::File {
            name: b"deployment.yaml".to_vec(),
            contents: b"apiVersion: apps/v1\n".to_vec(),
        },
        DirEntry::File {
            name: b"service.yaml".to_vec(),
            contents: b"apiVersion: v1\n".to_vec(),
        },
        DirEntry::Dir {
            name: b"things".to_vec(),
            entries: vec![
                DirEntry::File {
                    name: b"deployment.yaml".to_vec(),
                    contents: b"apiVersion: apps/v1\n".to_vec(),
                },
                DirEntry::File {
                    name: b"service.yaml".to_vec(),
                    contents: b"apiVersion: v1\n".to_vec(),
                },
            ],
        },
    ];
    let state = SharedState::new(
        b"s3plz-test-bucket".to_vec(),
        b"s3plz-test-bucket".to_vec(),
        b"2025-07-03T04:21:58.888Z".to_vec(),
        &entries,
    );

    assert_eq!(state.etags_and_sizes.len(), 4);

    for r in &state.etags_and_sizes {
        println!(
            "{} -> etag: {} size: {}",
            String::from_utf8_lossy(&r.key),
            String::from_utf8_lossy(&r.etag),
            r.size
        );
    }

    vec![
        "deployment.yaml",
        "service.yaml",
        "things/deployment.yaml",
        "things/service.yaml",
    ]
    .into_iter()
    .for_each(|file| {
        assert!(
            state.get(&file.as_bytes().to_vec()).is_some(),
            "expected {} to be in state but it was not!",
            file,
        )
    })
}

#[test]
fn fingerprint_of_empty_bytes_is_known() {
    // base64-encoded MD5 of the empty byte string.
    let fp = compute_fingerprint(&Vec::new());
    assert_eq!(fp, b"1B2M2Y8AsgTpgAmY7PhCfg==".to_vec());
}

#[test]
fn identical_contents_share_a_fingerprint() {
    let entries = vec![
        DirEntry::File {
            name: b"a.txt".to_vec(),
            contents: b"same bytes".to_vec(),
        },
        DirEntry::File {
            name: b"b.txt".to_vec(),
            contents: b"same bytes".to_vec(),
        },
        DirEntry::File {
            name: b"c.txt".to_vec(),
            contents: b"other bytes".to_vec(),
        },
    ];
    let state = SharedState::new(
        b"/srv/x".to_vec(),
        b"x".to_vec(),
        b"t".to_vec(),
        &entries,
    );
    let (etag_a, size_a) = state.get(&b"a.txt".to_vec()).unwrap();
    let (etag_b, _) = state.get(&b"b.txt".to_vec()).unwrap();
    let (etag_c, _) = state.get(&b"c.txt".to_vec()).unwrap();
    assert_eq!(etag_a, etag_b);
    assert_ne!(etag_a, etag_c);
    assert_eq!(size_a, 10);
    assert_eq!(etag_a, compute_fingerprint(&b"same bytes".to_vec()));
}

#[test]
fn nested_keys_are_slash_joined() {
    let entries = vec![DirEntry::Dir {
        name: b"a".to_vec(),
        entries: vec![DirEntry::Dir {
            name: b"b".to_vec(),
            entries: vec![DirEntry::File {
                name: b"c.txt".to_vec(),
                contents: b"deep".to_vec(),
            }],
        }],
    }];
    let state = SharedState::new(
        b"/srv/x".to_vec(),
        b"x".to_vec(),
        b"t".to_vec(),
        &entries,
    );
    assert_eq!(state.etags_and_sizes.len(), 1);
    assert!(state.get(&b"a/b/c.txt".to_vec()).is_some());
    assert!(state.get(&b"a".to_vec()).is_none());
}

#[test]
fn empty_root_gives_empty_index() {
    let state = SharedState::new(
        b"/srv/x".to_vec(),
        b"x".to_vec(),
        b"t".to_vec(),
        &Vec::new(),
    );
    assert_eq!(state.etags_and_sizes.len(), 0);
}
