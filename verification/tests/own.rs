use gaugewright_directory::{
    digest, is_account_root, publish_precheck, to_hex_lower, BlindDirectory, Disposition,
    EntrySummary, FetchReply, LogRow, PublishReply, DIRECTORY_ENTRY_KIND, DIRECTORY_SCOPE,
    MAX_PUT_BYTES,
};

fn root_of(prefix: &str, digits: usize) -> String {
    let mut r = String::from(prefix);
    for i in 0..digits {
        r.push(b"0123456789abcdef"[i % 16] as char);
    }
    r
}

fn entry(root: &str, generation: u64, retraction: bool) -> EntrySummary {
    EntrySummary { generation, root_pubkey: root.to_string(), is_retraction: retraction }
}

#[test]
fn digest_is_the_sha256_of_the_body_in_lowercase_hex() {
    assert_eq!(digest(""), "e3b0c44298fc1c149afbf4c8996fb92427ae41e4649b934ca495991b7852b855");
    assert_eq!(digest("abc"), "ba7816bf8f01cfea414140de5dae2223b00361a396177a9cb410ff61f20015ad");
    assert_eq!(digest("abc").len(), 64);
}

#[test]
fn hex_is_two_lowercase_digits_per_byte() {
    assert_eq!(to_hex_lower(&[]), "");
    assert_eq!(to_hex_lower(&[0x00, 0x0f, 0xa5, 0xff]), "000fa5ff");
}

#[test]
fn account_root_prefixes_and_lengths() {
    assert!(is_account_root(&root_of("02", 64)));
    assert!(is_account_root(&root_of("03", 64)));
    assert!(is_account_root(&root_of("04", 128)));
    assert!(is_account_root(&root_of("02", 100)));
    assert!(!is_account_root(&root_of("05", 64)));
    assert!(!is_account_root(&root_of("01", 64)));
    assert!(!is_account_root(&root_of("02", 63)));
    assert!(!is_account_root(&root_of("02", 129)));
    assert!(!is_account_root("02"));
    assert!(!is_account_root("0"));
    let mut bad = root_of("02", 63);
    bad.push('g');
    assert!(!is_account_root(&bad));
    // A multi-byte character right after the prefix is no hex digit, and no panic.
    let mut wide = String::from("0€");
    wide.push_str(&root_of("", 64));
    assert!(!is_account_root(&wide));
}

#[test]
fn a_body_over_the_limit_is_too_large() {
    let root = root_of("02", 64);
    let big = "x".repeat(MAX_PUT_BYTES + 1);
    let e = entry(&root, 1, false);
    assert_eq!(publish_precheck(&root, &big, &Some(e.clone())), Some(PublishReply::TooLarge));
    let mut dir = BlindDirectory::new();
    let reply = dir.publish(&root, &big, Some(e.clone()), true);
    assert_eq!(reply, PublishReply::TooLarge);
    assert_eq!(reply.status(), 413);
    assert_eq!(reply.message(), "directory publish too large");
    assert!(dir.is_empty());
    let at_limit = "x".repeat(MAX_PUT_BYTES);
    assert_eq!(publish_precheck(&root, &at_limit, &Some(e)), None);
}

#[test]
fn reply_codes_and_messages() {
    assert_eq!(PublishReply::NotFound.status(), 404);
    assert_eq!(PublishReply::NotFound.message(), "not found");
    assert_eq!(PublishReply::Unprocessable.status(), 422);
    assert_eq!(PublishReply::Unprocessable.message(), "directory root mismatch");
    assert_eq!(PublishReply::Unauthorized.status(), 401);
    assert_eq!(PublishReply::Unauthorized.message(), "invalid root signature");
    assert_eq!(PublishReply::Admitted(Disposition::Advanced).status(), 204);
    assert_eq!(PublishReply::Admitted(Disposition::Idempotent).status(), 204);
    assert_eq!(PublishReply::Admitted(Disposition::Advanced).message(), "");
    assert_eq!(PublishReply::Admitted(Disposition::Conflict).status(), 409);
    assert_eq!(
        PublishReply::Admitted(Disposition::Conflict).message(),
        "directory generation must advance exactly once"
    );
    assert_eq!(FetchReply::NotFound.status(), 404);
    assert_eq!(FetchReply::Gone(String::new()).status(), 410);
    assert_eq!(FetchReply::Found(String::new()).status(), 200);
    assert_eq!(DIRECTORY_SCOPE, "directory");
    assert_eq!(DIRECTORY_ENTRY_KIND, "directory_entry");
}

#[test]
fn admit_put_applies_the_fence_directly() {
    let root = root_of("03", 64);
    let mut dir = BlindDirectory::new();
    assert_eq!(dir.admit_put(&entry(&root, 2, false), "b2"), Disposition::Conflict);
    // A refused first publish does not count as a published root.
    assert_eq!(dir.len(), 0);
    assert!(dir.get(&root).is_none());
    assert_eq!(dir.admit_put(&entry(&root, 1, false), "b1"), Disposition::Advanced);
    assert_eq!(dir.admit_put(&entry(&root, 1, false), "b1"), Disposition::Idempotent);
    assert_eq!(dir.admit_put(&entry(&root, 2, false), "b2"), Disposition::Advanced);
    let stored = dir.get(&root).unwrap();
    assert_eq!(stored.body, "b2");
    assert_eq!(stored.entry.generation, 2);
    assert_eq!(dir.admit_put(&entry(&root, 2, false), "b2-other"), Disposition::Conflict);
    assert_eq!(dir.admit_put(&entry(&root, 4, false), "b4"), Disposition::Conflict);
    assert_eq!(dir.len(), 1);
}

#[test]
fn a_generation_at_the_top_of_the_range_cannot_advance() {
    let root = root_of("03", 64);
    let rows = vec![LogRow { body: "top".to_string(), entry: Some(entry(&root, u64::MAX, false)) }];
    let mut dir = BlindDirectory::open(rows);
    assert_eq!(dir.admit_put(&entry(&root, 0, false), "wrapped"), Disposition::Conflict);
    assert_eq!(dir.admit_put(&entry(&root, u64::MAX, false), "same-gen"), Disposition::Conflict);
    assert_eq!(dir.admit_put(&entry(&root, 1, false), "top"), Disposition::Idempotent);
}

#[test]
fn roots_are_independent() {
    let a = root_of("02", 64);
    let b = root_of("03", 64);
    let mut dir = BlindDirectory::new();
    assert_eq!(dir.publish(&a, "body-a", Some(entry(&a, 1, false)), true).status(), 204);
    assert_eq!(dir.publish(&b, "body-b", Some(entry(&b, 1, false)), true).status(), 204);
    assert_eq!(dir.len(), 2);
    // The same body under another root is not a retry of the first root's publish.
    assert_eq!(dir.admit_put(&entry(&b, 2, false), "body-a"), Disposition::Advanced);
    match dir.fetch(&a) {
        FetchReply::Found(body) => assert_eq!(body, "body-a"),
        other => panic!("unexpected {other:?}"),
    }
}

#[test]
fn open_skips_unparsed_rows_and_latest_wins() {
    let root = root_of("02", 64);
    let rows = vec![
        LogRow { body: "g1".to_string(), entry: Some(entry(&root, 1, false)) },
        LogRow { body: "garbage".to_string(), entry: None },
        LogRow { body: "g2".to_string(), entry: Some(entry(&root, 2, true)) },
    ];
    let mut dir = BlindDirectory::open(rows);
    assert_eq!(dir.len(), 1);
    match dir.fetch(&root) {
        FetchReply::Gone(body) => assert_eq!(body, "g2"),
        other => panic!("unexpected {other:?}"),
    }
    assert_eq!(dir.admit_put(&entry(&root, 9, false), "g1"), Disposition::Idempotent);
    assert_eq!(dir.admit_put(&entry(&root, 3, false), "g3"), Disposition::Advanced);
    let mut empty = BlindDirectory::open(Vec::new());
    assert!(empty.is_empty());
    assert_eq!(empty.admit_put(&entry(&root, 1, false), "x"), Disposition::Advanced);
}

#[test]
fn a_publish_that_was_not_logged_is_not_admitted() {
    let root = root_of("02", 64);
    let mut dir = BlindDirectory::new();
    let e1 = Some(entry(&root, 1, false));
    assert_eq!(
        dir.publish_decision(&root, "g1", &e1, true),
        PublishReply::Admitted(Disposition::Advanced)
    );
    // The append failed: nothing is admitted, and the fence stays where it was.
    let reply = dir.commit_publish(&root, "g1", e1.clone(), true, false);
    assert_eq!(reply, PublishReply::LogUnavailable);
    assert_eq!(reply.status(), 503);
    assert_eq!(reply.message(), "directory log unavailable");
    assert!(dir.is_empty());
    assert!(dir.get(&root).is_none());
    // Logged this time: admitted.
    assert_eq!(
        dir.commit_publish(&root, "g1", e1.clone(), true, true),
        PublishReply::Admitted(Disposition::Advanced)
    );
    assert_eq!(dir.get(&root).unwrap().body, "g1");
    // A retry needs no append: it is idempotent whether or not the log takes it.
    assert_eq!(
        dir.publish_decision(&root, "g1", &e1, true),
        PublishReply::Admitted(Disposition::Idempotent)
    );
    assert_eq!(
        dir.commit_publish(&root, "g1", e1, true, false),
        PublishReply::Admitted(Disposition::Idempotent)
    );
    // Refusals are answered the same whatever the log did.
    assert_eq!(dir.commit_publish(&root, "g3", Some(entry(&root, 3, false)), true, false),
        PublishReply::Admitted(Disposition::Conflict));
    assert_eq!(dir.commit_publish(&root, "g2", Some(entry(&root, 2, false)), false, false),
        PublishReply::Unauthorized);
    assert_eq!(dir.get(&root).unwrap().body, "g1");
}

#[test]
fn the_fence_decides_without_changing_the_directory() {
    let root = root_of("03", 64);
    let mut dir = BlindDirectory::new();
    assert_eq!(dir.fence(&entry(&root, 1, false), "b1"), Disposition::Advanced);
    assert_eq!(dir.fence(&entry(&root, 2, false), "b2"), Disposition::Conflict);
    assert!(dir.is_empty());
    assert_eq!(dir.admit_put(&entry(&root, 1, false), "b1"), Disposition::Advanced);
    assert_eq!(dir.fence(&entry(&root, 1, false), "b1"), Disposition::Idempotent);
    assert_eq!(dir.fence(&entry(&root, 2, false), "b2"), Disposition::Advanced);
    assert_eq!(dir.get(&root).unwrap().body, "b1");
}

#[test]
fn of_two_rival_publishes_at_the_next_generation_one_advances() {
    let root = root_of("02", 64);
    let mut dir = BlindDirectory::new();
    let mut log: Vec<String> = Vec::new();
    for body in ["rival-one", "rival-two"] {
        let put = Some(entry(&root, 1, false));
        if dir.publish_decision(&root, body, &put, true) == PublishReply::Admitted(Disposition::Advanced) {
            log.push(body.to_string());
        }
        let reply = dir.commit_publish(&root, body, put, true, true);
        if body == "rival-one" {
            assert_eq!(reply, PublishReply::Admitted(Disposition::Advanced));
        } else {
            assert_eq!(reply, PublishReply::Admitted(Disposition::Conflict));
        }
    }
    assert_eq!(dir.get(&root).unwrap().body, "rival-one");
    assert_eq!(log, vec!["rival-one".to_string()]);
}
