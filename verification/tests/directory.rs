use gaugewright_directory::{
    is_account_root, BlindDirectory, Disposition, EntrySummary, FetchReply,
    LogRow, PublishReply,
};

/// An account root in the shape a signing key's public key has: a compressed SEC1 point.
fn key(seed: u8) -> String {
    let mut root = String::from("03");
    for i in 0..32u8 {
        root.push_str(&format!("{:02x}", seed.wrapping_mul(31).wrapping_add(i)));
    }
    root
}

/// A publish body in the shape of a signed put, with the facts the directory reads of it.
fn signed(root: &str, generation: u64, sealed_blob: &str, retracted: bool, signer: u8) -> (String, EntrySummary) {
    let body = format!(
        "{{\"entry\":{{\"generation\":{generation},\"directory\":{{\"root_pubkey\":\"{root}\",\"device_pubkeys\":[\"dev-1\",\"dev-2\"],\"placement_pointers\":[\"relay://relay.invalid/p1\"],\"home_routes\":[]}},\"sealed_blob\":\"{sealed_blob}\",\"retracted\":{retracted}}},\"signature\":\"sig-{signer}\"}}"
    );
    let entry = EntrySummary { generation, root_pubkey: root.to_string(), is_retraction: retracted };
    (body, entry)
}

fn entry_for(root: &str, generation: u64, sealed_blob: &str) -> (String, EntrySummary) {
    signed(root, generation, sealed_blob, false, 3)
}

/// A publish as the service makes it, with the signature checked by whoever knows the key:
/// here it verifies when the signer is the root's owner.
fn put_status(dir: &mut BlindDirectory, path: &str, body: &(String, EntrySummary), owner_signed: bool) -> u16 {
    dir.publish(path, &body.0, Some(body.1.clone()), owner_signed).status()
}

fn read(dir: &BlindDirectory, root: &str) -> (u16, String) {
    let reply = dir.fetch(root);
    let status = reply.status();
    let body = match reply {
        FetchReply::NotFound => "not found".to_string(),
        FetchReply::Gone(b) | FetchReply::Found(b) => b,
    };
    (status, body)
}

#[test]
fn a_signing_key_root_is_an_account_root_and_other_paths_are_not() {
    let root = key(3);
    assert!(is_account_root(&root));
    assert!(!is_account_root("nobody"));
    assert!(!is_account_root(&root.to_uppercase()));
    assert!(!is_account_root(""));
}

#[test]
fn a_signed_publish_is_served_back_byte_for_byte() {
    let root = key(3);
    let mut dir = BlindDirectory::new();
    let body = entry_for(&root, 1, "deadbeefcafe");

    assert_eq!(put_status(&mut dir, &root, &body, true), 204);
    let (status, served) = read(&dir, &root);
    assert_eq!(status, 200);
    // The whole signed put, verbatim, so a reader can check the signature itself.
    assert_eq!(served, body.0);
}

#[test]
fn a_wrongly_signed_write_is_refused_and_stores_nothing() {
    let root = key(3);
    let mut dir = BlindDirectory::new();
    let forged = signed(&root, 1, "00", false, 9);
    assert_eq!(put_status(&mut dir, &root, &forged, false), 401);
    assert!(dir.is_empty());
}

#[test]
fn a_path_that_disagrees_with_the_record_is_unprocessable() {
    let root = key(3);
    let other = key(4);
    let mut dir = BlindDirectory::new();
    let body = entry_for(&root, 1, "00");
    assert_eq!(put_status(&mut dir, &other, &body, true), 422);
    assert!(dir.is_empty());
}

#[test]
fn a_malformed_body_or_a_zero_generation_is_unprocessable() {
    let root = key(3);
    let mut dir = BlindDirectory::new();
    assert_eq!(dir.publish(&root, "{", None, false).status(), 422);
    let zero = entry_for(&root, 0, "00");
    assert_eq!(put_status(&mut dir, &root, &zero, true), 422);
    assert!(dir.is_empty());
}

#[test]
fn a_path_that_is_not_an_account_root_is_not_found() {
    let mut dir = BlindDirectory::new();
    assert_eq!(read(&dir, "nobody").0, 404);
    assert_eq!(dir.publish("nobody", "{}", None, false).status(), 404);
}

#[test]
fn fetching_an_unknown_root_is_not_found() {
    let root = key(3);
    assert_eq!(read(&BlindDirectory::new(), &root).0, 404);
}

#[test]
fn the_generation_advances_exactly_once_and_an_old_entry_cannot_be_replayed() {
    let root = key(3);
    let mut dir = BlindDirectory::new();
    let first = entry_for(&root, 1, "0001");
    let second = entry_for(&root, 2, "0002");

    // The first publish must be generation one, and a skip is refused.
    let skip = entry_for(&root, 2, "ffff");
    assert_eq!(put_status(&mut dir, &root, &skip, true), 409);
    assert!(dir.is_empty() || dir.get(&root).is_none());

    assert_eq!(put_status(&mut dir, &root, &first, true), 204);
    assert_eq!(put_status(&mut dir, &root, &second, true), 204);

    // A retry of an admitted body is idempotent, even the older one, and changes nothing.
    assert_eq!(put_status(&mut dir, &root, &first, true), 204);
    assert_eq!(read(&dir, &root).1, second.0);

    // A different entry at an old generation is a replay, and is refused.
    let stale = entry_for(&root, 1, "beef");
    assert_eq!(put_status(&mut dir, &root, &stale, true), 409);
    assert_eq!(read(&dir, &root).1, second.0);
}

#[test]
fn a_retracted_root_is_gone_and_can_publish_again() {
    let root = key(3);
    let mut dir = BlindDirectory::new();
    let first = entry_for(&root, 1, "0001");
    assert_eq!(put_status(&mut dir, &root, &first, true), 204);

    let retraction = signed(&root, 2, "", true, 3);
    assert_eq!(put_status(&mut dir, &root, &retraction, true), 204);
    let (status, served) = read(&dir, &root);
    assert_eq!(status, 410);
    // The retraction is the body: empty routing, and the generation to re-publish from.
    assert_eq!(served, retraction.0);

    let again = entry_for(&root, 3, "0003");
    assert_eq!(put_status(&mut dir, &root, &again, true), 204);
    assert_eq!(read(&dir, &root), (200, again.0.clone()));
}

/// A publish as the durable service makes it: the fence decides, an advancing body is appended
/// to the log, and only then is the publish committed.
fn put_logged(dir: &mut BlindDirectory, log: &mut Vec<LogRow>, root: &str, body: &(String, EntrySummary)) -> u16 {
    let put = Some(body.1.clone());
    if dir.publish_decision(root, &body.0, &put, true) == PublishReply::Admitted(Disposition::Advanced) {
        log.push(LogRow { body: body.0.clone(), entry: Some(body.1.clone()) });
    }
    dir.commit_publish(root, &body.0, put, true, true).status()
}

fn reopen(log: &[LogRow]) -> BlindDirectory {
    let rows = log
        .iter()
        .map(|r| LogRow { body: r.body.clone(), entry: r.entry.clone() })
        .collect();
    BlindDirectory::open(rows)
}

#[test]
fn the_log_survives_a_restart_and_keeps_the_fence() {
    let root = key(7);
    let first = entry_for(&root, 1, "0001");
    let second = entry_for(&root, 2, "0002");
    let mut log = Vec::new();

    {
        let mut dir = BlindDirectory::new();
        assert_eq!(put_logged(&mut dir, &mut log, &root, &first), 204);
        assert_eq!(put_logged(&mut dir, &mut log, &root, &second), 204);
    }

    let mut restarted = reopen(&log);
    assert_eq!(restarted.len(), 1, "one root, folded latest-wins");
    assert_eq!(read(&restarted, &root), (200, second.0.clone()));
    // The fence and the idempotency record are rehydrated too, not only the latest value.
    assert_eq!(put_logged(&mut restarted, &mut log, &root, &first), 204);
    let stale = entry_for(&root, 2, "beef");
    assert_eq!(put_logged(&mut restarted, &mut log, &root, &stale), 409);
    let third = entry_for(&root, 3, "0003");
    assert_eq!(put_logged(&mut restarted, &mut log, &root, &third), 204);
}

#[test]
fn a_bare_entry_written_before_signed_puts_rehydrates_at_generation_zero() {
    let root = key(8);
    let legacy = format!(
        "{{\"directory\":{{\"root_pubkey\":\"{root}\",\"device_pubkeys\":[\"dev-1\"],\"placement_pointers\":[]}},\"sealed_blob\":\"00\"}}"
    );
    let rows = vec![LogRow {
        body: legacy.clone(),
        entry: Some(EntrySummary { generation: 0, root_pubkey: root.clone(), is_retraction: false }),
    }];

    let mut dir = BlindDirectory::open(rows);
    assert_eq!(read(&dir, &root), (200, legacy));
    // The next signed publish starts the fence at one.
    let first = entry_for(&root, 1, "0001");
    assert_eq!(put_status(&mut dir, &root, &first, true), 204);
}
