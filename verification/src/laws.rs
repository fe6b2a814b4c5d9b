use vstd::prelude::*;
use vstd::utf8::*;

use crate::account_root::{account_root_bytes, is_lower_hex_byte};
use crate::digest::{digest_of, hex_digit, hex_lower, lemma_hex_lower_len, sha256};
use crate::directory::{
    admission, after_admit, empty_directory, folded, generation_of, replay, replay_row,
    DirectoryView, Disposition,
};
use crate::entry::{EntryView, LogRowView, StoredView};
use crate::service::{
    fetch_outcome, logged_publish_outcome, publish_message, publish_outcome, publish_refusal,
    publish_status, FetchReplyView, PublishReply, MAX_PUT_BYTES,
};

verus! {

/// Every root's latest value names that root, and is among the publishes admitted for it.
pub open spec fn consistent(d: DirectoryView) -> bool {
    forall|r: Seq<char>|
        #[trigger] d.latest.contains_key(r) ==> {
            &&& d.latest[r].entry.root_pubkey == r
            &&& d.admitted.contains((r, digest_of(d.latest[r].body)))
        }
}

/// The directory after admitting each of `puts` (an entry and its body) in order.
pub open spec fn run(d: DirectoryView, puts: Seq<(EntryView, Seq<char>)>) -> DirectoryView
    decreases puts.len(),
{
    if puts.len() == 0 {
        d
    } else {
        let prev = run(d, puts.drop_last());
        after_admit(prev, puts.last().0, puts.last().1)
    }
}

/// The rows that admitting each of `puts` in order appends to the durable log: one per
/// publish that advanced, holding its exact body and its entry.
pub open spec fn journal(d: DirectoryView, puts: Seq<(EntryView, Seq<char>)>) -> Seq<LogRowView>
    decreases puts.len(),
{
    if puts.len() == 0 {
        Seq::empty()
    } else {
        let prev = run(d, puts.drop_last());
        let rows = journal(d, puts.drop_last());
        if admission(prev, puts.last().0, puts.last().1) == Disposition::Advanced {
            rows.push(LogRowView { body: puts.last().1, entry: Some(puts.last().0) })
        } else {
            rows
        }
    }
}

/// The empty directory is consistent.
pub proof fn law_empty_consistent()
    ensures
        consistent(empty_directory()),
{
}

/// Admitting a publish keeps the directory consistent.
pub proof fn law_admit_keeps_consistent(d: DirectoryView, entry: EntryView, body: Seq<char>)
    requires
        consistent(d),
    ensures
        consistent(after_admit(d, entry, body)),
{
    let post = after_admit(d, entry, body);
    assert forall|r: Seq<char>| #[trigger] post.latest.contains_key(r) implies {
        &&& post.latest[r].entry.root_pubkey == r
        &&& post.admitted.contains((r, digest_of(post.latest[r].body)))
    } by {
        if admission(d, entry, body) == Disposition::Advanced && r != entry.root_pubkey {
            assert(d.latest.contains_key(r));
        }
    }
}

/// Rehydrating a consistent directory from any log keeps it consistent.
pub proof fn law_replay_keeps_consistent(d: DirectoryView, rows: Seq<LogRowView>)
    requires
        consistent(d),
    ensures
        consistent(replay(d, rows)),
    decreases rows.len(),
{
    if rows.len() > 0 {
        law_replay_keeps_consistent(d, rows.drop_last());
        let prev = replay(d, rows.drop_last());
        let post = replay(d, rows);
        if let Some(entry) = rows.last().entry {
            let body = rows.last().body;
            assert forall|r: Seq<char>| #[trigger] post.latest.contains_key(r) implies {
                &&& post.latest[r].entry.root_pubkey == r
                &&& post.admitted.contains((r, digest_of(post.latest[r].body)))
            } by {
                if r != entry.root_pubkey {
                    assert(prev.latest.contains_key(r));
                }
            }
        }
    }
}

/// A read gives back what a write wrote: after a publish advances, its root's latest value is
/// exactly its body and entry, and every other root is as it was.
pub proof fn law_read_after_admit(d: DirectoryView, entry: EntryView, body: Seq<char>)
    requires
        admission(d, entry, body) == Disposition::Advanced,
    ensures
        after_admit(d, entry, body).latest.contains_key(entry.root_pubkey),
        after_admit(d, entry, body).latest[entry.root_pubkey] == (StoredView { body, entry }),
        forall|r: Seq<char>|
            r != entry.root_pubkey ==> #[trigger] after_admit(d, entry, body).latest.get(r)
                == d.latest.get(r),
{
}

/// A read of an account root whose publish advanced serves that body byte for byte: as
/// `Gone` when the entry is a retraction, as found otherwise.
pub proof fn law_fetch_after_admit(d: DirectoryView, entry: EntryView, body: Seq<char>)
    requires
        admission(d, entry, body) == Disposition::Advanced,
        account_root_bytes(encode_utf8(entry.root_pubkey)),
    ensures
        fetch_outcome(after_admit(d, entry, body), entry.root_pubkey) == (if entry.is_retraction {
            FetchReplyView::Gone(body)
        } else {
            FetchReplyView::Found(body)
        }),
{
}

/// Admitted publishes stay admitted, and a root once published stays published.
pub proof fn law_admitted_persist(d: DirectoryView, entry: EntryView, body: Seq<char>)
    ensures
        d.admitted.subset_of(after_admit(d, entry, body).admitted),
        d.latest.dom().subset_of(after_admit(d, entry, body).latest.dom()),
{
}

/// A retry of a body already admitted for the entry's root is idempotent and changes nothing.
pub proof fn law_retry_idempotent(d: DirectoryView, entry: EntryView, body: Seq<char>)
    requires
        d.admitted.contains((entry.root_pubkey, digest_of(body))),
    ensures
        admission(d, entry, body) == Disposition::Idempotent,
        after_admit(d, entry, body) == d,
{
}

/// Once a body is admitted for a root, publishing it again under that root, after any further
/// publishes, is idempotent and changes nothing.
pub proof fn law_admitted_body_stays_idempotent(
    d: DirectoryView,
    entry: EntryView,
    body: Seq<char>,
    later: Seq<(EntryView, Seq<char>)>,
    again: EntryView,
)
    requires
        admission(d, entry, body) == Disposition::Advanced,
        again.root_pubkey == entry.root_pubkey,
    ensures
        admission(run(after_admit(d, entry, body), later), again, body)
            == Disposition::Idempotent,
        after_admit(run(after_admit(d, entry, body), later), again, body) == run(
            after_admit(d, entry, body),
            later,
        ),
{
    lemma_run_keeps_admitted(after_admit(d, entry, body), later, (entry.root_pubkey, digest_of(body)));
}

proof fn lemma_run_keeps_admitted(d: DirectoryView, puts: Seq<(EntryView, Seq<char>)>, p: (Seq<char>, Seq<char>))
    requires
        d.admitted.contains(p),
    ensures
        run(d, puts).admitted.contains(p),
    decreases puts.len(),
{
    if puts.len() > 0 {
        lemma_run_keeps_admitted(d, puts.drop_last(), p);
    }
}

/// The generation of a root never goes down, and a publish that advances raises its root's
/// generation by exactly one and no other root's.
pub proof fn law_generation_advances_once(d: DirectoryView, entry: EntryView, body: Seq<char>, r: Seq<char>)
    ensures
        generation_of(after_admit(d, entry, body), r) >= generation_of(d, r),
        admission(d, entry, body) == Disposition::Advanced ==> generation_of(
            after_admit(d, entry, body),
            r,
        ) == if r == entry.root_pubkey {
            generation_of(d, r) + 1
        } else {
            generation_of(d, r)
        },
        admission(d, entry, body) != Disposition::Advanced ==> after_admit(d, entry, body) == d,
{
}

/// An old entry cannot be replayed over a newer one: a body not admitted before whose
/// generation is not above its root's current generation is a conflict and changes nothing.
pub proof fn law_stale_replay_refused(d: DirectoryView, entry: EntryView, body: Seq<char>)
    requires
        !d.admitted.contains((entry.root_pubkey, digest_of(body))),
        entry.generation <= generation_of(d, entry.root_pubkey),
    ensures
        admission(d, entry, body) == Disposition::Conflict,
        after_admit(d, entry, body) == d,
{
}

/// Writes fail closed: a publish that is not answered as advanced leaves the directory as it
/// was.
pub proof fn law_refused_publish_stores_nothing(
    d: DirectoryView,
    root: Seq<char>,
    body: Seq<char>,
    put: Option<EntryView>,
    signature_valid: bool,
)
    requires
        publish_outcome(d, root, body, put, signature_valid).0 != PublishReply::Admitted(
            Disposition::Advanced,
        ),
    ensures
        publish_outcome(d, root, body, put, signature_valid).1 == d,
{
}

/// A publish whose signature does not verify is never admitted and stores nothing.
pub proof fn law_bad_signature_stores_nothing(
    d: DirectoryView,
    root: Seq<char>,
    body: Seq<char>,
    put: Option<EntryView>,
)
    ensures
        !(publish_outcome(d, root, body, put, false).0 is Admitted),
        publish_outcome(d, root, body, put, false).1 == d,
{
}

/// Nobody can overwrite another root's routing: a publish under the path `root` changes no
/// other root's latest value, and is admitted only when signed and carried by `root`'s record.
pub proof fn law_publish_only_touches_path_root(
    d: DirectoryView,
    root: Seq<char>,
    body: Seq<char>,
    put: Option<EntryView>,
    signature_valid: bool,
    other: Seq<char>,
)
    requires
        other != root,
    ensures
        publish_outcome(d, root, body, put, signature_valid).1.latest.get(other) == d.latest.get(
            other,
        ),
        publish_outcome(d, root, body, put, signature_valid).0 is Admitted ==> {
            &&& signature_valid
            &&& put matches Some(e) && e.root_pubkey == root && e.generation > 0
        },
{
}

/// Re-sending an accepted publish is harmless: it is answered `204` again and changes nothing.
pub proof fn law_publish_retry_harmless(
    d: DirectoryView,
    root: Seq<char>,
    body: Seq<char>,
    put: Option<EntryView>,
)
    requires
        publish_outcome(d, root, body, put, true).0 == PublishReply::Admitted(
            Disposition::Advanced,
        ),
    ensures
        publish_outcome(publish_outcome(d, root, body, put, true).1, root, body, put, true) == (
        PublishReply::Admitted(Disposition::Idempotent),
        publish_outcome(d, root, body, put, true).1),
{
}

/// The log is the record: a publish is admitted as advancing, or changes the directory at
/// all, only when its body was appended to the durable log; one that would advance but was
/// not logged is answered `503` and stores nothing.
pub proof fn law_admitted_only_when_logged(
    d: DirectoryView,
    root: Seq<char>,
    body: Seq<char>,
    put: Option<EntryView>,
    signature_valid: bool,
    logged: bool,
)
    ensures
        logged_publish_outcome(d, root, body, put, signature_valid, logged).0
            == PublishReply::Admitted(Disposition::Advanced) ==> logged,
        logged_publish_outcome(d, root, body, put, signature_valid, logged).1 != d ==> logged,
        !logged ==> logged_publish_outcome(d, root, body, put, signature_valid, logged).1 == d,
        !logged && publish_outcome(d, root, body, put, signature_valid).0 == PublishReply::Admitted(
            Disposition::Advanced,
        ) ==> logged_publish_outcome(d, root, body, put, signature_valid, logged).0
            == PublishReply::LogUnavailable,
{
}

/// Deciding first and committing after the append agree: the decision is the reply a logged
/// commit gives, the directory changes only on an `Admitted(Advanced)` decision, and a publish
/// whose decision is anything else needs no append and is answered the same either way.
pub proof fn law_decision_then_commit(
    d: DirectoryView,
    root: Seq<char>,
    body: Seq<char>,
    put: Option<EntryView>,
    signature_valid: bool,
    logged: bool,
)
    ensures
        logged_publish_outcome(d, root, body, put, signature_valid, true) == publish_outcome(
            d,
            root,
            body,
            put,
            signature_valid,
        ),
        publish_outcome(d, root, body, put, signature_valid).0 != PublishReply::Admitted(
            Disposition::Advanced,
        ) ==> logged_publish_outcome(d, root, body, put, signature_valid, logged) == (
        publish_outcome(d, root, body, put, signature_valid).0,
        d),
{
}

/// Of two publishes for one root at its next generation, with bodies whose digests differ and
/// neither admitted before, exactly one advances: the first is admitted, the second conflicts,
/// the root's latest value stays the first body, and the durable log gains the first body
/// alone. (The service holds one lock from each publish's decision to its commit, so concurrent
/// publishes are admitted one after the other, as here.)
pub proof fn law_one_of_two_rivals_advances(
    d: DirectoryView,
    e1: EntryView,
    b1: Seq<char>,
    e2: EntryView,
    b2: Seq<char>,
)
    requires
        e1.root_pubkey == e2.root_pubkey,
        e1.generation == generation_of(d, e1.root_pubkey) + 1,
        e2.generation == e1.generation,
        digest_of(b1) != digest_of(b2),
        !d.admitted.contains((e1.root_pubkey, digest_of(b1))),
        !d.admitted.contains((e2.root_pubkey, digest_of(b2))),
    ensures
        admission(d, e1, b1) == Disposition::Advanced,
        admission(after_admit(d, e1, b1), e2, b2) == Disposition::Conflict,
        run(d, seq![(e1, b1), (e2, b2)]) == after_admit(d, e1, b1),
        run(d, seq![(e1, b1), (e2, b2)]).latest[e1.root_pubkey] == (StoredView {
            body: b1,
            entry: e1,
        }),
        journal(d, seq![(e1, b1), (e2, b2)]) == seq![LogRowView { body: b1, entry: Some(e1) }],
{
    let puts = seq![(e1, b1), (e2, b2)];
    let first = seq![(e1, b1)];
    assert(puts.drop_last() =~= first);
    assert(first.drop_last() =~= Seq::<(EntryView, Seq<char>)>::empty());
    let none = Seq::<(EntryView, Seq<char>)>::empty();
    assert(run(d, none) == d);
    assert(journal(d, none) == Seq::<LogRowView>::empty());
    assert(first.last() == (e1, b1));
    let mid = after_admit(d, e1, b1);
    assert(run(d, first) == mid);
    assert(generation_of(mid, e1.root_pubkey) == e1.generation);
    assert(!mid.admitted.contains((e2.root_pubkey, digest_of(b2))));
    assert(journal(d, first) =~= seq![LogRowView { body: b1, entry: Some(e1) }]);
}

/// The directory survives a restart: folding the log that a run of publishes appended, in
/// order, gives back the directory that the run left.
pub proof fn law_replay_journal_restores(d: DirectoryView, puts: Seq<(EntryView, Seq<char>)>)
    ensures
        replay(d, journal(d, puts)) == run(d, puts),
    decreases puts.len(),
{
    if puts.len() > 0 {
        let init = puts.drop_last();
        law_replay_journal_restores(d, init);
        let rows = journal(d, init);
        let prev = run(d, init);
        let (entry, body) = puts.last();
        if admission(prev, entry, body) == Disposition::Advanced {
            let row = LogRowView { body, entry: Some(entry) };
            assert(rows.push(row).drop_last() =~= rows);
            assert(replay(d, rows.push(row)) == folded(prev, body, entry));
        }
    }
}

/// The generation a root is at: that of its latest admitted entry, or `0` for a root never
/// published.
pub proof fn law_generation_is_latest_entry(d: DirectoryView, r: Seq<char>)
    ensures
        d.latest.contains_key(r) ==> generation_of(d, r) == d.latest[r].entry.generation,
        !d.latest.contains_key(r) ==> generation_of(d, r) == 0,
{
}

/// The generation fence, outcome by outcome. A publish is idempotent exactly when the full
/// SHA-256 of its body is already recorded for its root; otherwise it advances exactly when its
/// generation is one above that of the root's latest entry (`0` for a new root), and is a
/// conflict for every other generation, a skip ahead as much as a step back.
pub proof fn law_fence_outcomes(d: DirectoryView, e: EntryView, b: Seq<char>)
    ensures
        ({
            let seen = d.admitted.contains((e.root_pubkey, hex_lower(sha256(encode_utf8(b)))));
            let current: int = if d.latest.contains_key(e.root_pubkey) {
                d.latest[e.root_pubkey].entry.generation as int
            } else {
                0
            };
            &&& (admission(d, e, b) == Disposition::Idempotent) == seen
            &&& (admission(d, e, b) == Disposition::Advanced) == (!seen && e.generation == current
                + 1)
            &&& (admission(d, e, b) == Disposition::Conflict) == (!seen && e.generation != current
                + 1)
        }),
{
}

/// A publish whose body was never recorded for its root, at any generation other than the next
/// one (ahead or behind), is a conflict, and the directory is left as it was.
pub proof fn law_wrong_generation_conflicts(d: DirectoryView, e: EntryView, b: Seq<char>)
    requires
        !d.admitted.contains((e.root_pubkey, digest_of(b))),
        e.generation != generation_of(d, e.root_pubkey) + 1,
    ensures
        admission(d, e, b) == Disposition::Conflict,
        after_admit(d, e, b) == d,
{
}

/// The digest that recognises a retry covers the whole body: it is the lowercase hex of the
/// SHA-256 of all of the body's UTF-8 bytes, two digits per hash byte.
pub proof fn law_digest_covers_whole_body(b: Seq<char>)
    ensures
        digest_of(b) == hex_lower(sha256(encode_utf8(b))),
        digest_of(b).len() == 2 * sha256(encode_utf8(b)).len(),
{
    lemma_hex_lower_len(sha256(encode_utf8(b)));
}

/// Each hash byte is written as two lowercase hex digits, high nibble first.
pub proof fn law_hex_lower_digits(bytes: Seq<u8>, i: int)
    requires
        0 <= i < bytes.len(),
    ensures
        hex_lower(bytes).len() == 2 * bytes.len(),
        hex_lower(bytes)[2 * i] == hex_digit(bytes[i] / 16),
        hex_lower(bytes)[2 * i + 1] == hex_digit(bytes[i] % 16),
    decreases bytes.len(),
{
    lemma_hex_lower_len(bytes);
    lemma_hex_lower_len(bytes.drop_last());
    if i < bytes.len() - 1 {
        law_hex_lower_digits(bytes.drop_last(), i);
    }
}

/// The hex digits are `0`..`9` then `a`..`f`.
pub proof fn law_hex_digit_values(n: u8)
    requires
        n < 16,
    ensures
        n < 10 ==> hex_digit(n) as u32 == 0x30 + n,
        n >= 10 ==> hex_digit(n) as u32 == 0x61 + (n - 10),
{
}

/// Folding a publish in records it as its root's latest value and adds exactly the pair (root,
/// digest of the whole body) to the admitted ones; nothing else changes.
pub proof fn law_fold_records_whole_body(d: DirectoryView, b: Seq<char>, e: EntryView)
    ensures
        folded(d, b, e).latest == d.latest.insert(e.root_pubkey, StoredView { body: b, entry: e }),
        folded(d, b, e).admitted == d.admitted.insert(
            (e.root_pubkey, hex_lower(sha256(encode_utf8(b)))),
        ),
{
}

/// Rehydration folds every row that carries an entry, whatever its generation: the row becomes
/// its root's latest value and its body is recorded as admitted; a row without an entry is
/// skipped.
pub proof fn law_replay_row_folds_unconditionally(d: DirectoryView, row: LogRowView)
    ensures
        row.entry is None ==> replay_row(d, row) == d,
        row.entry matches Some(e) ==> {
            &&& replay_row(d, row).latest == d.latest.insert(
                e.root_pubkey,
                StoredView { body: row.body, entry: e },
            )
            &&& replay_row(d, row).admitted == d.admitted.insert(
                (e.root_pubkey, hex_lower(sha256(encode_utf8(row.body)))),
            )
        },
{
}

/// The later row wins: after rehydrating a log, a root's latest value is the last row that
/// carries an entry for it, whatever the generations.
pub proof fn law_replay_latest_row_wins(d: DirectoryView, rows: Seq<LogRowView>, k: int, e: EntryView)
    requires
        0 <= k < rows.len(),
        rows[k].entry == Some(e),
        forall|j: int|
            k < j < rows.len() && (#[trigger] rows[j]).entry is Some ==> rows[j].entry.unwrap().root_pubkey
                != e.root_pubkey,
    ensures
        replay(d, rows).latest.contains_key(e.root_pubkey),
        replay(d, rows).latest[e.root_pubkey] == (StoredView { body: rows[k].body, entry: e }),
    decreases rows.len(),
{
    let init = rows.drop_last();
    if k < rows.len() - 1 {
        assert forall|j: int|
            k < j < init.len() && (#[trigger] init[j]).entry is Some implies init[j].entry.unwrap().root_pubkey
                != e.root_pubkey by {
            assert(init[j] == rows[j]);
        }
        law_replay_latest_row_wins(d, init, k, e);
        assert(rows.last() == rows[rows.len() - 1]);
    }
}

/// Rehydrating a log records the body of every row that carries an entry as admitted for its
/// root.
pub proof fn law_replay_records_every_row(d: DirectoryView, rows: Seq<LogRowView>, k: int, e: EntryView)
    requires
        0 <= k < rows.len(),
        rows[k].entry == Some(e),
    ensures
        replay(d, rows).admitted.contains((e.root_pubkey, digest_of(rows[k].body))),
    decreases rows.len(),
{
    if k < rows.len() - 1 {
        law_replay_records_every_row(d, rows.drop_last(), k, e);
        assert(rows.drop_last()[k] == rows[k]);
    }
}

/// The lowercase hex digits are exactly `0`..`9` and `a`..`f`.
pub proof fn law_lower_hex_bytes(x: u8)
    ensures
        is_lower_hex_byte(x) == ((0x30 <= x && x <= 0x39) || (0x61 <= x && x <= 0x66)),
{
}

/// An account root is the prefix `02`, `03` or `04` followed by 64 to 128 lowercase hex digits,
/// whatever those digits are.
pub proof fn law_account_root_prefix_and_digits(p: u8, h: Seq<u8>)
    requires
        0x32 <= p <= 0x34,
        64 <= h.len() <= 128,
        forall|i: int| 0 <= i < h.len() ==> #[trigger] is_lower_hex_byte(h[i]),
    ensures
        account_root_bytes(seq![0x30u8, p] + h),
{
    let b = seq![0x30u8, p] + h;
    assert forall|i: int| 2 <= i < b.len() implies #[trigger] is_lower_hex_byte(b[i]) by {
        assert(b[i] == h[i - 2]);
    }
}

/// Every account root has that shape, and nothing else is one: a text of another length,
/// another prefix, or with any byte after the prefix that is not a lowercase hex digit is not.
pub proof fn law_account_root_only_that_shape(b: Seq<u8>)
    ensures
        account_root_bytes(b) ==> {
            &&& 66 <= b.len() <= 130
            &&& b[0] == 0x30u8
            &&& 0x32 <= b[1] <= 0x34
            &&& forall|i: int| 2 <= i < b.len() ==> #[trigger] is_lower_hex_byte(b[i])
        },
        account_root_bytes(b) <== {
            &&& 66 <= b.len() <= 130
            &&& b[0] == 0x30u8
            &&& 0x32 <= b[1] <= 0x34
            &&& forall|i: int| 2 <= i < b.len() ==> #[trigger] is_lower_hex_byte(b[i])
        },
        (exists|i: int| 2 <= i < b.len() && !(#[trigger] is_lower_hex_byte(b[i]))) ==> !account_root_bytes(b),
{
}

/// Appending a lowercase hex digit to an account root shorter than the longest keeps it one.
pub proof fn law_account_root_extends(b: Seq<u8>, x: u8)
    requires
        account_root_bytes(b),
        b.len() < 130,
        is_lower_hex_byte(x),
    ensures
        account_root_bytes(b.push(x)),
{
    assert forall|i: int| 2 <= i < b.push(x).len() implies #[trigger] is_lower_hex_byte(b.push(x)[i]) by {
        if i < b.len() {
            assert(b.push(x)[i] == b[i]);
        }
    }
}

/// The largest publish body is 2 MiB.
pub proof fn law_max_put_bytes()
    ensures
        MAX_PUT_BYTES == 2 * 1024 * 1024,
{
}

/// The shape checks of a publish, outcome by outcome: `404` exactly for a path that is not an
/// account root, else `413` exactly for a body over `MAX_PUT_BYTES` bytes, else `422` exactly
/// when the body did not parse, or its generation is `0`, or its record's root is not the path;
/// a publish that passes all three is refused by none, at every positive generation.
pub proof fn law_publish_shape_checks(root: Seq<char>, body: Seq<char>, put: Option<EntryView>)
    ensures
        (publish_refusal(root, body, put) == Some(PublishReply::NotFound)) == !account_root_bytes(
            encode_utf8(root),
        ),
        (publish_refusal(root, body, put) == Some(PublishReply::TooLarge)) == (account_root_bytes(
            encode_utf8(root),
        ) && encode_utf8(body).len() > 2 * 1024 * 1024),
        (publish_refusal(root, body, put) == Some(PublishReply::Unprocessable)) == (
        account_root_bytes(encode_utf8(root)) && encode_utf8(body).len() <= 2 * 1024 * 1024 && !(
        put is Some && put.unwrap().generation > 0 && put.unwrap().root_pubkey == root)),
        (publish_refusal(root, body, put) is None) == (account_root_bytes(encode_utf8(root))
            && encode_utf8(body).len() <= 2 * 1024 * 1024 && put is Some && put.unwrap().generation
            > 0 && put.unwrap().root_pubkey == root),
{
}

/// A well-formed, signed publish that advances its root by one is admitted, at every
/// generation: it is answered `Admitted(Advanced)`, becomes the root's latest value, and its
/// whole body is recorded.
pub proof fn law_signed_next_generation_advances(
    d: DirectoryView,
    root: Seq<char>,
    body: Seq<char>,
    e: EntryView,
)
    requires
        account_root_bytes(encode_utf8(root)),
        encode_utf8(body).len() <= 2 * 1024 * 1024,
        e.root_pubkey == root,
        e.generation > 0,
        !d.admitted.contains((root, hex_lower(sha256(encode_utf8(body))))),
        e.generation == (if d.latest.contains_key(root) {
            d.latest[root].entry.generation as int
        } else {
            0
        }) + 1,
    ensures
        publish_outcome(d, root, body, Some(e), true).0 == PublishReply::Admitted(
            Disposition::Advanced,
        ),
        publish_outcome(d, root, body, Some(e), true).1.latest == d.latest.insert(
            root,
            StoredView { body, entry: e },
        ),
        publish_outcome(d, root, body, Some(e), true).1.admitted == d.admitted.insert(
            (root, hex_lower(sha256(encode_utf8(body)))),
        ),
{
}

/// Reads, outcome by outcome: a path that is not an account root, or a root never published,
/// is not found; otherwise the root's latest admitted body is served verbatim, as `Gone`
/// exactly when that entry is a retraction.
pub proof fn law_fetch_outcomes(d: DirectoryView, root: Seq<char>)
    ensures
        (fetch_outcome(d, root) == FetchReplyView::NotFound) == (!account_root_bytes(
            encode_utf8(root),
        ) || !d.latest.contains_key(root)),
        (account_root_bytes(encode_utf8(root)) && d.latest.contains_key(root)
            && d.latest[root].entry.is_retraction) ==> fetch_outcome(d, root)
            == FetchReplyView::Gone(d.latest[root].body),
        (account_root_bytes(encode_utf8(root)) && d.latest.contains_key(root)
            && !d.latest[root].entry.is_retraction) ==> fetch_outcome(d, root)
            == FetchReplyView::Found(d.latest[root].body),
{
}

/// The status codes and texts of publish replies: accepted (advanced or idempotent) is `204`
/// with no text, a conflict `409`, a bad signature `401`, a bad shape `422`, an oversize body
/// `413`, an unknown path `404`, and a publish the log did not take `503`.
pub proof fn law_publish_statuses()
    ensures
        publish_status(PublishReply::Admitted(Disposition::Advanced)) == 204,
        publish_status(PublishReply::Admitted(Disposition::Idempotent)) == 204,
        publish_status(PublishReply::Admitted(Disposition::Conflict)) == 409,
        publish_status(PublishReply::Unauthorized) == 401,
        publish_status(PublishReply::Unprocessable) == 422,
        publish_status(PublishReply::TooLarge) == 413,
        publish_status(PublishReply::NotFound) == 404,
        publish_status(PublishReply::LogUnavailable) == 503,
        publish_message(PublishReply::Admitted(Disposition::Advanced)).len() == 0,
        publish_message(PublishReply::Admitted(Disposition::Idempotent)).len() == 0,
{
    reveal_strlit("");
}

} // verus!
