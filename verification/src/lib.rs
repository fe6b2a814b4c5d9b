//! The blind account directory: per account root it holds the latest signed publish, served
//! back exactly as it was published, and the record of every publish it has admitted, so that
//! a publish must advance the root's generation by exactly one and a retry of an admitted
//! publish changes nothing.

mod account_root;

pub use account_root::{account_root_bytes, is_account_root, is_lower_hex_byte};
mod digest;

pub use digest::{digest, digest_of, hex_digit, hex_lower, lemma_hex_lower_len, sha256, to_hex_lower};
mod entry;

pub use entry::{entry_view_of, EntrySummary, EntryView, LogRow, LogRowView, Stored, StoredView};
mod directory;

pub use directory::{
    admission, admission_key, after_admit, empty_directory, folded, generation_of, replay,
    replay_row, BlindDirectory, DirectoryView, Disposition,
};
mod service;

pub use service::{
    fetch_outcome, logged_publish_outcome, publish_message, publish_outcome, publish_precheck, publish_refusal,
    publish_status, FetchReply, FetchReplyView, PublishReply, DIRECTORY_ENTRY_KIND,
    DIRECTORY_SCOPE, MAX_PUT_BYTES,
};
mod laws;

pub use laws::{
    consistent, journal, law_admit_keeps_consistent, law_admitted_body_stays_idempotent, law_admitted_only_when_logged,
    law_admitted_persist, law_bad_signature_stores_nothing, law_empty_consistent, law_decision_then_commit, law_fetch_after_admit,
    law_generation_advances_once, law_one_of_two_rivals_advances, law_publish_only_touches_path_root,
    law_publish_retry_harmless, law_read_after_admit, law_refused_publish_stores_nothing,
    law_replay_journal_restores, law_replay_keeps_consistent, law_retry_idempotent,
    law_stale_replay_refused, run, law_generation_is_latest_entry, law_fence_outcomes,
    law_wrong_generation_conflicts, law_digest_covers_whole_body, law_hex_lower_digits,
    law_hex_digit_values, law_fold_records_whole_body, law_replay_row_folds_unconditionally,
    law_replay_latest_row_wins, law_replay_records_every_row, law_lower_hex_bytes,
    law_account_root_prefix_and_digits, law_account_root_only_that_shape,
    law_account_root_extends, law_max_put_bytes, law_publish_shape_checks,
    law_signed_next_generation_advances, law_fetch_outcomes, law_publish_statuses,
};
