use vstd::prelude::*;
use vstd::string::*;
use vstd::utf8::*;

use crate::account_root::{account_root_bytes, is_account_root};
use crate::directory::{admission, after_admit, BlindDirectory, DirectoryView, Disposition};
use crate::entry::{entry_view_of, EntrySummary, EntryView};

verus! {

/// The reserved scope the durable directory log lives in.
pub const DIRECTORY_SCOPE: &'static str = "directory";

/// The record kind each admitted publish appends (one per publish; the latest per root wins).
pub const DIRECTORY_ENTRY_KIND: &'static str = "directory_entry";

/// The largest publish body accepted, in bytes.
pub const MAX_PUT_BYTES: usize = 2 * 1024 * 1024;

/// How `PUT /directory/:root` is answered.
#[derive(Clone, Copy, Debug, PartialEq, Eq, Structural)]
pub enum PublishReply {
    /// The path is not an account root (`404`).
    NotFound,
    /// The body is over [`MAX_PUT_BYTES`] (`413`).
    TooLarge,
    /// The body does not parse as a signed put, its generation is not positive, or its record's
    /// root is not the path's (`422`).
    Unprocessable,
    /// The signature does not verify under the record's own root key (`401`).
    Unauthorized,
    /// The publish would have advanced, but appending it to the durable log failed, so it was
    /// not admitted (`503`).
    LogUnavailable,
    /// The publish reached the generation fence (`204`, or `409` on a conflict).
    Admitted(Disposition),
}

/// The status code of a publish reply.
pub open spec fn publish_status(r: PublishReply) -> u16 {
    match r {
        PublishReply::NotFound => 404,
        PublishReply::TooLarge => 413,
        PublishReply::Unprocessable => 422,
        PublishReply::Unauthorized => 401,
        PublishReply::LogUnavailable => 503,
        PublishReply::Admitted(Disposition::Conflict) => 409,
        PublishReply::Admitted(_) => 204,
    }
}

/// The text body of a publish reply (empty for `204`).
pub open spec fn publish_message(r: PublishReply) -> Seq<char> {
    match r {
        PublishReply::NotFound => "not found"@,
        PublishReply::TooLarge => "directory publish too large"@,
        PublishReply::Unprocessable => "directory root mismatch"@,
        PublishReply::Unauthorized => "invalid root signature"@,
        PublishReply::LogUnavailable => "directory log unavailable"@,
        PublishReply::Admitted(Disposition::Conflict) => "directory generation must advance exactly once"@,
        PublishReply::Admitted(_) => ""@,
    }
}

impl PublishReply {
    /// The HTTP status code of this reply.
    pub fn status(&self) -> (s: u16)
        ensures
            s == publish_status(*self),
    {
        match self {
            PublishReply::NotFound => 404,
            PublishReply::TooLarge => 413,
            PublishReply::Unprocessable => 422,
            PublishReply::Unauthorized => 401,
            PublishReply::LogUnavailable => 503,
            PublishReply::Admitted(Disposition::Conflict) => 409,
            PublishReply::Admitted(_) => 204,
        }
    }

    /// The plain-text body of this reply (empty for `204`).
    pub fn message(&self) -> (m: &'static str)
        ensures
            m@ == publish_message(*self),
    {
        match self {
            PublishReply::NotFound => "not found",
            PublishReply::TooLarge => "directory publish too large",
            PublishReply::Unprocessable => "directory root mismatch",
            PublishReply::Unauthorized => "invalid root signature",
            PublishReply::LogUnavailable => "directory log unavailable",
            PublishReply::Admitted(Disposition::Conflict) => "directory generation must advance exactly once",
            PublishReply::Admitted(_) => "",
        }
    }
}

/// Why a publish for `root` with `body`, which parsed as `put` (`None`: it did not parse as a
/// signed put), is refused before its signature is looked at, if it is.
pub open spec fn publish_refusal(root: Seq<char>, body: Seq<char>, put: Option<EntryView>) -> Option<PublishReply> {
    if !account_root_bytes(encode_utf8(root)) {
        Some(PublishReply::NotFound)
    } else if encode_utf8(body).len() > MAX_PUT_BYTES {
        Some(PublishReply::TooLarge)
    } else if !(put matches Some(e) && e.generation > 0 && e.root_pubkey == root) {
        Some(PublishReply::Unprocessable)
    } else {
        None
    }
}

/// How a publish is answered, and the directory after it: refused as `publish_refusal` says;
/// else refused as `401` when the signature does not verify; else put through the generation
/// fence. Only the last can change the directory.
pub open spec fn publish_outcome(
    d: DirectoryView,
    root: Seq<char>,
    body: Seq<char>,
    put: Option<EntryView>,
    signature_valid: bool,
) -> (PublishReply, DirectoryView) {
    match publish_refusal(root, body, put) {
        Some(r) => (r, d),
        None => if !signature_valid {
            (PublishReply::Unauthorized, d)
        } else {
            (
                PublishReply::Admitted(admission(d, put.unwrap(), body)),
                after_admit(d, put.unwrap(), body),
            )
        },
    }
}

/// How a publish is answered, and the directory after it, where the directory is backed by a
/// durable log: `logged` says whether the body was appended to that log (there being no log
/// counts as appended). The log is the record: a publish that would advance but was not logged
/// is answered `503` and changes nothing; any other is answered as `publish_outcome` says.
pub open spec fn logged_publish_outcome(
    d: DirectoryView,
    root: Seq<char>,
    body: Seq<char>,
    put: Option<EntryView>,
    signature_valid: bool,
    logged: bool,
) -> (PublishReply, DirectoryView) {
    let (reply, post) = publish_outcome(d, root, body, put, signature_valid);
    if reply == PublishReply::Admitted(Disposition::Advanced) && !logged {
        (PublishReply::LogUnavailable, d)
    } else {
        (reply, post)
    }
}

/// The checks of a publish that come before its signature: the path, the size, the shape.
/// `put` is what the body parsed as, `None` where it does not parse as a signed put.
pub fn publish_precheck(root: &str, body: &str, put: &Option<EntrySummary>) -> (r: Option<PublishReply>)
    ensures
        r == publish_refusal(root@, body@, entry_view_of(*put)),
{
    if !is_account_root(root) {
        return Some(PublishReply::NotFound);
    }
    if body.as_bytes().len() > MAX_PUT_BYTES {
        return Some(PublishReply::TooLarge);
    }
    match put {
        Some(e) => {
            let path_root = root.to_owned();
            if e.generation > 0 && e.root_pubkey == path_root {
                None
            } else {
                Some(PublishReply::Unprocessable)
            }
        },
        None => Some(PublishReply::Unprocessable),
    }
}

/// How `GET /directory/:root` is answered.
#[derive(Debug)]
pub enum FetchReply {
    /// The path is not an account root, or nothing is published under it (`404`).
    NotFound,
    /// The latest admitted publish is a retraction, served verbatim (`410`).
    Gone(String),
    /// The latest admitted publish, served verbatim (`200`).
    Found(String),
}

/// The mathematical value of a [`FetchReply`].
pub enum FetchReplyView {
    NotFound,
    Gone(Seq<char>),
    Found(Seq<char>),
}

impl View for FetchReply {
    type V = FetchReplyView;

    open spec fn view(&self) -> FetchReplyView {
        match self {
            FetchReply::NotFound => FetchReplyView::NotFound,
            FetchReply::Gone(b) => FetchReplyView::Gone(b@),
            FetchReply::Found(b) => FetchReplyView::Found(b@),
        }
    }
}

/// How a read of `root` is answered: the latest admitted publish verbatim, `Gone` once it is
/// a retraction; not found for a path that is not an account root or a root never published.
pub open spec fn fetch_outcome(d: DirectoryView, root: Seq<char>) -> FetchReplyView {
    if !account_root_bytes(encode_utf8(root)) || !d.latest.contains_key(root) {
        FetchReplyView::NotFound
    } else if d.latest[root].entry.is_retraction {
        FetchReplyView::Gone(d.latest[root].body)
    } else {
        FetchReplyView::Found(d.latest[root].body)
    }
}

impl FetchReply {
    /// The HTTP status code of this reply.
    pub fn status(&self) -> (s: u16)
        ensures
            s == (match self@ {
                FetchReplyView::NotFound => 404u16,
                FetchReplyView::Gone(_) => 410u16,
                FetchReplyView::Found(_) => 200u16,
            }),
    {
        match self {
            FetchReply::NotFound => 404,
            FetchReply::Gone(_) => 410,
            FetchReply::Found(_) => 200,
        }
    }
}

impl BlindDirectory {
    /// How a publish would be answered, without changing the directory. `put` is what the body
    /// parsed as (`None`: it does not parse as a signed put), and `signature_valid` whether its
    /// signature verifies against the record's own root key. A durable service appends the
    /// body to its log when this is `Admitted(Advanced)`, before it commits the publish.
    pub fn publish_decision(
        &self,
        root: &str,
        body: &str,
        put: &Option<EntrySummary>,
        signature_valid: bool,
    ) -> (r: PublishReply)
        ensures
            r == publish_outcome(self@, root@, body@, entry_view_of(*put), signature_valid).0,
    {
        match publish_precheck(root, body, put) {
            Some(refusal) => refusal,
            None => {
                if !signature_valid {
                    return PublishReply::Unauthorized;
                }
                match put {
                    Some(e) => PublishReply::Admitted(self.fence(e, body)),
                    None => PublishReply::Unprocessable,
                }
            },
        }
    }

    /// Publishes `body` for `root`, fail-closed and fenced by generation, where the directory is
    /// backed by a durable log: `logged` says whether the body was appended to it. A publish
    /// that would advance but was not logged is refused and changes nothing.
    pub fn commit_publish(
        &mut self,
        root: &str,
        body: &str,
        put: Option<EntrySummary>,
        signature_valid: bool,
        logged: bool,
    ) -> (r: PublishReply)
        ensures
            (r, final(self)@) == logged_publish_outcome(
                old(self)@,
                root@,
                body@,
                entry_view_of(put),
                signature_valid,
                logged,
            ),
    {
        let decision = self.publish_decision(root, body, &put, signature_valid);
        if decision == PublishReply::Admitted(Disposition::Advanced) && !logged {
            return PublishReply::LogUnavailable;
        }
        self.publish(root, body, put, signature_valid)
    }

    /// Publishes `body` for `root` in a directory with no durable log, fail-closed and fenced by
    /// generation. `put` is what the body parsed as (`None`: it does not parse as a signed put),
    /// and `signature_valid` whether its signature verifies against the record's own root key.
    pub fn publish(&mut self, root: &str, body: &str, put: Option<EntrySummary>, signature_valid: bool) -> (r: PublishReply)
        ensures
            (r, final(self)@) == publish_outcome(old(self)@, root@, body@, entry_view_of(put), signature_valid),
    {
        match publish_precheck(root, body, &put) {
            Some(refusal) => refusal,
            None => {
                if !signature_valid {
                    return PublishReply::Unauthorized;
                }
                match put {
                    Some(e) => PublishReply::Admitted(self.admit_put(&e, body)),
                    None => PublishReply::Unprocessable,
                }
            },
        }
    }

    /// The latest admitted publish for `root`, verbatim; `Gone` once it is a retraction.
    pub fn fetch(&self, root: &str) -> (r: FetchReply)
        ensures
            r@ == fetch_outcome(self@, root@),
    {
        if !is_account_root(root) {
            return FetchReply::NotFound;
        }
        match self.get(root) {
            None => FetchReply::NotFound,
            Some(stored) => if stored.entry.is_retraction {
                FetchReply::Gone(stored.body)
            } else {
                FetchReply::Found(stored.body)
            },
        }
    }
}

} // verus!
