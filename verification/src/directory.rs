use vstd::hash_map::StringHashMap;
use vstd::hash_set::StringHashSet;
use vstd::prelude::*;

use crate::digest::{digest, digest_of};
use crate::entry::{EntrySummary, EntryView, LogRow, LogRowView, Stored, StoredView};

verus! {

/// What a publish did to a root's log.
#[derive(Clone, Copy, Debug, PartialEq, Eq, Structural)]
pub enum Disposition {
    /// Appended: the generation advanced by exactly one.
    Advanced,
    /// Already admitted byte for byte; nothing appended.
    Idempotent,
    /// Refused: the generation did not advance by exactly one.
    Conflict,
}

/// The mathematical value of a [`BlindDirectory`]: the latest admitted value of each root
/// that has been published, and every (root, body digest) pair that has been admitted.
#[verifier::ext_equal]
pub struct DirectoryView {
    pub latest: Map<Seq<char>, StoredView>,
    pub admitted: Set<(Seq<char>, Seq<char>)>,
}

/// The directory with nothing published.
pub open spec fn empty_directory() -> DirectoryView {
    DirectoryView { latest: Map::empty(), admitted: Set::empty() }
}

/// The current generation of `root`: that of its latest admitted entry, `0` if it has none.
pub open spec fn generation_of(d: DirectoryView, root: Seq<char>) -> int {
    if d.latest.contains_key(root) {
        d.latest[root].entry.generation as int
    } else {
        0
    }
}

/// What admitting `body`, which carries `entry`, does: a body already admitted for the
/// entry's root is idempotent; otherwise the entry must advance the root's generation by one.
pub open spec fn admission(d: DirectoryView, entry: EntryView, body: Seq<char>) -> Disposition {
    if d.admitted.contains((entry.root_pubkey, digest_of(body))) {
        Disposition::Idempotent
    } else if entry.generation == generation_of(d, entry.root_pubkey) + 1 {
        Disposition::Advanced
    } else {
        Disposition::Conflict
    }
}

/// `d` with `body` (carrying `entry`) recorded as the latest value of the entry's root and
/// as admitted for it.
pub open spec fn folded(d: DirectoryView, body: Seq<char>, entry: EntryView) -> DirectoryView {
    DirectoryView {
        latest: d.latest.insert(entry.root_pubkey, StoredView { body, entry }),
        admitted: d.admitted.insert((entry.root_pubkey, digest_of(body))),
    }
}

/// The directory after admitting a publish: folded when the publish advanced, unchanged otherwise.
pub open spec fn after_admit(d: DirectoryView, entry: EntryView, body: Seq<char>) -> DirectoryView {
    if admission(d, entry, body) == Disposition::Advanced {
        folded(d, body, entry)
    } else {
        d
    }
}

/// Folding one log row: a row whose body carries an entry is folded in, any other is skipped.
pub open spec fn replay_row(d: DirectoryView, row: LogRowView) -> DirectoryView {
    match row.entry {
        Some(entry) => folded(d, row.body, entry),
        None => d,
    }
}

/// Folding the log `rows` into `d` in order, so that a later row for a root supersedes an
/// earlier one.
pub open spec fn replay(d: DirectoryView, rows: Seq<LogRowView>) -> DirectoryView
    decreases rows.len(),
{
    if rows.len() == 0 {
        d
    } else {
        replay_row(replay(d, rows.drop_last()), rows.last())
    }
}

/// The key under which the pair (root, digest) is kept: the digest, which is always 64
/// characters long, appended to the root.
pub open spec fn admission_key(root: Seq<char>, digest: Seq<char>) -> Seq<char> {
    root + digest
}

/// Two keys with 64-character digests are equal only for equal pairs.
proof fn lemma_admission_key_injective(r1: Seq<char>, d1: Seq<char>, r2: Seq<char>, d2: Seq<char>)
    requires
        d1.len() == 64,
        d2.len() == 64,
        admission_key(r1, d1) == admission_key(r2, d2),
    ensures
        r1 == r2,
        d1 == d2,
{
    let k = admission_key(r1, d1);
    assert(k.len() == r1.len() + 64);
    assert(admission_key(r2, d2).len() == r2.len() + 64);
    assert(r1.len() == r2.len());
    assert(r1 =~= k.subrange(0, r1.len() as int));
    assert(r2 =~= k.subrange(0, r1.len() as int));
    assert(d1 =~= k.subrange(r1.len() as int, k.len() as int));
    assert(d2 =~= k.subrange(r1.len() as int, k.len() as int));
}

/// The blind directory store, keyed by account root public key. It holds, per root, the latest
/// admitted publish, and the digest of every publish admitted for that root.
pub struct BlindDirectory {
    roots: StringHashMap<Stored>,
    admitted: StringHashSet,
}

impl View for BlindDirectory {
    type V = DirectoryView;

    closed spec fn view(&self) -> DirectoryView {
        DirectoryView {
            latest: self.roots@.map_values(|s: Stored| s@),
            admitted: Set::new(
                |p: (Seq<char>, Seq<char>)|
                    p.1.len() == 64 && self.admitted@.contains(admission_key(p.0, p.1)),
            ),
        }
    }
}

impl BlindDirectory {
    /// A pure in-memory directory with nothing published.
    pub fn new() -> (d: Self)
        ensures
            d@ == empty_directory(),
    {
        let d = BlindDirectory { roots: StringHashMap::new(), admitted: StringHashSet::new() };
        assert(d@.latest =~= Map::empty());
        assert(d@.admitted =~= Set::empty());
        d
    }

    /// The generation of `root`'s latest admitted entry, `0` if it has none.
    fn generation(&self, root: &str) -> (g: u64)
        ensures
            g == generation_of(self@, root@),
    {
        match self.roots.get(root) {
            Some(stored) => stored.entry.generation,
            None => 0,
        }
    }

    /// Records `body`, whose digest is `dg`, as the latest value of `entry`'s root and as
    /// admitted for it.
    fn fold_digested(&mut self, body: String, entry: EntrySummary, dg: String)
        requires
            dg@ == digest_of(body@),
            dg@.len() == 64,
        ensures
            final(self)@ == folded(old(self)@, body@, entry@),
    {
        let ghost pre = self@;
        let mut key = entry.root_pubkey.clone();
        key.append(dg.as_str());
        let ghost k = key@;
        assert(k == admission_key(entry.root_pubkey@, digest_of(body@)));
        self.admitted.insert(key);
        let root = entry.root_pubkey.clone();
        let ghost sv = StoredView { body: body@, entry: entry@ };
        self.roots.insert(root, Stored { body, entry });
        let ghost post = self@;
        let ghost want = folded(pre, sv.body, sv.entry);
        assert(post.latest =~= want.latest);
        assert forall|p: (Seq<char>, Seq<char>)| post.admitted.contains(p) <==> want.admitted.contains(p) by {
            if p.1.len() == 64 && admission_key(p.0, p.1) == k {
                lemma_admission_key_injective(p.0, p.1, sv.entry.root_pubkey, digest_of(sv.body));
            }
        }
        assert(post.admitted =~= want.admitted);
    }

    /// Folds one more publish in without a fence: `body`, carrying `entry`, becomes the latest
    /// value of the entry's root, and is recorded as admitted for it.
    fn fold(&mut self, body: String, entry: EntrySummary)
        ensures
            final(self)@ == folded(old(self)@, body@, entry@),
    {
        let dg = digest(body.as_str());
        self.fold_digested(body, entry, dg);
    }

    /// A directory rehydrated from its durable log, folding the rows in order, so that a later
    /// publish for a root supersedes an earlier one. Rows that carry no entry are skipped.
    pub fn open(rows: Vec<LogRow>) -> (d: Self)
        ensures
            d@ == replay(empty_directory(), rows@.map_values(|r: LogRow| r@)),
    {
        let ghost views = rows@.map_values(|r: LogRow| r@);
        let mut d = BlindDirectory::new();
        let mut i: usize = 0;
        while i < rows.len()
            invariant
                0 <= i <= rows@.len(),
                views == rows@.map_values(|r: LogRow| r@),
                d@ == replay(empty_directory(), views.take(i as int)),
            decreases rows@.len() - i,
        {
            let row = &rows[i];
            assert(views.take(i + 1).drop_last() =~= views.take(i as int));
            assert(views.take(i + 1).last() == row@);
            match &row.entry {
                Some(entry) => {
                    d.fold(row.body.clone(), entry.clone());
                },
                None => {},
            }
            i = i + 1;
        }
        assert(views.take(rows@.len() as int) =~= views);
        d
    }

    /// The latest admitted value for `root`, retraction included.
    pub fn get(&self, root: &str) -> (r: Option<Stored>)
        ensures
            match r {
                Some(s) => self@.latest.contains_key(root@) && s@ == self@.latest[root@],
                None => !self@.latest.contains_key(root@),
            },
    {
        match self.roots.get(root) {
            Some(stored) => Some(stored.clone()),
            None => None,
        }
    }

    /// The generation fence's decision on a verified publish whose exact body is `body`,
    /// without changing the directory: whether admitting it would advance the root, be an
    /// idempotent retry, or conflict.
    pub fn fence(&self, entry: &EntrySummary, body: &str) -> (r: Disposition)
        ensures
            r == admission(self@, entry@, body@),
    {
        let dg = digest(body);
        let mut key = entry.root_pubkey.clone();
        key.append(dg.as_str());
        if self.admitted.contains(key.as_str()) {
            return Disposition::Idempotent;
        }
        proof {
            if self@.admitted.contains((entry@.root_pubkey, digest_of(body@))) {
                assert(self.admitted@.contains(key@));
            }
        }
        let current = self.generation(entry.root_pubkey.as_str());
        if current == u64::MAX || entry.generation != current + 1 {
            Disposition::Conflict
        } else {
            Disposition::Advanced
        }
    }

    /// Admits a verified publish whose exact body is `body`, applying the generation fence:
    /// the directory changes only when the fence's decision is `Advanced`. The caller has
    /// already checked the path, the shape and the signature; where the directory is backed by
    /// a durable log, it calls this only once `fence` said `Advanced` and the body was appended.
    pub fn admit_put(&mut self, entry: &EntrySummary, body: &str) -> (r: Disposition)
        ensures
            r == admission(old(self)@, entry@, body@),
            final(self)@ == after_admit(old(self)@, entry@, body@),
    {
        let r = self.fence(entry, body);
        if r == Disposition::Advanced {
            self.fold(body.to_owned(), entry.clone());
        }
        r
    }

    /// How many roots have been published.
    pub fn len(&self) -> (n: usize)
        ensures
            n == self@.latest.len(),
    {
        assert(self@.latest.dom() =~= self.roots@.dom());
        self.roots.len()
    }

    /// Whether no root has been published.
    pub fn is_empty(&self) -> (b: bool)
        ensures
            b == (self@.latest.len() == 0),
    {
        assert(self@.latest.dom() =~= self.roots@.dom());
        self.roots.len() == 0
    }
}

} // verus!
