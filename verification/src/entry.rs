use vstd::prelude::*;

verus! {

/// What the directory reads of a published entry: its generation, the account root it is
/// published under, and whether it is a retraction. The entry itself is the protocol's
/// `DirectoryEntry`; whoever parses a body hands the directory these values of it.
#[derive(Debug, PartialEq, Eq)]
pub struct EntrySummary {
    /// The entry's generation (`0` for a bare entry written before signed puts were stored).
    pub generation: u64,
    /// The account root public key of the entry's routing record.
    pub root_pubkey: String,
    /// Whether the entry is a root-signed retraction.
    pub is_retraction: bool,
}

/// The mathematical value of an [`EntrySummary`].
pub struct EntryView {
    pub generation: u64,
    pub root_pubkey: Seq<char>,
    pub is_retraction: bool,
}

impl View for EntrySummary {
    type V = EntryView;

    open spec fn view(&self) -> EntryView {
        EntryView {
            generation: self.generation,
            root_pubkey: self.root_pubkey@,
            is_retraction: self.is_retraction,
        }
    }
}

impl Clone for EntrySummary {
    fn clone(&self) -> (r: Self)
        ensures
            r == *self,
    {
        EntrySummary {
            generation: self.generation,
            root_pubkey: self.root_pubkey.clone(),
            is_retraction: self.is_retraction,
        }
    }
}

/// The latest admitted value for one root, exactly as it was published.
#[derive(Debug, PartialEq, Eq)]
pub struct Stored {
    /// The publish body, served verbatim so the root signature still covers it.
    pub body: String,
    /// The entry the body carries.
    pub entry: EntrySummary,
}

/// The mathematical value of a [`Stored`].
pub struct StoredView {
    pub body: Seq<char>,
    pub entry: EntryView,
}

impl View for Stored {
    type V = StoredView;

    open spec fn view(&self) -> StoredView {
        StoredView { body: self.body@, entry: self.entry@ }
    }
}

impl Clone for Stored {
    fn clone(&self) -> (r: Self)
        ensures
            r == *self,
    {
        Stored { body: self.body.clone(), entry: self.entry.clone() }
    }
}

/// A row of the durable directory log: the exact body that was appended, and the entry it
/// carries, or `None` where the body does not parse as a directory entry.
#[derive(Debug)]
pub struct LogRow {
    pub body: String,
    pub entry: Option<EntrySummary>,
}

/// The mathematical value of a [`LogRow`].
pub struct LogRowView {
    pub body: Seq<char>,
    pub entry: Option<EntryView>,
}

/// The view of an optional entry.
pub open spec fn entry_view_of(entry: Option<EntrySummary>) -> Option<EntryView> {
    match entry {
        Some(e) => Some(e@),
        None => None,
    }
}

impl View for LogRow {
    type V = LogRowView;

    open spec fn view(&self) -> LogRowView {
        LogRowView { body: self.body@, entry: entry_view_of(self.entry) }
    }
}

} // verus!
