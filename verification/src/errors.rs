use vstd::prelude::*;

verus! {

/// Why a fetch, a parse, or a persistence step failed.
///
/// Fetch and parse failures are feed-level and recoverable: the feed simply
/// contributes no records this cycle and is retried the next time it is due.
/// A missing required field is item-level: the item is dropped silently.
#[derive(Clone, Copy, Debug, PartialEq, Eq, Structural)]
pub enum Error {
    /// The transport could not deliver the feed body.
    Fetch,
    /// The bytes did not parse as a feed document.
    MalformedXml,
    /// The document had no channel, or the channel had no items.
    MissingStructure,
    /// A required item field (title, or any download link) was absent.
    MissingField,
    /// The store rejected or failed a write.
    Persistence,
}

} // verus!
