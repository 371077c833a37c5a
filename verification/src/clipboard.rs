//! Following the local clipboard: telling when its content has changed and
//! whether a change is worth broadcasting.
//!
//! Reading the clipboard and waiting between two readings belong to the
//! program; what a reading means is decided here.

use vstd::prelude::*;
use crate::text::{opt_text, text_eq};

verus! {

/// What a reading amounts to: the update to broadcast if it differs from
/// what was last seen, nothing if it does not.
pub open spec fn update_for(last: Seq<char>, current: Seq<char>) -> Option<Seq<char>> {
    if current != last {
        Some(current)
    } else {
        None
    }
}

/// The content of the clipboard as it was last seen.
pub struct ClipboardWatch {
    last: String,
}

impl ClipboardWatch {
    /// The content that was last seen.
    pub closed spec fn last(self) -> Seq<char> {
        self.last@
    }

    /// A watch that has seen `initial`.
    pub fn new(initial: String) -> (watch: Self)
        ensures
            watch.last() == initial@,
    {
        ClipboardWatch { last: initial }
    }

    /// Takes in a reading of the clipboard. If it differs from what was
    /// last seen it is the update to broadcast; either way it is what was
    /// last seen from now on.
    pub fn observe(&mut self, current: String) -> (update: Option<String>)
        ensures
            final(self).last() == current@,
            opt_text(update) == update_for(old(self).last(), current@),
    {
        if text_eq(current.as_str(), self.last.as_str()) {
            None
        } else {
            self.last = current.clone();
            Some(current)
        }
    }
}

/// Whether an update is to be published: only while the broadcast layer
/// knows at least one peer.
pub fn should_publish(peers: usize) -> (publish: bool)
    ensures
        publish == (peers > 0),
{
    peers > 0
}

} // verus!
