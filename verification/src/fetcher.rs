//! The decision core of the citation fetch: picking the referenced channel
//! out of a community's channel listing.
//!
//! The remote reads themselves (the channel listing, the message, the
//! display name) are plain platform calls performed by the surrounding
//! process; it hands the listing in as plain values.  What is decided here
//! is the error classification: a listing without the requested channel is
//! `NotFound`, not a transport-level failure.

use vstd::prelude::*;

use crate::cache::{ChannelMetadata, FetchError, ValueClone};

verus! {

/// There is an entry for `channel_id` in the listing.
pub open spec fn listing_has(listing: Seq<ChannelMetadata>, channel_id: u64) -> bool {
    exists|i: int| #![trigger listing[i]] 0 <= i < listing.len() && listing[i].channel_id
        == channel_id
}

/// Returns the first entry of `listing` whose identifier is `channel_id`,
/// and `NotFound` exactly when no entry carries it.
pub fn select_channel(listing: Vec<ChannelMetadata>, channel_id: u64) -> (r: Result<
    ChannelMetadata,
    FetchError,
>)
    ensures
        match r {
            Result::Ok(meta) => exists|i: int|
                {
                    &&& 0 <= i < listing@.len()
                    &&& #[trigger] listing@[i] == meta
                    &&& meta.channel_id == channel_id
                    &&& forall|j: int|
                        #![trigger listing@[j]]
                        0 <= j < i ==> listing@[j].channel_id != channel_id
                },
            Result::Err(e) => e == FetchError::NotFound && !listing_has(listing@, channel_id),
        },
{
    let n = listing.len();
    let mut i: usize = 0;
    while i < n
        invariant
            n == listing@.len(),
            i <= n,
            forall|j: int| #![trigger listing@[j]] 0 <= j < i ==> listing@[j].channel_id != channel_id,
        decreases n - i,
    {
        if listing[i].channel_id == channel_id {
            let found = listing[i].dup();
            proof {
                assert(listing@[i as int] == found);
            }
            return Ok(found);
        }
        i = i + 1;
    }
    Err(FetchError::NotFound)
}

} // verus!
