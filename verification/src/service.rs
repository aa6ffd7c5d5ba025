//! The per-message link-expansion policy.
//!
//! Handling one inbound message walks a fixed sequence of gates; the first
//! gate that fails drops the expansion with no reply and no user-visible
//! error.  In order: a bot author drops; a text without a citation link
//! drops; a message without a community context drops; a link into another
//! community drops; an unavailable channel drops; a restricted channel
//! drops; an unavailable message drops; an unresolvable sticker is surfaced
//! as its own outcome; an unresolvable channel name drops; otherwise the
//! citation payload is built.  The surrounding process performs the remote
//! fetches and the final reply dispatch (whose failure is logged, not
//! retried), and feeds their outcomes back in.

use vstd::prelude::*;

use crate::cache::{
    get_or_fetch_post, stamps_bounded, ChannelMetadata, FetchError, IdleCache,
};
use crate::citation::{spec_build, CitationPayload, RemoteMessage};
use crate::matcher;
use crate::matcher::LinkReference;

verus! {

/// Most entries a metadata or name cache holds.
pub const CACHE_CAPACITY: usize = 100;

/// Idle timeout of the caches, in seconds.
pub const CACHE_AGE: u64 = 60 * 60;

/// What the policy reads from an inbound message: whether its author is an
/// automated account, its text, and the community it was posted in (absent
/// for direct messages).
#[derive(Clone, Debug)]
pub struct InboundMessage {
    pub author_is_bot: bool,
    pub content: String,
    pub community_id: Option<u64>,
}

/// Why an expansion produced no citation.  Every variant is a silent drop
/// except `StickerUnresolvable`, which marks a defect the caller should
/// surface loudly rather than ignore.
#[derive(Clone, Copy, Debug, PartialEq, Eq, Structural)]
pub enum DropReason {
    /// The message came from an automated account.
    SelfAuthored,
    /// The text holds no citation link (or the first link's identifiers do
    /// not fit in 64 bits).
    NoMatch,
    /// The message has no originating community (a direct message).
    NoCommunityContext,
    /// The link points into a different community than the message's own.
    CrossScopeViolation,
    /// The referenced channel could not be resolved.
    ChannelUnavailable,
    /// The referenced channel is flagged restricted; its content is never
    /// echoed.
    RestrictedChannel,
    /// The referenced message could not be fetched.
    MessageUnavailable,
    /// The referenced message has a sticker without a resolvable image URL.
    StickerUnresolvable,
    /// The channel's display name could not be resolved.
    NameUnavailable,
}

/// The short-circuit outcome of the gates that need no remote data: bot
/// author, link extraction, community context, and the cross-community
/// check, in that order.
pub open spec fn spec_plan(message: InboundMessage) -> Result<LinkReference, DropReason> {
    if message.author_is_bot {
        Err(DropReason::SelfAuthored)
    } else {
        match matcher::spec_extract(message.content@) {
            Option::None => Err(DropReason::NoMatch),
            Option::Some(link) => match message.community_id {
                Option::None => Err(DropReason::NoCommunityContext),
                Option::Some(community) => if link.community_id != community {
                    Err(DropReason::CrossScopeViolation)
                } else {
                    Ok(link)
                },
            },
        }
    }
}

/// Runs the gates that need no remote data and yields either the validated
/// link identifiers or the reason the message is dropped.
pub fn plan(message: &InboundMessage) -> (r: Result<LinkReference, DropReason>)
    ensures
        r == spec_plan(*message),
{
    if message.author_is_bot {
        return Err(DropReason::SelfAuthored);
    }
    let link = match matcher::extract(message.content.as_str()) {
        Some(link) => link,
        None => {
            return Err(DropReason::NoMatch);
        },
    };
    let community = match message.community_id {
        Some(community) => community,
        None => {
            return Err(DropReason::NoCommunityContext);
        },
    };
    if link.community_id != community {
        Err(DropReason::CrossScopeViolation)
    } else {
        Ok(link)
    }
}

/// Gate on a resolved channel: an unavailable channel drops, a restricted
/// channel drops, any other channel passes.
pub open spec fn spec_admit_channel(fetched: Result<ChannelMetadata, FetchError>) -> Result<
    ChannelMetadata,
    DropReason,
> {
    match fetched {
        Result::Err(_) => Err(DropReason::ChannelUnavailable),
        Result::Ok(meta) => if meta.is_restricted {
            Err(DropReason::RestrictedChannel)
        } else {
            Ok(meta)
        },
    }
}

/// Applies the channel gates to a resolution outcome.
pub fn admit_channel(fetched: Result<ChannelMetadata, FetchError>) -> (r: Result<
    ChannelMetadata,
    DropReason,
>)
    ensures
        r == spec_admit_channel(fetched),
{
    match fetched {
        Err(_) => Err(DropReason::ChannelUnavailable),
        Ok(meta) => {
            if meta.is_restricted {
                Err(DropReason::RestrictedChannel)
            } else {
                Ok(meta)
            }
        },
    }
}

/// The referenced message carries a sticker whose image URL could not be
/// resolved.
pub open spec fn sticker_defect(m: RemoteMessage) -> bool {
    m.sticker_image_urls@.len() > 0 && m.sticker_image_urls@[0] is None
}

/// Gate on the fetched message: a fetch failure drops, and a first sticker
/// without an image URL is surfaced as a distinct outcome instead of being
/// built into a citation (or crashing the process).
pub open spec fn spec_admit_message(fetched: Result<RemoteMessage, FetchError>) -> Result<
    RemoteMessage,
    DropReason,
> {
    match fetched {
        Result::Err(_) => Err(DropReason::MessageUnavailable),
        Result::Ok(m) => if sticker_defect(m) {
            Err(DropReason::StickerUnresolvable)
        } else {
            Ok(m)
        },
    }
}

/// Applies the message gates to a fetch outcome.
pub fn admit_message(fetched: Result<RemoteMessage, FetchError>) -> (r: Result<
    RemoteMessage,
    DropReason,
>)
    ensures
        r == spec_admit_message(fetched),
{
    match fetched {
        Err(_) => Err(DropReason::MessageUnavailable),
        Ok(m) => {
            let defect = m.sticker_image_urls.len() > 0 && m.sticker_image_urls[0].is_none();
            if defect {
                Err(DropReason::StickerUnresolvable)
            } else {
                Ok(m)
            }
        },
    }
}

/// Gate on the channel's display name: a resolution failure drops.
pub open spec fn spec_admit_name(fetched: Result<String, FetchError>) -> Result<
    String,
    DropReason,
> {
    match fetched {
        Result::Err(_) => Err(DropReason::NameUnavailable),
        Result::Ok(name) => Ok(name),
    }
}

/// Applies the name gate to a resolution outcome.
pub fn admit_name(fetched: Result<String, FetchError>) -> (r: Result<String, DropReason>)
    ensures
        r == spec_admit_name(fetched),
{
    match fetched {
        Err(_) => Err(DropReason::NameUnavailable),
        Ok(name) => Ok(name),
    }
}

/// Relation between a cache before and after a cached resolution and its
/// collapsed result: some fetch outcome drove [`get_or_fetch_post`], and the
/// result keeps the value on success and is nothing on failure.
pub open spec fn resolve_post<V, F: FnOnce() -> Result<V, FetchError>>(
    pre: IdleCache<V>,
    post: IdleCache<V>,
    key: u64,
    now_s: u64,
    fetch: F,
    r: Option<V>,
) -> bool {
    &&& post.capacity == pre.capacity
    &&& post.idle_timeout_s == pre.idle_timeout_s
    &&& exists|fr: Result<V, FetchError>|
        {
            &&& #[trigger] get_or_fetch_post(
                pre.entries@,
                post.entries@,
                key,
                now_s,
                pre.capacity as int,
                pre.idle_timeout_s,
                fetch,
                fr,
            )
            &&& match fr {
                Result::Ok(v) => r == Some(v),
                Result::Err(_) => r is None,
            }
        }
}

/// Expands message links into citations, caching channel metadata and
/// channel display names under the same capacity and idle policy.
pub struct MessageLinkExpandService {
    pub guild_channel_cache: IdleCache<ChannelMetadata>,
    pub channel_name_cache: IdleCache<String>,
}

impl MessageLinkExpandService {
    /// Both caches satisfy their structural invariant.
    pub open spec fn wf(self) -> bool {
        &&& self.guild_channel_cache.wf()
        &&& self.channel_name_cache.wf()
    }

    /// No cached stamp lies in the future of `now_s`.
    pub open spec fn stamps_ok(self, now_s: u64) -> bool {
        &&& stamps_bounded(self.guild_channel_cache.entries@, now_s)
        &&& stamps_bounded(self.channel_name_cache.entries@, now_s)
    }

    /// A service with empty caches under the given capacity and idle
    /// timeout; both are fixed at construction.
    pub fn with_config(capacity: usize, idle_timeout_s: u64) -> (r: Self)
        requires
            capacity >= 1,
            idle_timeout_s >= 1,
        ensures
            r.wf(),
            forall|t: u64| r.stamps_ok(t),
            r.guild_channel_cache.entries@.len() == 0,
            r.channel_name_cache.entries@.len() == 0,
            r.guild_channel_cache.capacity == capacity,
            r.channel_name_cache.capacity == capacity,
            r.guild_channel_cache.idle_timeout_s == idle_timeout_s,
            r.channel_name_cache.idle_timeout_s == idle_timeout_s,
    {
        MessageLinkExpandService {
            guild_channel_cache: IdleCache::new(capacity, idle_timeout_s),
            channel_name_cache: IdleCache::new(capacity, idle_timeout_s),
        }
    }

    /// A service with the default configuration.
    pub fn new() -> (r: Self)
        ensures
            r.wf(),
            forall|t: u64| r.stamps_ok(t),
            r.guild_channel_cache.entries@.len() == 0,
            r.channel_name_cache.entries@.len() == 0,
            r.guild_channel_cache.capacity == CACHE_CAPACITY,
            r.channel_name_cache.capacity == CACHE_CAPACITY,
            r.guild_channel_cache.idle_timeout_s == CACHE_AGE,
            r.channel_name_cache.idle_timeout_s == CACHE_AGE,
    {
        Self::with_config(CACHE_CAPACITY, CACHE_AGE)
    }

    /// The text of the first citation link in `msg`, if any.
    pub fn extract_message_link(&self, msg: &str) -> (r: Option<String>)
        ensures
            match matcher::spec_first_link(msg@) {
                Option::None => r is None,
                Option::Some(l) => r is Some && r.unwrap()@ == l,
            },
    {
        matcher::extract_link(msg)
    }

    /// The identifiers of the first citation link in `link`, if any.
    pub fn extract_discord_ids(&self, link: &str) -> (r: Option<LinkReference>)
        ensures
            r == matcher::spec_extract(link@),
    {
        matcher::extract(link)
    }

    /// Resolves channel metadata through the metadata cache: a fresh cached
    /// entry is returned without fetching; otherwise one fetch decides, its
    /// success is cached, and its failure collapses to nothing.
    pub fn get_guild_channel<F: FnOnce() -> Result<ChannelMetadata, FetchError>>(
        &mut self,
        channel_id: u64,
        now_s: u64,
        fetch: F,
    ) -> (r: Option<ChannelMetadata>)
        requires
            old(self).wf(),
            old(self).stamps_ok(now_s),
            fetch.requires(()),
        ensures
            final(self).wf(),
            final(self).stamps_ok(now_s),
            final(self).channel_name_cache == old(self).channel_name_cache,
            resolve_post(
                old(self).guild_channel_cache,
                final(self).guild_channel_cache,
                channel_id,
                now_s,
                fetch,
                r,
            ),
    {
        match self.guild_channel_cache.get_or_fetch(channel_id, now_s, fetch) {
            Ok(meta) => Some(meta),
            Err(_) => None,
        }
    }

    /// Resolves a channel's display name through the name cache, under the
    /// same policy as [`Self::get_guild_channel`].
    pub fn get_guild_name<F: FnOnce() -> Result<String, FetchError>>(
        &mut self,
        channel_id: u64,
        now_s: u64,
        fetch: F,
    ) -> (r: Option<String>)
        requires
            old(self).wf(),
            old(self).stamps_ok(now_s),
            fetch.requires(()),
        ensures
            final(self).wf(),
            final(self).stamps_ok(now_s),
            final(self).guild_channel_cache == old(self).guild_channel_cache,
            resolve_post(
                old(self).channel_name_cache,
                final(self).channel_name_cache,
                channel_id,
                now_s,
                fetch,
                r,
            ),
    {
        match self.channel_name_cache.get_or_fetch(channel_id, now_s, fetch) {
            Ok(name) => Some(name),
            Err(_) => None,
        }
    }

    /// Runs one message through every gate, with the remote reads supplied
    /// as callbacks, and returns the citation payload to dispatch or the
    /// reason the expansion was dropped.
    pub fn expand<
        FC: FnOnce() -> Result<ChannelMetadata, FetchError>,
        FM: FnOnce() -> Result<RemoteMessage, FetchError>,
        FN: FnOnce() -> Result<String, FetchError>,
    >(
        &mut self,
        message: &InboundMessage,
        now_s: u64,
        fetch_channel: FC,
        fetch_message: FM,
        fetch_name: FN,
    ) -> (r: Result<CitationPayload, DropReason>)
        requires
            old(self).wf(),
            old(self).stamps_ok(now_s),
            fetch_channel.requires(()),
            fetch_message.requires(()),
            fetch_name.requires(()),
        ensures
            final(self).wf(),
            final(self).stamps_ok(now_s),
            expand_post(
                *old(self),
                *final(self),
                *message,
                now_s,
                fetch_channel,
                fetch_message,
                fetch_name,
                r,
            ),
    {
        let link = match plan(message) {
            Ok(link) => link,
            Err(d) => {
                return Err(d);
            },
        };
        let meta = match self.get_guild_channel(link.channel_id, now_s, fetch_channel) {
            Some(meta) => meta,
            None => {
                return Err(DropReason::ChannelUnavailable);
            },
        };
        if meta.is_restricted {
            return Err(DropReason::RestrictedChannel);
        }
        let fetched = fetch_message();
        let remote = match admit_message(fetched) {
            Ok(remote) => remote,
            Err(d) => {
                return Err(d);
            },
        };
        let name = match self.get_guild_name(link.channel_id, now_s, fetch_name) {
            Some(name) => name,
            None => {
                return Err(DropReason::NameUnavailable);
            },
        };
        Ok(crate::citation::build(remote, name))
    }
}

/// Relation between the service state before and after [`expand`]
/// (`MessageLinkExpandService::expand`), the message, the fetch callbacks
/// and the result: the gates run in their fixed order, each cache step obeys
/// [`resolve_post`], the message fetch outcome obeys the message gates, and
/// a successful run returns exactly the citation built from the fetched
/// message and resolved name.
pub open spec fn expand_post<
    FC: FnOnce() -> Result<ChannelMetadata, FetchError>,
    FM: FnOnce() -> Result<RemoteMessage, FetchError>,
    FN: FnOnce() -> Result<String, FetchError>,
>(
    pre: MessageLinkExpandService,
    post: MessageLinkExpandService,
    message: InboundMessage,
    now_s: u64,
    fetch_channel: FC,
    fetch_message: FM,
    fetch_name: FN,
    r: Result<CitationPayload, DropReason>,
) -> bool {
    match spec_plan(message) {
        Result::Err(d) => r == Err::<CitationPayload, DropReason>(d) && post == pre,
        Result::Ok(link) => exists|co: Option<ChannelMetadata>|
            {
                &&& #[trigger] resolve_post(
                    pre.guild_channel_cache,
                    post.guild_channel_cache,
                    link.channel_id,
                    now_s,
                    fetch_channel,
                    co,
                )
                &&& match co {
                    Option::None => r == Err::<CitationPayload, DropReason>(
                        DropReason::ChannelUnavailable,
                    ) && post.channel_name_cache == pre.channel_name_cache,
                    Option::Some(meta) => if meta.is_restricted {
                        r == Err::<CitationPayload, DropReason>(DropReason::RestrictedChannel)
                            && post.channel_name_cache == pre.channel_name_cache
                    } else {
                        exists|mr: Result<RemoteMessage, FetchError>|
                            {
                                &&& #[trigger] call_ensures(fetch_message, (), mr)
                                &&& match spec_admit_message(mr) {
                                    Result::Err(d) => r == Err::<CitationPayload, DropReason>(d)
                                        && post.channel_name_cache == pre.channel_name_cache,
                                    Result::Ok(m) => exists|no: Option<String>|
                                        {
                                            &&& #[trigger] resolve_post(
                                                pre.channel_name_cache,
                                                post.channel_name_cache,
                                                link.channel_id,
                                                now_s,
                                                fetch_name,
                                                no,
                                            )
                                            &&& match no {
                                                Option::None => r == Err::<
                                                    CitationPayload,
                                                    DropReason,
                                                >(DropReason::NameUnavailable),
                                                Option::Some(name) => r == Ok::<
                                                    CitationPayload,
                                                    DropReason,
                                                >(spec_build(m, name)),
                                            }
                                        },
                                }
                            }
                    },
                }
            },
    }
}

} // verus!
