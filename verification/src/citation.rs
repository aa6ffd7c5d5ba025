//! Citation assembly: turns a fetched remote message into the normalized
//! citation record that a reply embed is rendered from.

use vstd::prelude::*;

verus! {

/// Accent colour of the reply embed a citation is rendered into.
pub const CITATION_EMBED_COLOR: u32 = 0x7fffff;

/// Read-only snapshot of a platform message, held only for the duration of
/// one expansion.  Attachment and sticker URLs keep their original order.
/// A sticker whose image URL could not be resolved appears as `None` in
/// `sticker_image_urls`.
#[derive(Clone, Debug, PartialEq)]
pub struct RemoteMessage {
    pub author_name: String,
    pub author_avatar_url: Option<String>,
    pub content: String,
    pub created_at: i64,
    pub attachment_urls: Vec<String>,
    pub sticker_image_urls: Vec<Option<String>>,
}

/// Normalized citation record: built once per successful expansion and
/// consumed immediately by the reply-dispatch step.
#[derive(Clone, Debug, PartialEq)]
pub struct CitationPayload {
    pub content: String,
    pub author_name: String,
    pub author_icon_url: Option<String>,
    pub channel_name: String,
    pub created_at: i64,
    pub attachment_image_url: Option<String>,
    pub sticker_image_url: Option<String>,
}

/// The citation built from a remote message and the display name of the
/// channel it lives in: content, author and timestamp verbatim, and the
/// first attachment URL and first sticker image URL when present.
pub open spec fn spec_build(m: RemoteMessage, channel_name: String) -> CitationPayload {
    (CitationPayload {
        content: m.content,
        author_name: m.author_name,
        author_icon_url: m.author_avatar_url,
        channel_name: channel_name,
        created_at: m.created_at,
        attachment_image_url: if m.attachment_urls@.len() > 0 {
            Some(m.attachment_urls@[0])
        } else {
            None
        },
        sticker_image_url: if m.sticker_image_urls@.len() > 0 {
            m.sticker_image_urls@[0]
        } else {
            None
        },
    })
}

/// Builds the citation for `remote`.
///
/// A sticker item without a resolvable image URL is a defect that callers
/// must surface rather than ignore, so a remote message whose first sticker
/// has no image URL is excluded here; the expansion policy turns that case
/// into an explicit outcome instead of calling this function.
pub fn build(remote: RemoteMessage, channel_name: String) -> (r: CitationPayload)
    requires
        remote.sticker_image_urls@.len() > 0 ==> remote.sticker_image_urls@[0] is Some,
    ensures
        r == spec_build(remote, channel_name),
{
    let RemoteMessage {
        author_name,
        author_avatar_url,
        content,
        created_at,
        mut attachment_urls,
        mut sticker_image_urls,
    } = remote;
    let attachment_image_url = if attachment_urls.len() > 0 {
        Some(attachment_urls.remove(0))
    } else {
        None
    };
    let sticker_image_url = if sticker_image_urls.len() > 0 {
        sticker_image_urls.remove(0)
    } else {
        None
    };
    CitationPayload {
        content,
        author_name,
        author_icon_url: author_avatar_url,
        channel_name,
        created_at,
        attachment_image_url,
        sticker_image_url,
    }
}

} // verus!
