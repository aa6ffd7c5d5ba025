use link_citation::cache::{ChannelMetadata, FetchError};
use link_citation::citation::RemoteMessage;
use link_citation::service::{plan, DropReason, InboundMessage, MessageLinkExpandService};

fn inbound(content: &str, community_id: Option<u64>) -> InboundMessage {
    InboundMessage {
        author_is_bot: false,
        content: content.to_string(),
        community_id,
    }
}

fn general_channel() -> ChannelMetadata {
    ChannelMetadata {
        channel_id: 222,
        display_name: "general".to_string(),
        is_restricted: false,
    }
}

fn hello_message() -> RemoteMessage {
    RemoteMessage {
        author_name: "Alice".to_string(),
        author_avatar_url: None,
        content: "hello".to_string(),
        created_at: 1_700_000_000,
        attachment_urls: vec![],
        sticker_image_urls: vec![],
    }
}

#[test]
fn plan_drops_bot_authors() {
    let mut msg = inbound("https://discord.com/channels/111/222/333", Some(111));
    msg.author_is_bot = true;
    assert_eq!(plan(&msg), Err(DropReason::SelfAuthored));
}

#[test]
fn plan_drops_messages_without_a_link() {
    let msg = inbound("hello there", Some(111));
    assert_eq!(plan(&msg), Err(DropReason::NoMatch));
}

#[test]
fn plan_drops_direct_messages() {
    let msg = inbound("https://discord.com/channels/111/222/333", None);
    assert_eq!(plan(&msg), Err(DropReason::NoCommunityContext));
}

#[test]
fn plan_drops_links_into_other_communities() {
    let msg = inbound("https://discord.com/channels/999/222/333", Some(111));
    assert_eq!(plan(&msg), Err(DropReason::CrossScopeViolation));
}

#[test]
fn plan_accepts_a_link_into_the_own_community() {
    let msg = inbound("check this out https://discord.com/channels/111/222/333", Some(111));
    let link = plan(&msg).unwrap();
    assert_eq!(link.community_id, 111);
    assert_eq!(link.channel_id, 222);
    assert_eq!(link.message_id, 333);
}

#[test]
fn expansion_dispatches_a_citation() {
    let mut svc = MessageLinkExpandService::new();
    let msg = inbound("check this out https://discord.com/channels/111/222/333", Some(111));
    let result = svc.expand(
        &msg,
        1000,
        || Ok(general_channel()),
        || Ok(hello_message()),
        || Ok("general".to_string()),
    );
    let payload = result.unwrap();
    assert_eq!(payload.content, "hello");
    assert_eq!(payload.author_name, "Alice");
    assert_eq!(payload.channel_name, "general");
    assert_eq!(payload.created_at, 1_700_000_000);
    assert_eq!(payload.attachment_image_url, None);
    assert_eq!(payload.sticker_image_url, None);
}

#[test]
fn expansion_drops_cross_community_links_without_fetching() {
    let mut svc = MessageLinkExpandService::new();
    let msg = inbound("check this out https://discord.com/channels/999/222/333", Some(111));
    let result = svc.expand(
        &msg,
        1000,
        || panic!("the channel must not be fetched"),
        || panic!("the message must not be fetched"),
        || panic!("the name must not be fetched"),
    );
    assert_eq!(result, Err(DropReason::CrossScopeViolation));
}

#[test]
fn expansion_never_cites_a_restricted_channel() {
    let mut svc = MessageLinkExpandService::new();
    let msg = inbound("https://discord.com/channels/111/222/333", Some(111));
    let result = svc.expand(
        &msg,
        1000,
        || {
            Ok(ChannelMetadata {
                channel_id: 222,
                display_name: "hidden".to_string(),
                is_restricted: true,
            })
        },
        || panic!("the message of a restricted channel must not be fetched"),
        || panic!("the name of a restricted channel must not be fetched"),
    );
    assert_eq!(result, Err(DropReason::RestrictedChannel));
}

#[test]
fn expansion_drops_when_the_channel_is_unavailable() {
    let mut svc = MessageLinkExpandService::new();
    let msg = inbound("https://discord.com/channels/111/222/333", Some(111));
    let result = svc.expand(
        &msg,
        1000,
        || Err(FetchError::NotFound),
        || panic!("unreachable without a channel"),
        || panic!("unreachable without a channel"),
    );
    assert_eq!(result, Err(DropReason::ChannelUnavailable));
}

#[test]
fn expansion_drops_when_the_message_is_unavailable() {
    let mut svc = MessageLinkExpandService::new();
    let msg = inbound("https://discord.com/channels/111/222/333", Some(111));
    let result = svc.expand(
        &msg,
        1000,
        || Ok(general_channel()),
        || Err(FetchError::Transport),
        || panic!("unreachable without a message"),
    );
    assert_eq!(result, Err(DropReason::MessageUnavailable));
}

#[test]
fn expansion_drops_when_the_name_is_unavailable() {
    let mut svc = MessageLinkExpandService::new();
    let msg = inbound("https://discord.com/channels/111/222/333", Some(111));
    let result = svc.expand(
        &msg,
        1000,
        || Ok(general_channel()),
        || Ok(hello_message()),
        || Err(FetchError::Transport),
    );
    assert_eq!(result, Err(DropReason::NameUnavailable));
}

#[test]
fn expansion_surfaces_an_unresolvable_sticker() {
    let mut svc = MessageLinkExpandService::new();
    let msg = inbound("https://discord.com/channels/111/222/333", Some(111));
    let mut broken = hello_message();
    broken.sticker_image_urls = vec![None];
    let result = svc.expand(
        &msg,
        1000,
        || Ok(general_channel()),
        || Ok(broken.clone()),
        || panic!("unreachable with a defective sticker"),
    );
    assert_eq!(result, Err(DropReason::StickerUnresolvable));
}

#[test]
fn expansion_reuses_cached_channel_data() {
    let mut svc = MessageLinkExpandService::new();
    let msg = inbound("https://discord.com/channels/111/222/333", Some(111));
    let first = svc.expand(
        &msg,
        1000,
        || Ok(general_channel()),
        || Ok(hello_message()),
        || Ok("general".to_string()),
    );
    assert!(first.is_ok());
    // Within the idle window neither the channel nor its name is fetched
    // again; only the message itself is always fetched afresh.
    let second = svc.expand(
        &msg,
        1500,
        || panic!("the channel metadata must come from the cache"),
        || Ok(hello_message()),
        || panic!("the channel name must come from the cache"),
    );
    let payload = second.unwrap();
    assert_eq!(payload.channel_name, "general");
}

#[test]
fn expansion_refetches_after_the_idle_timeout() {
    let mut svc = MessageLinkExpandService::with_config(100, 3600);
    let msg = inbound("https://discord.com/channels/111/222/333", Some(111));
    let first = svc.expand(
        &msg,
        1000,
        || Ok(general_channel()),
        || Ok(hello_message()),
        || Ok("general".to_string()),
    );
    assert!(first.is_ok());
    let second = svc.expand(
        &msg,
        1000 + 3600,
        || Ok(general_channel()),
        || Ok(hello_message()),
        || Ok("renamed".to_string()),
    );
    let payload = second.unwrap();
    assert_eq!(payload.channel_name, "renamed");
}
