use link_citation::matcher::LinkReference;
use link_citation::service::MessageLinkExpandService;

#[test]
fn test_extract_message_link_only_link() {
    let service = MessageLinkExpandService::new();
    let msg = "https://discord.com/channels/123/456/789";
    let result = service.extract_message_link(msg);
    assert_eq!(
        result,
        Some("https://discord.com/channels/123/456/789".to_string())
    );
}

#[test]
fn test_extract_message_link_only_message() {
    let service = MessageLinkExpandService::new();
    let msg = "Hello, world!";
    let result = service.extract_message_link(msg);
    assert_eq!(result, None);
}

#[test]
fn test_extract_message_link_return_first() {
    let service = MessageLinkExpandService::new();
    let msg = "Hello, world! https://discord.com/channels/123/456/789 https://discord.com/channels/101112/131415/161718";
    let result = service.extract_message_link(msg);
    assert_eq!(
        result,
        Some("https://discord.com/channels/123/456/789".to_string())
    );
}

#[test]
fn test_extract_message_link_discordapp() {
    let service = MessageLinkExpandService::new();
    let msg = "https://discordapp.com/channels/123/456/789";
    let result = service.extract_message_link(msg);
    assert_eq!(
        result,
        Some("https://discordapp.com/channels/123/456/789".to_string())
    );
}

#[test]
fn message_test_extract_discord_id() {
    let service = MessageLinkExpandService::new();
    let link = "https://discord.com/channels/123/456/789";
    let result = service.extract_discord_ids(link);
    assert_eq!(
        result,
        Some(LinkReference {
            community_id: 123,
            channel_id: 456,
            message_id: 789
        })
    );
}

#[test]
fn expand_link_test_extract_discord_id() {
    let service = MessageLinkExpandService::new();
    let link = "https://discord.com/channels/123/456/789";
    let result = service.extract_discord_ids(link);
    assert_eq!(
        result,
        Some(LinkReference {
            community_id: 123,
            channel_id: 456,
            message_id: 789
        })
    );
}

#[test]
fn extract_handles_all_host_variants() {
    let expected = Some(LinkReference {
        community_id: 123,
        channel_id: 456,
        message_id: 789,
    });
    for text in [
        "https://discord.com/channels/123/456/789",
        "https://discordapp.com/channels/123/456/789",
        "https://ptb.discord.com/channels/123/456/789",
        "https://ptb.discordapp.com/channels/123/456/789",
        "https://canary.discord.com/channels/123/456/789",
        "https://canary.discordapp.com/channels/123/456/789",
    ] {
        assert_eq!(link_citation::matcher::extract(text), expected);
    }
}

#[test]
fn extract_ignores_text_around_the_link() {
    let result = link_citation::matcher::extract(
        "see https://canary.discord.com/channels/1/2/3, worth a look",
    );
    assert_eq!(
        result,
        Some(LinkReference {
            community_id: 1,
            channel_id: 2,
            message_id: 3
        })
    );
}

#[test]
fn extract_returns_first_of_several_links() {
    let result = link_citation::matcher::extract(
        "https://discord.com/channels/11/22/33 and https://discord.com/channels/44/55/66",
    );
    assert_eq!(
        result,
        Some(LinkReference {
            community_id: 11,
            channel_id: 22,
            message_id: 33
        })
    );
}

#[test]
fn extract_rejects_text_without_a_link() {
    for text in [
        "",
        "hello",
        "discord.com/channels/1/2/3",
        "http://discord.com/channels/1/2/3",
        "https://discord.com/channels/1/2",
        "https://discord.com/channels/1/2/",
        "https://discord.com/channels/1//3",
        "https://discord.com/channels/a/2/3",
        "https://example.com/channels/1/2/3",
        "https://ptb.canary.discord.com/channels/1/2/3",
    ] {
        assert_eq!(link_citation::matcher::extract(text), None, "{}", text);
    }
}

#[test]
fn extract_finds_a_link_after_a_broken_scheme() {
    let result = link_citation::matcher::extract("https://https://discord.com/channels/1/2/3");
    assert_eq!(
        result,
        Some(LinkReference {
            community_id: 1,
            channel_id: 2,
            message_id: 3
        })
    );
}

#[test]
fn extract_stops_message_segment_at_first_non_digit() {
    let result = link_citation::matcher::extract("https://discord.com/channels/123/456/789abc");
    assert_eq!(
        result,
        Some(LinkReference {
            community_id: 123,
            channel_id: 456,
            message_id: 789
        })
    );
}

#[test]
fn extract_keeps_leading_zeros_numeric() {
    let result = link_citation::matcher::extract("https://discord.com/channels/007/08/9");
    assert_eq!(
        result,
        Some(LinkReference {
            community_id: 7,
            channel_id: 8,
            message_id: 9
        })
    );
}

#[test]
fn extract_accepts_the_largest_identifier() {
    let result = link_citation::matcher::extract(
        "https://discord.com/channels/18446744073709551615/1/2",
    );
    assert_eq!(
        result,
        Some(LinkReference {
            community_id: u64::MAX,
            channel_id: 1,
            message_id: 2
        })
    );
}

#[test]
fn extract_discards_an_oversized_first_match_entirely() {
    // The first link's community does not fit in 64 bits, so nothing is
    // returned, even though a well-formed link follows.
    let result = link_citation::matcher::extract(
        "https://discord.com/channels/18446744073709551616/1/2 https://discord.com/channels/1/2/3",
    );
    assert_eq!(result, None);
}
