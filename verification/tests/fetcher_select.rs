use link_citation::cache::{ChannelMetadata, FetchError};
use link_citation::fetcher::select_channel;

fn meta(channel_id: u64, name: &str) -> ChannelMetadata {
    ChannelMetadata {
        channel_id,
        display_name: name.to_string(),
        is_restricted: false,
    }
}

#[test]
fn select_channel_finds_the_matching_entry() {
    let listing = vec![meta(1, "rules"), meta(2, "general"), meta(3, "random")];
    assert_eq!(select_channel(listing, 2), Ok(meta(2, "general")));
}

#[test]
fn select_channel_reports_an_absent_channel_as_not_found() {
    let listing = vec![meta(1, "rules"), meta(3, "random")];
    assert_eq!(select_channel(listing, 2), Err(FetchError::NotFound));
    assert_eq!(select_channel(vec![], 2), Err(FetchError::NotFound));
}
