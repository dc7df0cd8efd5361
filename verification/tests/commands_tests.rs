use voice_rooms::commands::{
    auth, choose_channels, classify, collect_ids, mention_body, parse_channel_ref,
    parse_channel_refs, parse_channels, unlink_feedback, unlink_targets, AuthFailure,
    AuthorPermissions, ChannelRef, Feedback,
};

fn args(words: &[&str]) -> Vec<String> {
    words.iter().map(|word| word.to_string()).collect()
}

#[test]
fn bare_number_is_an_id() {
    assert_eq!(parse_channel_ref("123"), Some(ChannelRef::Id(123)));
    assert_eq!(parse_channel_ref("0"), Some(ChannelRef::Id(0)));
    assert_eq!(parse_channel_ref("18446744073709551615"), Some(ChannelRef::Id(u64::MAX)));
}

#[test]
fn mention_is_a_mention() {
    assert_eq!(parse_channel_ref("<#123>"), Some(ChannelRef::Mention(123)));
    assert_eq!(parse_channel_ref("<#7>"), Some(ChannelRef::Mention(7)));
}

#[test]
fn mention_loses_its_last_character_whatever_it_is() {
    assert_eq!(parse_channel_ref("<#123"), Some(ChannelRef::Mention(12)));
    assert_eq!(parse_channel_ref("<#45x"), Some(ChannelRef::Mention(45)));
}

#[test]
fn other_text_names_no_channel() {
    assert_eq!(parse_channel_ref(""), None);
    assert_eq!(parse_channel_ref("general"), None);
    assert_eq!(parse_channel_ref("<#"), None);
    assert_eq!(parse_channel_ref("<#>"), None);
    assert_eq!(parse_channel_ref("<#abc>"), None);
    assert_eq!(parse_channel_ref("<@123>"), None);
    assert_eq!(parse_channel_ref("-5"), None);
    assert_eq!(parse_channel_ref("18446744073709551616"), None);
    assert_eq!(parse_channel_ref("<#12\u{e9}"), None);
}

#[test]
fn mention_body_cuts_prefix_and_last_character() {
    assert_eq!(mention_body("<#123>"), Some("123"));
    assert_eq!(mention_body("<#>"), Some(""));
    assert_eq!(mention_body("<#ab"), Some("a"));
    assert_eq!(mention_body("<#"), None);
    assert_eq!(mention_body("<"), None);
    assert_eq!(mention_body(""), None);
    assert_eq!(mention_body("#<12>"), None);
    assert_eq!(mention_body("<#1\u{e9}"), None);
    assert_eq!(mention_body("<#\u{e9}1>"), Some("\u{e9}1"));
}

#[test]
fn whole_number_wins_over_mention() {
    assert_eq!(classify(Some(1), Some(2)), Some(ChannelRef::Id(1)));
    assert_eq!(classify(Some(1), None), Some(ChannelRef::Id(1)));
    assert_eq!(classify(None, Some(2)), Some(ChannelRef::Mention(2)));
    assert_eq!(classify(None, None), None);
}

#[test]
fn link_arguments_in_either_order() {
    assert_eq!(parse_channels(&args(&["<#100>", "10"])), (10, 100));
    assert_eq!(parse_channels(&args(&["10", "<#100>"])), (10, 100));
}

#[test]
fn missing_link_arguments_are_zero() {
    assert_eq!(parse_channels(&args(&[])), (0, 0));
    assert_eq!(parse_channels(&args(&["10"])), (10, 0));
    assert_eq!(parse_channels(&args(&["<#100>"])), (0, 100));
    assert_eq!(parse_channels(&args(&["hello", "world"])), (0, 0));
}

#[test]
fn later_link_arguments_replace_earlier_ones() {
    assert_eq!(parse_channels(&args(&["10", "<#100>", "20", "x", "<#200>"])), (20, 200));
}

#[test]
fn chosen_channels_come_from_the_last_references() {
    let refs = vec![
        Some(ChannelRef::Id(1)),
        None,
        Some(ChannelRef::Mention(2)),
        Some(ChannelRef::Id(3)),
    ];
    assert_eq!(choose_channels(&refs), (3, 2));
    assert_eq!(choose_channels(&vec![]), (0, 0));
}

#[test]
fn unlink_arguments_are_collected_in_order() {
    assert_eq!(unlink_targets(&args(&["<#100>", "junk", "10", "<#200>"])), vec![100, 10, 200]);
    assert_eq!(unlink_targets(&args(&[])), Vec::<u64>::new());
}

#[test]
fn collected_ids_skip_unnamed_references() {
    let refs = vec![None, Some(ChannelRef::Mention(2)), None, Some(ChannelRef::Id(3))];
    assert_eq!(collect_ids(&refs), vec![2, 3]);
}

#[test]
fn references_are_read_one_for_one() {
    assert_eq!(
        parse_channel_refs(&args(&["1", "x", "<#2>"])),
        vec![Some(ChannelRef::Id(1)), None, Some(ChannelRef::Mention(2))]
    );
}

#[test]
fn command_outside_a_guild_is_refused() {
    let held = AuthorPermissions { in_guild: 0x8, in_channel: 0x8 };
    assert_eq!(auth(None, Some(held)), Err(AuthFailure::NotInGuild));
    assert_eq!(auth(None, None), Err(AuthFailure::NotInGuild));
}

#[test]
fn command_in_unknown_guild_is_refused() {
    assert_eq!(auth(Some(1), None), Err(AuthFailure::GuildNotCached));
}

#[test]
fn command_without_permissions_is_refused() {
    let held = AuthorPermissions { in_guild: 0x400, in_channel: 0x800 };
    assert_eq!(auth(Some(1), Some(held)), Err(AuthFailure::MissingPermissions));
}

#[test]
fn command_with_permissions_is_authorised() {
    assert_eq!(auth(Some(1), Some(AuthorPermissions { in_guild: 0x8, in_channel: 0 })), Ok(()));
    assert_eq!(auth(Some(1), Some(AuthorPermissions { in_guild: 0x10, in_channel: 0 })), Ok(()));
    assert_eq!(auth(Some(1), Some(AuthorPermissions { in_guild: 0, in_channel: 0x10 })), Ok(()));
    assert_eq!(auth(Some(1), Some(AuthorPermissions { in_guild: 0, in_channel: 0x8 })), Ok(()));
}

#[test]
fn refusals_give_their_reason() {
    assert_eq!(
        AuthFailure::NotInGuild.reason(),
        "This command needs to be executed in a guild."
    );
    assert_eq!(AuthFailure::GuildNotCached.reason(), "Failed to fetch this guild in cache.");
    assert_eq!(
        AuthFailure::MissingPermissions.reason(),
        "You miss the required permissions to run this command."
    );
}

#[test]
fn unlink_feedback_follows_the_counts() {
    assert_eq!(unlink_feedback(2, 0), Some(Feedback::Good));
    assert_eq!(unlink_feedback(0, 3), Some(Feedback::Bad));
    assert_eq!(unlink_feedback(1, 1), Some(Feedback::Warn));
    assert_eq!(unlink_feedback(0, 0), None);
}
