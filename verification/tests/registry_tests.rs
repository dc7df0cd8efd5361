use std::collections::BTreeMap;
use voice_rooms::registry::{get_room, review_state, Config, LinkError, Room, Serving};

fn room(voice_id: u64, text_id: u64) -> Room {
    Room { voice_id, text_id }
}

fn guild(guild_id: u64, rooms: Vec<Room>) -> Serving {
    Serving { guild_id, rooms }
}

fn config_with(servings: Vec<Serving>) -> Config {
    let mut serving = BTreeMap::new();
    for entry in servings {
        serving.insert(entry.guild_id, entry);
    }
    Config { token: String::from("secret"), prefix: String::from("!"), serving }
}

#[test]
fn lookup_finds_room_by_voice_channel() {
    let serving = guild(1, vec![room(10, 100), room(20, 200)]);
    assert_eq!(get_room(&serving, 20), Some(room(20, 200)));
    assert_eq!(get_room(&serving, 10), Some(room(10, 100)));
}

#[test]
fn lookup_of_unlinked_channel_finds_nothing() {
    let serving = guild(1, vec![room(10, 100), room(20, 200)]);
    assert_eq!(get_room(&serving, 30), None);
    assert_eq!(get_room(&guild(1, vec![]), 10), None);
}

#[test]
fn lookup_does_not_match_text_channels() {
    let serving = guild(1, vec![room(10, 100)]);
    assert_eq!(get_room(&serving, 100), None);
}

#[test]
fn lookup_takes_the_first_match() {
    let serving = guild(1, vec![room(10, 100), room(10, 300)]);
    assert_eq!(get_room(&serving, 10), Some(room(10, 100)));
}

#[test]
fn review_state_without_channel_finds_nothing() {
    let serving = guild(1, vec![room(10, 100)]);
    assert_eq!(review_state(&serving, None), None);
}

#[test]
fn review_state_with_linked_channel_finds_room() {
    let serving = guild(1, vec![room(10, 100)]);
    assert_eq!(review_state(&serving, Some(10)), Some(room(10, 100)));
    assert_eq!(review_state(&serving, Some(11)), None);
}

#[test]
fn new_serving_has_no_rooms() {
    let serving = Serving::new(42);
    assert_eq!(serving.guild_id, 42);
    assert!(serving.rooms.is_empty());
}

#[test]
fn link_appends_a_room() {
    let mut serving = guild(1, vec![room(10, 100)]);
    assert_eq!(serving.link(20, 200), Ok(()));
    assert_eq!(serving.rooms, vec![room(10, 100), room(20, 200)]);
    assert_eq!(serving.guild_id, 1);
}

#[test]
fn link_refuses_a_linked_voice_channel() {
    let mut serving = guild(1, vec![room(10, 100)]);
    assert_eq!(serving.link(10, 200), Err(LinkError::VoiceLinked));
    assert_eq!(serving.rooms, vec![room(10, 100)]);
}

#[test]
fn link_refuses_a_linked_text_channel() {
    let mut serving = guild(1, vec![room(10, 100)]);
    assert_eq!(serving.link(20, 100), Err(LinkError::TextLinked));
    assert_eq!(serving.rooms, vec![room(10, 100)]);
}

#[test]
fn link_error_is_decided_by_the_first_conflicting_room() {
    let mut serving = guild(1, vec![room(10, 100), room(20, 200)]);
    assert_eq!(serving.link(20, 100), Err(LinkError::TextLinked));
    assert_eq!(serving.link(10, 200), Err(LinkError::VoiceLinked));
    assert_eq!(serving.link(10, 100), Err(LinkError::VoiceLinked));
}

#[test]
fn conflict_reports_without_changing() {
    let serving = guild(1, vec![room(10, 100)]);
    assert_eq!(serving.conflict(10, 5), Some(LinkError::VoiceLinked));
    assert_eq!(serving.conflict(5, 100), Some(LinkError::TextLinked));
    assert_eq!(serving.conflict(5, 6), None);
}

#[test]
fn unlink_removes_the_room_of_the_text_channel() {
    let mut serving = guild(1, vec![room(10, 100), room(20, 200), room(30, 300)]);
    assert!(serving.unlink(200));
    assert_eq!(serving.rooms, vec![room(10, 100), room(30, 300)]);
}

#[test]
fn unlink_of_unknown_text_channel_changes_nothing() {
    let mut serving = guild(1, vec![room(10, 100)]);
    assert!(!serving.unlink(10));
    assert!(!serving.unlink(999));
    assert_eq!(serving.rooms, vec![room(10, 100)]);
}

#[test]
fn has_text_finds_text_channels_only() {
    let serving = guild(1, vec![room(10, 100)]);
    assert!(serving.has_text(100));
    assert!(!serving.has_text(10));
}

#[test]
fn serving_clone_keeps_guild_and_rooms() {
    let serving = guild(3, vec![room(10, 100), room(20, 200)]);
    let copy = serving.clone();
    assert_eq!(copy.guild_id, 3);
    assert_eq!(copy.rooms, serving.rooms);
}

#[test]
fn retrieved_config_is_kept() {
    let (config, created) = Config::new(Some(config_with(vec![guild(1, vec![room(10, 100)])])));
    assert!(!created);
    assert_eq!(config.token, "secret");
    assert_eq!(config.prefix, "!");
    assert_eq!(config.serving.len(), 1);
    assert_eq!(config.serving[&1].rooms, vec![room(10, 100)]);
}

#[test]
fn missing_config_gives_a_blank_one() {
    let (config, created) = Config::new(None);
    assert!(created);
    assert_eq!(config.token, "");
    assert_eq!(config.prefix, "!");
    assert!(config.serving.is_empty());
    assert!(!config.has_token());
}

#[test]
fn filled_in_token_is_noticed() {
    assert!(config_with(vec![]).has_token());
}

#[test]
fn config_clone_keeps_everything() {
    let config = config_with(vec![guild(1, vec![room(10, 100)])]);
    let copy = config.clone();
    assert_eq!(copy.token, config.token);
    assert_eq!(copy.prefix, config.prefix);
    assert_eq!(copy.serving[&1].rooms, vec![room(10, 100)]);
}

#[test]
fn serving_of_unknown_guild_is_none() {
    let config = config_with(vec![guild(1, vec![])]);
    assert!(config.get_serving(Some(2)).is_none());
    assert!(config.get_serving(None).is_none());
    assert_eq!(config.get_serving(Some(1)).map(|serving| serving.guild_id), Some(1));
}

#[test]
fn config_link_files_a_new_guild() {
    let mut config = config_with(vec![]);
    assert_eq!(config.link(7, 10, 100), Ok(()));
    assert_eq!(config.serving[&7].guild_id, 7);
    assert_eq!(config.serving[&7].rooms, vec![room(10, 100)]);
}

#[test]
fn config_link_extends_a_served_guild() {
    let mut config =
        config_with(vec![guild(7, vec![room(10, 100)]), guild(8, vec![room(10, 100)])]);
    assert_eq!(config.link(7, 20, 200), Ok(()));
    assert_eq!(config.serving[&7].rooms, vec![room(10, 100), room(20, 200)]);
    assert_eq!(config.serving[&8].rooms, vec![room(10, 100)]);
}

#[test]
fn config_link_refuses_conflicts_within_the_guild_only() {
    let mut config = config_with(vec![guild(7, vec![room(10, 100)]), guild(8, vec![])]);
    assert_eq!(config.link(7, 10, 200), Err(LinkError::VoiceLinked));
    assert_eq!(config.link(7, 20, 100), Err(LinkError::TextLinked));
    assert_eq!(config.serving[&7].rooms, vec![room(10, 100)]);
    assert_eq!(config.link(8, 10, 100), Ok(()));
}

#[test]
fn config_unlink_removes_one_room() {
    let mut config = config_with(vec![guild(7, vec![room(10, 100), room(20, 200)])]);
    assert!(config.unlink(7, 100));
    assert_eq!(config.serving[&7].rooms, vec![room(20, 200)]);
    assert!(!config.unlink(7, 100));
    assert!(!config.unlink(9, 200));
    assert_eq!(config.serving[&7].rooms, vec![room(20, 200)]);
    assert_eq!(config.serving.len(), 1);
}
