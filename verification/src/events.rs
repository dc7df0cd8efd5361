//! From a presence change to the rooms that have to be synchronised, and
//! from channel lookups to the pair of channels that a room stands for.
use crate::filter::{review_needed, should_review};
use crate::registry::{channel_room, guild_rooms, review_state, Config, Room, Serving};
use vstd::prelude::*;

verus! {

/// A member's voice state changed: the guild it happened in, the member, and
/// the voice channel before and after, each where there is one.
#[derive(Clone, Copy, Debug, PartialEq, Eq, Structural)]
pub struct PresenceEvent {
    pub guild_id: Option<u64>,
    pub user_id: u64,
    pub previous_channel: Option<u64>,
    pub new_channel: Option<u64>,
}

/// The rooms to synchronise after a presence change: that of the channel the
/// member left and that of the channel the member joined.
#[derive(Clone, Copy, Debug, PartialEq, Eq, Structural)]
pub struct ReviewPlan {
    pub left: Option<Room>,
    pub joined: Option<Room>,
}

/// What a channel is used for.
#[derive(Clone, Copy, Debug, PartialEq, Eq, Structural)]
pub enum ChannelKind {
    Text,
    Voice,
    Other,
}

/// What a lookup of a channel id brought back: the channel's id, the guild
/// it belongs to (none for a private channel), and its kind.
#[derive(Clone, Copy, Debug, PartialEq, Eq, Structural)]
pub struct Channel {
    pub id: u64,
    pub guild_id: Option<u64>,
    pub kind: ChannelKind,
}

/// The plan for an event: nothing where the transition needs no review or
/// the guild is not served, else the rooms of the two channels.
pub open spec fn planned_review(serving: Map<u64, Serving>, event: PresenceEvent) -> ReviewPlan {
    if review_needed(event.previous_channel, event.new_channel) && event.guild_id is Some
        && serving.contains_key(event.guild_id->0) {
        let rooms = guild_rooms(serving, event.guild_id->0);
        ReviewPlan {
            left: channel_room(rooms, event.previous_channel),
            joined: channel_room(rooms, event.new_channel),
        }
    } else {
        ReviewPlan { left: None, joined: None }
    }
}

/// A lookup is usable for a room: it found a channel, in the given guild, of
/// the given kind.
pub open spec fn resolves_as(lookup: Option<Channel>, guild_id: u64, kind: ChannelKind) -> bool {
    lookup matches Some(channel) && channel.guild_id == Some(guild_id) && channel.kind == kind
}

/// Decides which rooms a presence change touches. Nothing is planned for a
/// transition that stays in one channel, for an event outside any guild, or
/// for a guild that is not served; a channel that is not linked contributes
/// no room.
pub fn on_presence_change(config: &Config, event: &PresenceEvent) -> (plan: ReviewPlan)
    ensures
        plan == planned_review(config.serving@, *event),
{
    if !should_review(event.previous_channel, event.new_channel) {
        return ReviewPlan { left: None, joined: None };
    }
    match config.get_serving(event.guild_id) {
        Some(serving) => ReviewPlan {
            left: review_state(serving, event.previous_channel),
            joined: review_state(serving, event.new_channel),
        },
        None => ReviewPlan { left: None, joined: None },
    }
}

/// Checks one channel lookup: the channel, where it was found, lies in the
/// guild and is of the kind asked for.
pub fn resolve_channel(lookup: Option<Channel>, guild_id: u64, kind: ChannelKind) -> (resolved:
    Option<Channel>)
    ensures
        resolved == if resolves_as(lookup, guild_id, kind) {
            lookup
        } else {
            None
        },
{
    match lookup {
        Some(channel) => {
            let in_guild = match channel.guild_id {
                Some(id) => id == guild_id,
                None => false,
            };
            if in_guild && channel.kind == kind {
                Some(channel)
            } else {
                None
            }
        },
        None => None,
    }
}

/// Resolves a room from the lookups of its two channel ids: the voice
/// channel and the text channel, or `None` as soon as one of them was not
/// found, lies outside the guild, or is of the wrong kind.
pub fn get_channels(guild_id: u64, voice: Option<Channel>, text: Option<Channel>) -> (channels:
    Option<(Channel, Channel)>)
    ensures
        channels is Some <==> resolves_as(voice, guild_id, ChannelKind::Voice) && resolves_as(
            text,
            guild_id,
            ChannelKind::Text,
        ),
        channels matches Some(pair) ==> voice == Some(pair.0) && text == Some(pair.1),
{
    match resolve_channel(voice, guild_id, ChannelKind::Voice) {
        Some(voice_channel) => match resolve_channel(text, guild_id, ChannelKind::Text) {
            Some(text_channel) => Some((voice_channel, text_channel)),
            None => None,
        },
        None => None,
    }
}

} // verus!
