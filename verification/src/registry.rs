//! The room registry: which voice channel is linked to which text channel,
//! guild by guild.
use std::collections::BTreeMap;
use vstd::prelude::*;

verus! {

broadcast use vstd::std_specs::btree::group_btree_axioms;

/// A link between one voice channel and one text channel.
#[derive(Clone, Copy, Debug, PartialEq, Eq, Structural)]
pub struct Room {
    pub voice_id: u64,
    pub text_id: u64,
}

/// Why two channels could not be linked.
#[derive(Clone, Copy, Debug, PartialEq, Eq, Structural)]
pub enum LinkError {
    /// The voice channel is part of a room already.
    VoiceLinked,
    /// The text channel is part of a room already.
    TextLinked,
}

/// A guild that is being served, with its rooms in the order in which they
/// were linked.
#[derive(Debug)]
pub struct Serving {
    pub guild_id: u64,
    pub rooms: Vec<Room>,
}

/// The whole configuration: credentials, command prefix, and the rooms of
/// every guild, keyed by guild id.
#[derive(Debug)]
pub struct Config {
    pub token: String,
    pub prefix: String,
    pub serving: BTreeMap<u64, Serving>,
}

/// Some room has `voice_id` as its voice channel.
pub open spec fn holds_voice(rooms: Seq<Room>, voice_id: u64) -> bool {
    exists|i: int| 0 <= i < rooms.len() && (#[trigger] rooms[i]).voice_id == voice_id
}

/// Some room has `text_id` as its text channel.
pub open spec fn holds_text(rooms: Seq<Room>, text_id: u64) -> bool {
    exists|i: int| 0 <= i < rooms.len() && (#[trigger] rooms[i]).text_id == text_id
}

/// No channel takes part in more than one room.
pub open spec fn rooms_distinct(rooms: Seq<Room>) -> bool {
    forall|i: int, j: int|
        #![trigger rooms[i], rooms[j]]
        0 <= i < rooms.len() && 0 <= j < rooms.len() && i != j ==> {
            &&& rooms[i].voice_id != rooms[j].voice_id
            &&& rooms[i].text_id != rooms[j].text_id
        }
}

/// The first room, in registry order, whose voice channel is `voice_id`.
pub open spec fn room_for(rooms: Seq<Room>, voice_id: u64) -> Option<Room>
    decreases rooms.len(),
{
    if rooms.len() == 0 {
        None
    } else if rooms[0].voice_id == voice_id {
        Some(rooms[0])
    } else {
        room_for(rooms.drop_first(), voice_id)
    }
}

/// The room that a member's channel belongs to, if the member is in a channel
/// and that channel is linked.
pub open spec fn channel_room(rooms: Seq<Room>, channel_id: Option<u64>) -> Option<Room> {
    match channel_id {
        Some(id) => room_for(rooms, id),
        None => None,
    }
}

/// What stands in the way of linking `voice_id` with `text_id`: the conflict
/// with the first room, in registry order, that holds either channel.
pub open spec fn link_conflict(rooms: Seq<Room>, voice_id: u64, text_id: u64) -> Option<LinkError>
    decreases rooms.len(),
{
    if rooms.len() == 0 {
        None
    } else if rooms[0].voice_id == voice_id {
        Some(LinkError::VoiceLinked)
    } else if rooms[0].text_id == text_id {
        Some(LinkError::TextLinked)
    } else {
        link_conflict(rooms.drop_first(), voice_id, text_id)
    }
}

/// Where the first room with text channel `text_id` stands; the number of
/// rooms where there is none.
pub open spec fn text_position(rooms: Seq<Room>, text_id: u64) -> int
    decreases rooms.len(),
{
    if rooms.len() == 0 || rooms[0].text_id == text_id {
        0
    } else {
        1 + text_position(rooms.drop_first(), text_id)
    }
}

/// The rooms once the first room with text channel `text_id` is taken out,
/// unchanged where there is none.
pub open spec fn without_text(rooms: Seq<Room>, text_id: u64) -> Seq<Room> {
    if holds_text(rooms, text_id) {
        rooms.remove(text_position(rooms, text_id))
    } else {
        rooms
    }
}

/// The rooms that the registry holds for a guild: none for a guild that is
/// not served.
pub open spec fn guild_rooms(serving: Map<u64, Serving>, guild_id: u64) -> Seq<Room> {
    if serving.contains_key(guild_id) {
        serving[guild_id].rooms@
    } else {
        Seq::empty()
    }
}

/// The guild id that the entry filed under `guild_id` carries: its own where
/// there is such an entry, `guild_id` for one that is yet to be made.
pub open spec fn guild_id_on_file(serving: Map<u64, Serving>, guild_id: u64) -> u64 {
    if serving.contains_key(guild_id) {
        serving[guild_id].guild_id
    } else {
        guild_id
    }
}

/// A lookup finds nothing exactly when no room has the voice channel, and
/// what it finds is a room of the registry with that voice channel.
pub proof fn lemma_room_for(rooms: Seq<Room>, voice_id: u64)
    ensures
        room_for(rooms, voice_id) is None <==> !holds_voice(rooms, voice_id),
        room_for(rooms, voice_id) matches Some(room) ==> room.voice_id == voice_id
            && rooms.contains(room),
    decreases rooms.len(),
{
    if rooms.len() > 0 {
        let rest = rooms.drop_first();
        lemma_room_for(rest, voice_id);
        if rooms[0].voice_id != voice_id {
            if holds_voice(rooms, voice_id) {
                let i = choose|i: int|
                    0 <= i < rooms.len() && (#[trigger] rooms[i]).voice_id == voice_id;
                assert(rest[i - 1] == rooms[i]);
            }
            if holds_voice(rest, voice_id) {
                let i = choose|i: int|
                    0 <= i < rest.len() && (#[trigger] rest[i]).voice_id == voice_id;
                assert(rooms[i + 1] == rest[i]);
            }
            if room_for(rest, voice_id) is Some {
                let room = room_for(rest, voice_id)->0;
                let i = choose|i: int| 0 <= i < rest.len() && rest[i] == room;
                assert(rooms[i + 1] == room);
            }
        } else {
            assert(rooms[0].voice_id == voice_id);
        }
    }
}

/// In a registry that shares no channel between rooms, a lookup finds the one
/// room that has the voice channel.
pub proof fn linked_channel_has_one_room(rooms: Seq<Room>, voice_id: u64, index: int)
    requires
        rooms_distinct(rooms),
        0 <= index < rooms.len(),
        rooms[index].voice_id == voice_id,
    ensures
        room_for(rooms, voice_id) == Some(rooms[index]),
        forall|j: int|
            0 <= j < rooms.len() && (#[trigger] rooms[j]).voice_id == voice_id ==> j == index,
{
    lemma_room_for(rooms, voice_id);
    let found = room_for(rooms, voice_id)->0;
    let i = choose|i: int| 0 <= i < rooms.len() && rooms[i] == found;
    assert(rooms[i].voice_id == rooms[index].voice_id);
}

/// Nothing stands in the way of a link exactly when no room holds either
/// channel.
pub proof fn lemma_link_conflict(rooms: Seq<Room>, voice_id: u64, text_id: u64)
    ensures
        link_conflict(rooms, voice_id, text_id) is None <==> !holds_voice(rooms, voice_id)
            && !holds_text(rooms, text_id),
    decreases rooms.len(),
{
    if rooms.len() > 0 {
        let rest = rooms.drop_first();
        lemma_link_conflict(rest, voice_id, text_id);
        if rooms[0].voice_id != voice_id && rooms[0].text_id != text_id {
            if holds_voice(rooms, voice_id) {
                let i = choose|i: int|
                    0 <= i < rooms.len() && (#[trigger] rooms[i]).voice_id == voice_id;
                assert(rest[i - 1] == rooms[i]);
            }
            if holds_text(rooms, text_id) {
                let i = choose|i: int|
                    0 <= i < rooms.len() && (#[trigger] rooms[i]).text_id == text_id;
                assert(rest[i - 1] == rooms[i]);
            }
            if holds_voice(rest, voice_id) {
                let i = choose|i: int|
                    0 <= i < rest.len() && (#[trigger] rest[i]).voice_id == voice_id;
                assert(rooms[i + 1] == rest[i]);
            }
            if holds_text(rest, text_id) {
                let i = choose|i: int|
                    0 <= i < rest.len() && (#[trigger] rest[i]).text_id == text_id;
                assert(rooms[i + 1] == rest[i]);
            }
        } else {
            assert(rooms[0].voice_id == voice_id || rooms[0].text_id == text_id);
        }
    }
}

/// A registry stays free of shared channels when it grows by a room whose
/// channels no room held.
pub proof fn lemma_distinct_after_push(rooms: Seq<Room>, room: Room)
    requires
        rooms_distinct(rooms),
        !holds_voice(rooms, room.voice_id),
        !holds_text(rooms, room.text_id),
    ensures
        rooms_distinct(rooms.push(room)),
{
    let after = rooms.push(room);
    assert forall|a: int, b: int|
        #![trigger after[a], after[b]]
        0 <= a < after.len() && 0 <= b < after.len() && a != b implies after[a].voice_id
        != after[b].voice_id && after[a].text_id != after[b].text_id by {
        if a < rooms.len() {
            assert(after[a] == rooms[a]);
        }
        if b < rooms.len() {
            assert(after[b] == rooms[b]);
        }
    }
}

/// A registry stays free of shared channels when a room leaves it, and the
/// text channel of that room is then held by no room.
pub proof fn lemma_distinct_after_remove(rooms: Seq<Room>, index: int)
    requires
        rooms_distinct(rooms),
        0 <= index < rooms.len(),
    ensures
        rooms_distinct(rooms.remove(index)),
        !holds_text(rooms.remove(index), rooms[index].text_id),
        !holds_voice(rooms.remove(index), rooms[index].voice_id),
{
    let after = rooms.remove(index);
    assert forall|a: int| 0 <= a < after.len() implies #[trigger] after[a] == rooms[if a < index {
        a
    } else {
        a + 1
    }] by {}
    assert forall|a: int, b: int|
        #![trigger after[a], after[b]]
        0 <= a < after.len() && 0 <= b < after.len() && a != b implies after[a].voice_id
        != after[b].voice_id && after[a].text_id != after[b].text_id by {
        let from_a = if a < index { a } else { a + 1 };
        let from_b = if b < index { b } else { b + 1 };
        assert(after[a] == rooms[from_a] && after[b] == rooms[from_b]);
    }
    assert forall|a: int| 0 <= a < after.len() implies (#[trigger] after[a]).text_id
        != rooms[index].text_id && after[a].voice_id != rooms[index].voice_id by {
        let from_a = if a < index { a } else { a + 1 };
        assert(after[a] == rooms[from_a]);
        assert(rooms[from_a].text_id != rooms[index].text_id);
    }
}

/// Finds the room of a guild whose voice channel is `id`: the first in
/// registry order, or `None` where the channel is not linked.
pub fn get_room(serving: &Serving, id: u64) -> (found: Option<Room>)
    ensures
        found == room_for(serving.rooms@, id),
        found is None <==> !holds_voice(serving.rooms@, id),
        found matches Some(room) ==> room.voice_id == id && serving.rooms@.contains(room),
{
    proof {
        lemma_room_for(serving.rooms@, id);
        assert(serving.rooms@.skip(0) == serving.rooms@);
    }
    let mut i: usize = 0;
    while i < serving.rooms.len()
        invariant
            i <= serving.rooms.len(),
            room_for(serving.rooms@, id) == room_for(serving.rooms@.skip(i as int), id),
        decreases serving.rooms.len() - i,
    {
        let ghost rest = serving.rooms@.skip(i as int);
        assert(rest[0] == serving.rooms[i as int]);
        if serving.rooms[i].voice_id == id {
            return Some(serving.rooms[i]);
        }
        assert(rest.drop_first() == serving.rooms@.skip(i + 1));
        i += 1;
    }
    None
}

/// Picks the room to synchronise for a member's voice state: the room of the
/// channel that the state names, if it names one and that channel is linked.
pub fn review_state(serving: &Serving, channel_id: Option<u64>) -> (room: Option<Room>)
    ensures
        room == channel_room(serving.rooms@, channel_id),
{
    match channel_id {
        Some(id) => get_room(serving, id),
        None => None,
    }
}

impl Clone for Serving {
    fn clone(&self) -> (copy: Self)
        ensures
            copy.guild_id == self.guild_id,
            copy.rooms@ == self.rooms@,
    {
        Serving { guild_id: self.guild_id, rooms: self.rooms.clone() }
    }
}

impl Serving {
    /// The registry invariant: no channel takes part in more than one room.
    pub open spec fn well_formed(&self) -> bool {
        rooms_distinct(self.rooms@)
    }

    /// A guild without rooms.
    pub fn new(guild_id: u64) -> (serving: Serving)
        ensures
            serving.guild_id == guild_id,
            serving.rooms@ == Seq::<Room>::empty(),
            serving.well_formed(),
    {
        Serving { guild_id, rooms: Vec::new() }
    }

    /// What stands in the way of linking `voice_id` with `text_id`, if
    /// anything: the first room that holds either channel decides.
    pub fn conflict(&self, voice_id: u64, text_id: u64) -> (found: Option<LinkError>)
        ensures
            found == link_conflict(self.rooms@, voice_id, text_id),
            found is None <==> !holds_voice(self.rooms@, voice_id) && !holds_text(
                self.rooms@,
                text_id,
            ),
    {
        proof {
            lemma_link_conflict(self.rooms@, voice_id, text_id);
            assert(self.rooms@.skip(0) == self.rooms@);
        }
        let mut i: usize = 0;
        while i < self.rooms.len()
            invariant
                i <= self.rooms.len(),
                link_conflict(self.rooms@, voice_id, text_id) == link_conflict(
                    self.rooms@.skip(i as int),
                    voice_id,
                    text_id,
                ),
            decreases self.rooms.len() - i,
        {
            let ghost rest = self.rooms@.skip(i as int);
            assert(rest[0] == self.rooms[i as int]);
            if self.rooms[i].voice_id == voice_id {
                return Some(LinkError::VoiceLinked);
            }
            if self.rooms[i].text_id == text_id {
                return Some(LinkError::TextLinked);
            }
            assert(rest.drop_first() == self.rooms@.skip(i + 1));
            i += 1;
        }
        None
    }

    /// Links a voice channel and a text channel into a new room, appended to
    /// the guild's rooms. Refused, with the guild left as it was, where a room
    /// holds either channel already; the first such room decides the error.
    pub fn link(&mut self, voice_id: u64, text_id: u64) -> (result: Result<(), LinkError>)
        ensures
            final(self).guild_id == old(self).guild_id,
            match result {
                Ok(()) => {
                    &&& link_conflict(old(self).rooms@, voice_id, text_id) is None
                    &&& final(self).rooms@ == old(self).rooms@.push(Room { voice_id, text_id })
                },
                Err(error) => {
                    &&& link_conflict(old(self).rooms@, voice_id, text_id) == Some(error)
                    &&& *final(self) == *old(self)
                },
            },
            result is Ok <==> !holds_voice(old(self).rooms@, voice_id) && !holds_text(
                old(self).rooms@,
                text_id,
            ),
            old(self).well_formed() ==> final(self).well_formed(),
    {
        match self.conflict(voice_id, text_id) {
            Some(error) => Err(error),
            None => {
                self.rooms.push(Room { voice_id, text_id });
                proof {
                    if old(self).well_formed() {
                        lemma_distinct_after_push(old(self).rooms@, Room { voice_id, text_id });
                    }
                }
                Ok(())
            },
        }
    }

    /// Whether some room has `text_id` as its text channel.
    pub fn has_text(&self, text_id: u64) -> (found: bool)
        ensures
            found == holds_text(self.rooms@, text_id),
    {
        let mut i: usize = 0;
        while i < self.rooms.len()
            invariant
                i <= self.rooms.len(),
                !holds_text(self.rooms@.take(i as int), text_id),
            decreases self.rooms.len() - i,
        {
            if self.rooms[i].text_id == text_id {
                return true;
            }
            proof {
                let seen = self.rooms@.take(i + 1);
                assert forall|j: int| 0 <= j < seen.len() implies (#[trigger] seen[j]).text_id
                    != text_id by {
                    if j < i {
                        assert(self.rooms@.take(i as int)[j] == seen[j]);
                    }
                }
            }
            i += 1;
        }
        proof {
            assert(self.rooms@.take(i as int) == self.rooms@);
        }
        false
    }

    /// Removes the room whose text channel is `text_id`: the first in
    /// registry order. Says whether there was one; without one the guild is
    /// left as it was.
    pub fn unlink(&mut self, text_id: u64) -> (removed: bool)
        ensures
            final(self).guild_id == old(self).guild_id,
            removed == holds_text(old(self).rooms@, text_id),
            final(self).rooms@ == without_text(old(self).rooms@, text_id),
            !removed ==> *final(self) == *old(self),
            old(self).well_formed() ==> final(self).well_formed() && !holds_text(
                final(self).rooms@,
                text_id,
            ),
    {
        proof {
            assert(self.rooms@.skip(0) == self.rooms@);
        }
        let mut i: usize = 0;
        while i < self.rooms.len()
            invariant
                i <= self.rooms.len(),
                *self == *old(self),
                !holds_text(self.rooms@.take(i as int), text_id),
                text_position(self.rooms@, text_id) == i + text_position(
                    self.rooms@.skip(i as int),
                    text_id,
                ),
            decreases self.rooms.len() - i,
        {
            let ghost rest = self.rooms@.skip(i as int);
            assert(rest[0] == self.rooms[i as int]);
            if self.rooms[i].text_id == text_id {
                self.rooms.remove(i);
                proof {
                    if old(self).well_formed() {
                        lemma_distinct_after_remove(old(self).rooms@, i as int);
                    }
                }
                return true;
            }
            proof {
                assert(rest.drop_first() == self.rooms@.skip(i + 1));
                let seen = self.rooms@.take(i + 1);
                assert forall|j: int| 0 <= j < seen.len() implies (#[trigger] seen[j]).text_id
                    != text_id by {
                    if j < i {
                        assert(self.rooms@.take(i as int)[j] == seen[j]);
                    }
                }
            }
            i += 1;
        }
        proof {
            assert(self.rooms@.take(i as int) == self.rooms@);
        }
        false
    }
}

impl Clone for Config {
    fn clone(&self) -> (copy: Self)
        ensures
            copy.token@ == self.token@,
            copy.prefix@ == self.prefix@,
            copy.serving@ == self.serving@,
    {
        Config {
            token: self.token.clone(),
            prefix: self.prefix.clone(),
            serving: self.serving.clone(),
        }
    }
}

impl Config {
    /// Every guild is filed under its own id and shares no channel between
    /// two of its rooms.
    pub open spec fn well_formed(&self) -> bool {
        forall|guild_id: u64| #[trigger]
            self.serving@.contains_key(guild_id) ==> self.serving@[guild_id].guild_id == guild_id
                && self.serving@[guild_id].well_formed()
    }

    /// A configuration that nobody filled out yet: no token, the prefix `!`,
    /// no guild.
    pub open spec fn is_blank(&self) -> bool {
        &&& self.token@ == Seq::<char>::empty()
        &&& self.prefix@ == seq!['!']
        &&& self.serving@ == Map::<u64, Serving>::empty()
    }

    /// Settles on the configuration to run with: the one that was retrieved,
    /// or a blank one where nothing could be retrieved. The flag says that a
    /// blank one was made, which the caller then has to store.
    pub fn new(retrieved: Option<Config>) -> (made: (Config, bool))
        ensures
            match retrieved {
                Some(config) => made.0 == config && !made.1,
                None => made.0.is_blank() && made.0.well_formed() && made.1,
            },
    {
        match retrieved {
            Some(config) => (config, false),
            None => {
                let prefix = "!".to_string();
                proof {
                    reveal_strlit("!");
                    assert(prefix@ =~= seq!['!']);
                }
                (Config { token: String::new(), prefix, serving: BTreeMap::new() }, true)
            },
        }
    }

    /// Whether a token was filled in: without one there is nothing to log in
    /// with.
    pub fn has_token(&self) -> (filled: bool)
        ensures
            filled == (self.token@.len() > 0),
    {
        !self.token.as_str().is_empty()
    }

    /// The guild's entry, where the event names a guild and that guild is
    /// served.
    pub fn get_serving(&self, guild_id: Option<u64>) -> (found: Option<&Serving>)
        ensures
            match guild_id {
                Some(id) => match found {
                    Some(serving) => self.serving@.contains_key(id) && *serving
                        == self.serving@[id],
                    None => !self.serving@.contains_key(id),
                },
                None => found is None,
            },
    {
        match guild_id {
            Some(id) => self.serving.get(&id),
            None => None,
        }
    }

    /// Links two channels of a guild into a room, filing the guild first
    /// where it is not served yet. Refused, with nothing changed, where a
    /// room of the guild holds either channel already.
    pub fn link(&mut self, guild_id: u64, voice_id: u64, text_id: u64) -> (result: Result<
        (),
        LinkError,
    >)
        ensures
            final(self).token == old(self).token,
            final(self).prefix == old(self).prefix,
            match result {
                Ok(()) => {
                    &&& link_conflict(guild_rooms(old(self).serving@, guild_id), voice_id, text_id)
                        is None
                    &&& final(self).serving@.dom() == old(self).serving@.dom().insert(guild_id)
                    &&& guild_rooms(final(self).serving@, guild_id) == guild_rooms(
                        old(self).serving@,
                        guild_id,
                    ).push(Room { voice_id, text_id })
                    &&& final(self).serving@[guild_id].guild_id == guild_id_on_file(
                        old(self).serving@,
                        guild_id,
                    )
                    &&& forall|other: u64|
                        other != guild_id && #[trigger] old(self).serving@.contains_key(other)
                            ==> final(self).serving@[other] == old(self).serving@[other]
                },
                Err(error) => {
                    &&& link_conflict(guild_rooms(old(self).serving@, guild_id), voice_id, text_id)
                        == Some(error)
                    &&& final(self).serving@ == old(self).serving@
                },
            },
            old(self).well_formed() ==> final(self).well_formed(),
    {
        let conflict = match self.serving.get(&guild_id) {
            Some(serving) => serving.conflict(voice_id, text_id),
            None => None,
        };
        match conflict {
            Some(error) => Err(error),
            None => {
                let mut serving = match self.serving.remove(&guild_id) {
                    Some(serving) => serving,
                    None => Serving::new(guild_id),
                };
                let ghost was_well_formed = old(self).well_formed();
                assert(serving.rooms@ == guild_rooms(old(self).serving@, guild_id));
                assert(was_well_formed ==> serving.well_formed() && serving.guild_id == guild_id);
                let linked = serving.link(voice_id, text_id);
                assert(linked is Ok);
                self.serving.insert(guild_id, serving);
                assert(self.serving@.dom() =~= old(self).serving@.dom().insert(guild_id));
                Ok(())
            },
        }
    }

    /// Removes the room of a guild whose text channel is `text_id`. Says
    /// whether there was one; without one nothing changes.
    pub fn unlink(&mut self, guild_id: u64, text_id: u64) -> (removed: bool)
        ensures
            final(self).token == old(self).token,
            final(self).prefix == old(self).prefix,
            removed == holds_text(guild_rooms(old(self).serving@, guild_id), text_id),
            removed ==> {
                &&& final(self).serving@.dom() == old(self).serving@.dom()
                &&& final(self).serving@[guild_id].guild_id == old(self).serving@[guild_id].guild_id
                &&& guild_rooms(final(self).serving@, guild_id) == without_text(
                    guild_rooms(old(self).serving@, guild_id),
                    text_id,
                )
                &&& forall|other: u64|
                    other != guild_id && #[trigger] old(self).serving@.contains_key(other)
                        ==> final(self).serving@[other] == old(self).serving@[other]
            },
            !removed ==> final(self).serving@ == old(self).serving@,
            old(self).well_formed() ==> final(self).well_formed(),
    {
        let held = match self.serving.get(&guild_id) {
            Some(serving) => serving.has_text(text_id),
            None => false,
        };
        if !held {
            return false;
        }
        match self.serving.remove(&guild_id) {
            Some(mut serving) => {
                let ghost was_well_formed = old(self).well_formed();
                assert(serving.rooms@ == guild_rooms(old(self).serving@, guild_id));
                assert(was_well_formed ==> serving.well_formed() && serving.guild_id == guild_id);
                let removed = serving.unlink(text_id);
                self.serving.insert(guild_id, serving);
                assert(self.serving@.dom() =~= old(self).serving@.dom());
                removed
            },
            None => false,
        }
    }
}

} // verus!
