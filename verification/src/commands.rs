//! The decisions behind the administrative commands: who may run them, which
//! channels their arguments name, and how a run is answered.
use crate::access::{check_perms, may_administer};
use vstd::prelude::*;
use vstd::string::StrSliceExecFns;

verus! {

/// A channel as a command argument names it.
#[derive(Clone, Copy, Debug, PartialEq, Eq, Structural)]
pub enum ChannelRef {
    /// A bare channel id, as voice channels are given.
    Id(u64),
    /// A channel mention of the form `<#id>`, as text channels are given.
    Mention(u64),
}

/// Why a command was not authorised.
#[derive(Clone, Copy, Debug, PartialEq, Eq, Structural)]
pub enum AuthFailure {
    NotInGuild,
    GuildNotCached,
    MissingPermissions,
}

/// The permission bits of a command's author: guild-wide, and in the channel
/// in which the command was sent.
#[derive(Clone, Copy, Debug, PartialEq, Eq, Structural)]
pub struct AuthorPermissions {
    pub in_guild: u64,
    pub in_channel: u64,
}

/// The reaction that answers a command.
#[derive(Clone, Copy, Debug, PartialEq, Eq, Structural)]
pub enum Feedback {
    Good,
    Bad,
    Warn,
}

/// What `str::parse::<u64>` makes of a text: the number it denotes, or
/// `None` where it denotes none that fits.
pub uninterp spec fn parsed_u64(text: Seq<char>) -> Option<u64>;

/// Calls `str::parse::<u64>` and drops the error's detail. The result
/// depends on the text alone; the contract gives it the name `parsed_u64`
/// and says nothing more of it.
#[verifier::external_body]
fn parse_u64(text: &str) -> (number: Option<u64>)
    ensures
        number == parsed_u64(text@),
{
    text.parse::<u64>().ok()
}

/// What stands between `<#` and the last character of a mention. A text is
/// taken for a mention where it begins with `<#`, has a third character, and
/// ends in a character of one byte, which is then cut off.
pub open spec fn mention_digits(text: Seq<char>) -> Option<Seq<char>> {
    if text.len() >= 3 && text[0] == '<' && text[1] == '#' && (text.last() as u32) < 0x80 {
        Some(text.subrange(2, text.len() - 1))
    } else {
        None
    }
}

/// The channel reference that two parses amount to: a bare id where the
/// whole argument is a number, else a mention where its inner part is one.
pub open spec fn classified(bare: Option<u64>, inner: Option<u64>) -> Option<ChannelRef> {
    match bare {
        Some(id) => Some(ChannelRef::Id(id)),
        None => match inner {
            Some(id) => Some(ChannelRef::Mention(id)),
            None => None,
        },
    }
}

/// The channel that an argument names, if any.
pub open spec fn channel_ref(text: Seq<char>) -> Option<ChannelRef> {
    classified(
        parsed_u64(text),
        match mention_digits(text) {
            Some(digits) => parsed_u64(digits),
            None => None,
        },
    )
}

/// The channel references of a list of arguments, one for one.
pub open spec fn channel_refs(args: Seq<String>) -> Seq<Option<ChannelRef>> {
    Seq::new(args.len(), |i: int| channel_ref(args[i]@))
}

/// The voice channel that the references name: the last bare id, 0 without
/// one.
pub open spec fn chosen_voice(refs: Seq<Option<ChannelRef>>) -> u64
    decreases refs.len(),
{
    if refs.len() == 0 {
        0
    } else {
        match refs.last() {
            Some(ChannelRef::Id(id)) => id,
            _ => chosen_voice(refs.drop_last()),
        }
    }
}

/// The text channel that the references name: the last mention, 0 without
/// one.
pub open spec fn chosen_text(refs: Seq<Option<ChannelRef>>) -> u64
    decreases refs.len(),
{
    if refs.len() == 0 {
        0
    } else {
        match refs.last() {
            Some(ChannelRef::Mention(id)) => id,
            _ => chosen_text(refs.drop_last()),
        }
    }
}

/// The ids that the references name, in order, bare or mentioned alike.
pub open spec fn named_ids(refs: Seq<Option<ChannelRef>>) -> Seq<u64>
    decreases refs.len(),
{
    if refs.len() == 0 {
        Seq::empty()
    } else {
        match refs.last() {
            Some(ChannelRef::Id(id)) => named_ids(refs.drop_last()).push(id),
            Some(ChannelRef::Mention(id)) => named_ids(refs.drop_last()).push(id),
            None => named_ids(refs.drop_last()),
        }
    }
}

/// The verdict on a command: it must come from a guild, the guild must be
/// known, and its author must hold the needed permissions guild-wide or in
/// the channel.
pub open spec fn auth_verdict(guild_id: Option<u64>, permissions: Option<AuthorPermissions>)
    -> Result<(), AuthFailure> {
    match (guild_id, permissions) {
        (None, _) => Err(AuthFailure::NotInGuild),
        (Some(_), None) => Err(AuthFailure::GuildNotCached),
        (Some(_), Some(held)) => if may_administer(held.in_guild) || may_administer(
            held.in_channel,
        ) {
            Ok(())
        } else {
            Err(AuthFailure::MissingPermissions)
        },
    }
}

impl AuthFailure {
    /// The sentence that tells the author why the command was refused.
    pub fn reason(&self) -> (text: String)
        ensures
            text@ == match *self {
                AuthFailure::NotInGuild => "This command needs to be executed in a guild."@,
                AuthFailure::GuildNotCached => "Failed to fetch this guild in cache."@,
                AuthFailure::MissingPermissions =>
                    "You miss the required permissions to run this command."@,
            },
    {
        match self {
            AuthFailure::NotInGuild => "This command needs to be executed in a guild.".to_string(),
            AuthFailure::GuildNotCached => "Failed to fetch this guild in cache.".to_string(),
            AuthFailure::MissingPermissions =>
                "You miss the required permissions to run this command.".to_string(),
        }
    }
}

/// Decides whether the author of a command may link and unlink rooms.
/// `guild_id` is the guild the command was sent in, `permissions` what the
/// author holds there, known only where the guild is.
pub fn auth(guild_id: Option<u64>, permissions: Option<AuthorPermissions>) -> (verdict: Result<
    (),
    AuthFailure,
>)
    ensures
        verdict == auth_verdict(guild_id, permissions),
{
    if guild_id.is_none() {
        return Err(AuthFailure::NotInGuild);
    }
    match permissions {
        None => Err(AuthFailure::GuildNotCached),
        Some(held) => {
            if check_perms(held.in_guild) {
                Ok(())
            } else if check_perms(held.in_channel) {
                Ok(())
            } else {
                Err(AuthFailure::MissingPermissions)
            }
        },
    }
}

/// Cuts the inner part out of a channel mention.
pub fn mention_body(arg: &str) -> (body: Option<&str>)
    ensures
        match body {
            Some(inner) => mention_digits(arg@) == Some(inner@),
            None => mention_digits(arg@) is None,
        },
{
    let count = arg.unicode_len();
    if count < 3 {
        return None;
    }
    if arg.get_char(0) != '<' || arg.get_char(1) != '#' {
        return None;
    }
    let last = arg.get_char(count - 1);
    if (last as u32) < 0x80 {
        Some(arg.substring_char(2, count - 1))
    } else {
        None
    }
}

/// Settles what an argument names from the two ways of reading it: `bare`
/// is the whole argument read as a number, `inner` the inner part of a
/// mention read as a number.
pub fn classify(bare: Option<u64>, inner: Option<u64>) -> (named: Option<ChannelRef>)
    ensures
        named == classified(bare, inner),
{
    match bare {
        Some(id) => Some(ChannelRef::Id(id)),
        None => match inner {
            Some(id) => Some(ChannelRef::Mention(id)),
            None => None,
        },
    }
}

/// Reads one command argument as a channel: a bare id or a mention.
pub fn parse_channel_ref(arg: &str) -> (named: Option<ChannelRef>)
    ensures
        named == channel_ref(arg@),
{
    let bare = parse_u64(arg);
    let inner = match mention_body(arg) {
        Some(body) => parse_u64(body),
        None => None,
    };
    classify(bare, inner)
}

/// Picks the two channels of a room out of channel references: the last
/// bare id as the voice channel, the last mention as the text channel, and
/// 0 for each one that is missing.
pub fn choose_channels(refs: &Vec<Option<ChannelRef>>) -> (ids: (u64, u64))
    ensures
        ids.0 == chosen_voice(refs@),
        ids.1 == chosen_text(refs@),
{
    let mut voice_id: u64 = 0;
    let mut text_id: u64 = 0;
    let mut i: usize = 0;
    while i < refs.len()
        invariant
            i <= refs.len(),
            voice_id == chosen_voice(refs@.take(i as int)),
            text_id == chosen_text(refs@.take(i as int)),
        decreases refs.len() - i,
    {
        proof {
            let next = refs@.take(i + 1);
            assert(next.drop_last() == refs@.take(i as int));
            assert(next.last() == refs[i as int]);
        }
        match refs[i] {
            Some(ChannelRef::Id(id)) => {
                voice_id = id;
            },
            Some(ChannelRef::Mention(id)) => {
                text_id = id;
            },
            None => {},
        }
        i += 1;
    }
    proof {
        assert(refs@.take(i as int) == refs@);
    }
    (voice_id, text_id)
}

/// Collects the ids that channel references name, in order.
pub fn collect_ids(refs: &Vec<Option<ChannelRef>>) -> (ids: Vec<u64>)
    ensures
        ids@ == named_ids(refs@),
{
    let mut ids: Vec<u64> = Vec::new();
    let mut i: usize = 0;
    while i < refs.len()
        invariant
            i <= refs.len(),
            ids@ == named_ids(refs@.take(i as int)),
        decreases refs.len() - i,
    {
        proof {
            let next = refs@.take(i + 1);
            assert(next.drop_last() == refs@.take(i as int));
            assert(next.last() == refs[i as int]);
        }
        match refs[i] {
            Some(ChannelRef::Id(id)) => {
                ids.push(id);
            },
            Some(ChannelRef::Mention(id)) => {
                ids.push(id);
            },
            None => {},
        }
        i += 1;
    }
    proof {
        assert(refs@.take(i as int) == refs@);
    }
    ids
}

/// Reads every argument of a command as a channel reference.
pub fn parse_channel_refs(args: &Vec<String>) -> (refs: Vec<Option<ChannelRef>>)
    ensures
        refs@ == channel_refs(args@),
{
    let mut refs: Vec<Option<ChannelRef>> = Vec::new();
    let mut i: usize = 0;
    while i < args.len()
        invariant
            i <= args.len(),
            refs.len() == i,
            forall|j: int| 0 <= j < i ==> refs[j] == channel_ref(args[j]@),
        decreases args.len() - i,
    {
        let named = parse_channel_ref(args[i].as_str());
        refs.push(named);
        i += 1;
    }
    assert(refs@ =~= channel_refs(args@));
    refs
}

/// Finds the voice channel id and the text channel id that the arguments
/// of a link command name, in that order; 0 stands for one that no argument
/// names.
pub fn parse_channels(args: &Vec<String>) -> (ids: (u64, u64))
    ensures
        ids.0 == chosen_voice(channel_refs(args@)),
        ids.1 == chosen_text(channel_refs(args@)),
{
    let refs = parse_channel_refs(args);
    choose_channels(&refs)
}

/// Finds the ids of all channels that the arguments of an unlink command
/// name, in order.
pub fn unlink_targets(args: &Vec<String>) -> (ids: Vec<u64>)
    ensures
        ids@ == named_ids(channel_refs(args@)),
{
    let refs = parse_channel_refs(args);
    collect_ids(&refs)
}

/// The reaction that answers an unlink command, from how many channels were
/// unlinked and how many could not be found: good where all were unlinked,
/// bad where none was, a warning where both happened, and none where the
/// command named no channel that was either.
pub fn unlink_feedback(unlinked: usize, missing: usize) -> (feedback: Option<Feedback>)
    ensures
        feedback == if unlinked > 0 && missing == 0 {
            Some(Feedback::Good)
        } else if unlinked == 0 && missing > 0 {
            Some(Feedback::Bad)
        } else if unlinked > 0 && missing > 0 {
            Some(Feedback::Warn)
        } else {
            None
        },
{
    if unlinked > 0 && missing == 0 {
        Some(Feedback::Good)
    } else if unlinked == 0 && missing > 0 {
        Some(Feedback::Bad)
    } else if unlinked > 0 && missing > 0 {
        Some(Feedback::Warn)
    } else {
        None
    }
}

} // verus!
