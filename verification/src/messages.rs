//! The texts that answer commands.
use crate::commands::Feedback;
use crate::registry::{LinkError, Room};
use vstd::prelude::*;
use vstd::string::StringExecFns;

verus! {

/// A room as the list command shows it: the room, whether its text channel
/// was found in a guild, and the name of its voice channel where that was
/// found in a guild.
#[derive(Debug)]
pub struct ListedRoom {
    pub room: Room,
    pub text_in_guild: bool,
    pub voice_name: Option<String>,
}

/// The character of a decimal digit.
pub open spec fn digit(value: nat) -> char {
    (('0' as u8) + value) as u8 as char
}

/// A number written in decimal, without sign or leading zeros.
pub open spec fn decimal(number: nat) -> Seq<char>
    decreases number,
{
    if number < 10 {
        seq![digit(number)]
    } else {
        decimal(number / 10).push(digit(number % 10))
    }
}

/// A channel mention: `<#`, the id, `>`.
pub open spec fn mention_text(channel_id: u64) -> Seq<char> {
    "<#"@ + decimal(channel_id as nat) + ">"@
}

/// An answer to a member: a mention of the member, a comma, the body.
pub open spec fn response_text(author_id: u64, body: Seq<char>) -> Seq<char> {
    "<@"@ + decimal(author_id as nat) + ">, "@ + body
}

/// The line of one room in the list: the text channel, as a mention where it
/// was found in a guild and as a bare id else, an arrow, and the voice
/// channel, by name where it was found in a guild and by id else.
pub open spec fn list_item(entry: ListedRoom) -> Seq<char> {
    " - "@ + (if entry.text_in_guild {
        mention_text(entry.room.text_id)
    } else {
        decimal(entry.room.text_id as nat)
    }) + " -> "@ + (match entry.voice_name {
        Some(name) => name@,
        None => decimal(entry.room.voice_id as nat),
    }) + "\n"@
}

/// The list of rooms: a heading, then one line per room.
pub open spec fn list_text(entries: Seq<ListedRoom>) -> Seq<char>
    decreases entries.len(),
{
    if entries.len() == 0 {
        "Linked Channels:\n"@
    } else {
        list_text(entries.drop_last()) + list_item(entries.last())
    }
}

/// One line per channel: a dash, a mention of the channel, and `ending`.
pub open spec fn mention_lines(channel_ids: Seq<u64>, ending: Seq<char>) -> Seq<char>
    decreases channel_ids.len(),
{
    if channel_ids.len() == 0 {
        Seq::empty()
    } else {
        mention_lines(channel_ids.drop_last(), ending) + " - "@ + mention_text(channel_ids.last())
            + ending
    }
}

/// A report on channels: nothing where there is none, else the heading and
/// one line per channel.
pub open spec fn report_text(heading: Seq<char>, channel_ids: Seq<u64>, ending: Seq<char>) -> Seq<
    char,
> {
    if channel_ids.len() == 0 {
        Seq::empty()
    } else {
        heading + mention_lines(channel_ids, ending)
    }
}

/// Calls `u64::to_string`, which writes the number in decimal.
#[verifier::external_body]
fn to_decimal(number: u64) -> (text: String)
    ensures
        text@ == decimal(number as nat),
{
    number.to_string()
}

/// Writes a channel mention.
pub fn mention(channel_id: u64) -> (text: String)
    ensures
        text@ == mention_text(channel_id),
{
    let mut text = String::from_str("<#");
    text.append(to_decimal(channel_id).as_str());
    text.append(">");
    text
}

/// Writes the answer to the author of a command.
pub fn respond(author_id: u64, body: &str) -> (text: String)
    ensures
        text@ == response_text(author_id, body@),
{
    let mut text = String::from_str("<@");
    text.append(to_decimal(author_id).as_str());
    text.append(">, ");
    text.append(body);
    text
}

/// Writes the line of one room in the list.
pub fn list_line(entry: &ListedRoom) -> (text: String)
    ensures
        text@ == list_item(*entry),
{
    let mut text = String::from_str(" - ");
    if entry.text_in_guild {
        text.append(mention(entry.room.text_id).as_str());
    } else {
        text.append(to_decimal(entry.room.text_id).as_str());
    }
    text.append(" -> ");
    match &entry.voice_name {
        Some(name) => {
            text.append(name.as_str());
        },
        None => {
            text.append(to_decimal(entry.room.voice_id).as_str());
        },
    }
    text.append("\n");
    text
}

/// Writes the list of a guild's rooms.
pub fn list(entries: &Vec<ListedRoom>) -> (text: String)
    ensures
        text@ == list_text(entries@),
{
    let mut text = String::from_str("Linked Channels:\n");
    let mut i: usize = 0;
    while i < entries.len()
        invariant
            i <= entries.len(),
            text@ == list_text(entries@.take(i as int)),
        decreases entries.len() - i,
    {
        proof {
            let next = entries@.take(i + 1);
            assert(next.drop_last() == entries@.take(i as int));
            assert(next.last() == entries[i as int]);
        }
        text.append(list_line(&entries[i]).as_str());
        i += 1;
    }
    proof {
        assert(entries@.take(i as int) == entries@);
    }
    text
}

/// Writes a report on channels under a heading, one line per channel.
fn report(heading: &str, channel_ids: &Vec<u64>, ending: &str) -> (text: String)
    ensures
        text@ == report_text(heading@, channel_ids@, ending@),
{
    if channel_ids.len() == 0 {
        return String::new();
    }
    let mut text = String::from_str(heading);
    let mut i: usize = 0;
    while i < channel_ids.len()
        invariant
            i <= channel_ids.len(),
            text@ == heading@ + mention_lines(channel_ids@.take(i as int), ending@),
        decreases channel_ids.len() - i,
    {
        proof {
            let next = channel_ids@.take(i + 1);
            assert(next.drop_last() == channel_ids@.take(i as int));
            assert(next.last() == channel_ids[i as int]);
        }
        text.append(" - ");
        text.append(mention(channel_ids[i]).as_str());
        text.append(ending);
        i += 1;
    }
    proof {
        assert(channel_ids@.take(i as int) == channel_ids@);
    }
    text
}

/// Writes which channels were unlinked: nothing where none was.
pub fn unlinked_report(channel_ids: &Vec<u64>) -> (text: String)
    ensures
        text@ == report_text("Unlinked: \n"@, channel_ids@, "\n"@),
{
    report("Unlinked: \n", channel_ids, "\n")
}

/// Writes which channels could not be found: nothing where all were.
pub fn missing_report(channel_ids: &Vec<u64>) -> (text: String)
    ensures
        text@ == report_text("Couldn't Find: \n"@, channel_ids@, ""@),
{
    report("Couldn't Find: \n", channel_ids, "")
}

/// Tells the author why two channels were not linked.
pub fn link_refusal(error: LinkError) -> (text: String)
    ensures
        text@ == match error {
            LinkError::VoiceLinked => "That voice channel is already linked with something."@,
            LinkError::TextLinked => "That text channel is already linked with something."@,
        },
{
    match error {
        LinkError::VoiceLinked => String::from_str(
            "That voice channel is already linked with something.",
        ),
        LinkError::TextLinked => String::from_str(
            "That text channel is already linked with something.",
        ),
    }
}

/// The emoji that a command is reacted to with.
pub fn reaction(feedback: Feedback) -> (emoji: String)
    ensures
        emoji@ == match feedback {
            Feedback::Good => "✅"@,
            Feedback::Bad => "❌"@,
            Feedback::Warn => "⚠️"@,
        },
{
    match feedback {
        Feedback::Good => String::from_str("✅"),
        Feedback::Bad => String::from_str("❌"),
        Feedback::Warn => String::from_str("⚠️"),
    }
}

} // verus!
