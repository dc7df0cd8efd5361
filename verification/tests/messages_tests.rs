use voice_rooms::commands::Feedback;
use voice_rooms::messages::{
    link_refusal, list, list_line, mention, missing_report, reaction, respond, unlinked_report,
    ListedRoom,
};
use voice_rooms::registry::{LinkError, Room};

fn listed(
    voice_id: u64,
    text_id: u64,
    text_in_guild: bool,
    voice_name: Option<&str>,
) -> ListedRoom {
    ListedRoom {
        room: Room { voice_id, text_id },
        text_in_guild,
        voice_name: voice_name.map(|name| name.to_string()),
    }
}

#[test]
fn mention_wraps_the_decimal_id() {
    assert_eq!(mention(123), "<#123>");
    assert_eq!(mention(0), "<#0>");
    assert_eq!(mention(u64::MAX), "<#18446744073709551615>");
}

#[test]
fn response_addresses_the_author() {
    assert_eq!(respond(42, "done"), "<@42>, done");
    assert_eq!(respond(7, ""), "<@7>, ");
}

#[test]
fn list_line_shows_mention_and_name() {
    assert_eq!(list_line(&listed(10, 100, true, Some("Lounge"))), " - <#100> -> Lounge\n");
}

#[test]
fn list_line_falls_back_to_ids() {
    assert_eq!(list_line(&listed(10, 100, false, None)), " - 100 -> 10\n");
    assert_eq!(list_line(&listed(10, 100, true, None)), " - <#100> -> 10\n");
    assert_eq!(list_line(&listed(10, 100, false, Some("Lounge"))), " - 100 -> Lounge\n");
}

#[test]
fn list_has_a_heading_and_a_line_per_room() {
    assert_eq!(list(&vec![]), "Linked Channels:\n");
    let entries = vec![listed(10, 100, true, Some("Lounge")), listed(20, 200, false, None)];
    assert_eq!(list(&entries), "Linked Channels:\n - <#100> -> Lounge\n - 200 -> 20\n");
}

#[test]
fn unlinked_report_lists_mentions_line_by_line() {
    assert_eq!(unlinked_report(&vec![]), "");
    assert_eq!(unlinked_report(&vec![100]), "Unlinked: \n - <#100>\n");
    assert_eq!(unlinked_report(&vec![100, 200]), "Unlinked: \n - <#100>\n - <#200>\n");
}

#[test]
fn missing_report_lists_mentions_without_line_ends() {
    assert_eq!(missing_report(&vec![]), "");
    assert_eq!(missing_report(&vec![100]), "Couldn't Find: \n - <#100>");
    assert_eq!(missing_report(&vec![100, 200]), "Couldn't Find: \n - <#100> - <#200>");
}

#[test]
fn link_refusals_name_the_taken_channel() {
    assert_eq!(
        link_refusal(LinkError::VoiceLinked),
        "That voice channel is already linked with something."
    );
    assert_eq!(
        link_refusal(LinkError::TextLinked),
        "That text channel is already linked with something."
    );
}

#[test]
fn reactions_are_the_three_emoji() {
    assert_eq!(reaction(Feedback::Good), "\u{2705}");
    assert_eq!(reaction(Feedback::Bad), "\u{274c}");
    assert_eq!(reaction(Feedback::Warn), "\u{26a0}\u{fe0f}");
}
