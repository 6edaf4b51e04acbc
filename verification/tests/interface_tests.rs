use two_meat::interface::discord::{
    bound_channel, bound_transceiver, format_message, DiscordInterface, DiscordMessage,
};
use two_meat::interface::InterfaceError;
use two_meat::model::data::{Place, Timestamp};
use two_meat::transceiver::Transceivers;

fn message(channel_id: u64) -> DiscordMessage {
    DiscordMessage {
        content: "hello".to_string(),
        author_name: "nanai".to_string(),
        author_nick: Some("nana".to_string()),
        author_id: 1234567890,
        channel_id,
        timestamp: Timestamp { secs: 1431648000, nanos: 0 },
    }
}

#[test]
fn format_message_builds_discord_data() {
    let d = format_message(message(77));
    assert_eq!(d.content, "hello");
    assert_eq!(d.author.name, "nanai");
    assert_eq!(d.author.nickname, Some("nana".to_string()));
    assert_eq!(d.author.id, "1234567890");
    assert_eq!(d.author.place, Place::Discord { channel_id: 77 });
    assert_eq!(d.timestamp, Timestamp { secs: 1431648000, nanos: 0 });
}

#[test]
fn formatted_data_render_shows_author_content_and_time() {
    let d = format_message(message(77));
    assert_eq!(
        d.render(),
        Some(
            "nana (nanai): 1234567890 on Discord { channel_id: 77 }helloat 2015-05-15 00:00:00 UTC"
                .to_string()
        )
    );
    let mut late = format_message(message(1));
    late.timestamp = Timestamp { secs: i64::MAX, nanos: 0 };
    assert_eq!(late.render(), None);
}

#[test]
fn bound_transceiver_by_channel() {
    let bindings: Vec<(u128, u64)> = vec![(10, 100), (11, 101)];
    assert_eq!(bound_transceiver(&bindings, 101), Ok(11));
    assert_eq!(bound_transceiver(&bindings, 100), Ok(10));
    assert_eq!(bound_transceiver(&bindings, 102), Err(InterfaceError::NoBoundTransceivers));
    assert_eq!(bound_transceiver(&vec![], 100), Err(InterfaceError::NoBoundTransceivers));
}

#[test]
fn bound_channel_by_transceiver() {
    let bindings: Vec<(u128, u64)> = vec![(10, 100), (11, 101)];
    assert_eq!(bound_channel(&bindings, 10), Ok(100));
    assert_eq!(bound_channel(&bindings, 11), Ok(101));
    assert_eq!(bound_channel(&bindings, 12), Err(InterfaceError::NotBound));
}

#[test]
fn fresh_discord_interface_has_no_bindings() {
    let discord = DiscordInterface::new();
    let reg = Transceivers::new();
    assert!(discord.channel_binding_unique(5));
    assert!(discord.transceiver_binding_unique(5));
    assert!(discord.bound_transceivers_registered(&reg, 5));
    assert!(matches!(discord.receive(&reg, message(5)), Err(InterfaceError::NoBoundTransceivers)));
    assert_eq!(discord.send(5), Err(InterfaceError::NotBound));
}

#[test]
fn interface_error_messages() {
    assert_eq!(InterfaceError::NoBoundTransceivers.message(), "no bound transceivers.");
    assert_eq!(
        InterfaceError::NotBound.message(),
        "not found (transceiver id was not bound to discord channel_id)."
    );
}

#[test]
fn format_message_has_no_attachments() {
    let d = format_message(message(3));
    assert_eq!(format!("{:?}", d.attachments), "AttachmentList { items: [] }");
    let e = two_meat::model::data::AttachmentList::empty();
    assert_eq!(format!("{:?}", e.clone()), "AttachmentList { items: [] }");
}
