//! What is shown of servers and channels.

use showcase_studio::discord::{
    bot_authorization, category_names, channels_error_message, guilds_error_message,
    parse_guild_id, show_channel, sort_channels, text_channels, usable_token, ChannelKind,
    GuildChannel, SerializableChannel, SerializableGuild, EMPTY_TOKEN, MISSING_TOKEN,
};

fn channel(id: u64, kind: ChannelKind, name: &str, position: u16, parent: Option<u64>) -> GuildChannel {
    GuildChannel {
        id,
        kind,
        name: name.to_string(),
        topic: if name.len() % 2 == 0 { Some(format!("about {}", name)) } else { None },
        position,
        parent_id: parent,
    }
}

#[test]
fn text_channels_are_listed_by_position() {
    let channels = vec![
        channel(1, ChannelKind::Category, "Art", 0, None),
        channel(10, ChannelKind::Text, "sketches", 3, Some(1)),
        channel(11, ChannelKind::Other, "voice", 1, Some(1)),
        channel(12, ChannelKind::Text, "general", 0, None),
        channel(13, ChannelKind::Text, "photos", 3, Some(2)),
        channel(2, ChannelKind::Category, "Media", 1, None),
        channel(14, ChannelKind::Text, "lost", 2, Some(99)),
        channel(15, ChannelKind::Text, "first", 0, Some(1)),
    ];
    let list = text_channels(&channels);
    let names: Vec<&str> = list.iter().map(|c| c.name.as_str()).collect();
    assert_eq!(names, vec!["general", "first", "lost", "sketches", "photos"]);
    let parents: Vec<Option<&str>> = list.iter().map(|c| c.parent_name.as_deref()).collect();
    assert_eq!(parents, vec![None, Some("Art"), None, Some("Art"), Some("Media")]);
    assert_eq!(list[3].id, "10");
    assert_eq!(list[3].parent_id, Some("1".to_string()));
    assert_eq!(list[3].topic, Some("about sketches".to_string()));
    assert_eq!(list[3].position, 3);
    assert_eq!(list[2].parent_id, Some("99".to_string()));
    assert_eq!(list[0].parent_id, None);
    assert!(text_channels(&Vec::new()).is_empty());
}

#[test]
fn the_last_category_of_an_identifier_names_it() {
    let channels = vec![
        channel(1, ChannelKind::Category, "Old", 0, None),
        channel(1, ChannelKind::Text, "not a category", 0, None),
        channel(1, ChannelKind::Category, "New", 0, None),
        channel(5, ChannelKind::Text, "t", 0, Some(1)),
    ];
    let names = category_names(&channels);
    assert_eq!(names.len(), 1);
    assert_eq!(names.get(&1), Some(&"New".to_string()));
    assert_eq!(names.get(&5), None);
    let list = text_channels(&channels);
    assert_eq!(list[1].parent_name, Some("New".to_string()));
    let one = show_channel(&channels, &names, &channels[3]);
    assert_eq!(one.id, "5");
    assert_eq!(one.parent_id, Some("1".to_string()));
    assert_eq!(one.parent_name, Some("New".to_string()));
}

#[test]
fn channels_of_one_position_keep_their_order() {
    let shown = |id: &str, position: u16| SerializableChannel {
        id: id.to_string(),
        name: id.to_string(),
        topic: None,
        position,
        parent_id: None,
        parent_name: None,
    };
    let sorted = sort_channels(vec![
        shown("a", 2),
        shown("b", 1),
        shown("c", 2),
        shown("d", 0),
        shown("e", 1),
        shown("f", u16::MAX),
    ]);
    let ids: Vec<&str> = sorted.iter().map(|c| c.id.as_str()).collect();
    assert_eq!(ids, vec!["d", "b", "e", "a", "c", "f"]);
}

#[test]
fn what_is_told_when_channels_cannot_be_read() {
    assert_eq!(
        channels_error_message(Some(401), "55", "x"),
        "Discord API Error: Invalid Token (Unauthorized)."
    );
    assert_eq!(
        channels_error_message(Some(403), "55", "x"),
        "Discord API Error: Missing permissions to view channels in guild 55."
    );
    assert_eq!(
        channels_error_message(Some(404), "55", "x"),
        "Discord API Error: Guild not found (ID: 55)."
    );
    assert_eq!(
        channels_error_message(Some(500), "55", "boom"),
        "Failed to fetch channels for guild 55. Error: boom"
    );
    assert_eq!(
        channels_error_message(None, "55", "offline"),
        "Failed to fetch channels for guild 55. Error: offline"
    );
    assert_eq!(
        channels_error_message(Some(0), "55", "zero"),
        "Failed to fetch channels for guild 55. Error: zero"
    );
}

#[test]
fn what_is_told_when_servers_cannot_be_read() {
    assert_eq!(
        guilds_error_message(Some(401), "x"),
        "Discord API Error: Invalid Token (Unauthorized). Please check the saved token."
    );
    assert_eq!(
        guilds_error_message(Some(403), "denied"),
        "Failed to fetch guilds from Discord API. Check network connection and token permissions. Error: denied"
    );
    assert_eq!(
        guilds_error_message(None, "offline"),
        "Failed to fetch guilds from Discord API. Check network connection and token permissions. Error: offline"
    );
}

#[test]
fn the_identifier_of_a_server() {
    assert_eq!(parse_guild_id("12345"), Ok(12345));
    assert_eq!(parse_guild_id("1"), Ok(1));
    assert_eq!(parse_guild_id("0"), Err("Invalid Guild ID format provided: '0'".to_string()));
    assert_eq!(
        parse_guild_id("000"),
        Err("Invalid Guild ID format provided: '000'".to_string())
    );
    assert_eq!(
        parse_guild_id("abc"),
        Err("Invalid Guild ID format provided: 'abc'".to_string())
    );
    assert_eq!(parse_guild_id(""), Err("Invalid Guild ID format provided: ''".to_string()));
}

#[test]
fn the_token_as_it_is_sent() {
    assert_eq!(bot_authorization("abc"), "Bot abc");
    assert_eq!(bot_authorization("Bot abc"), "Bot abc");
    assert_eq!(bot_authorization("bot abc"), "Bot bot abc");
    assert_eq!(bot_authorization("Bot"), "Bot Bot");
    assert_eq!(bot_authorization(""), "Bot ");
    assert_eq!(usable_token("t".to_string()), Ok("t".to_string()));
    assert_eq!(usable_token(String::new()), Err(EMPTY_TOKEN.to_string()));
    assert_eq!(EMPTY_TOKEN, "Stored Discord Bot Token is empty.");
    assert_eq!(MISSING_TOKEN, "Discord Bot Token not found. Please save it first.");
}

#[test]
fn a_server_as_it_is_shown() {
    let guild =
        SerializableGuild { id: "55".to_string(), name: "Studio".to_string(), icon: None };
    let copy = guild.clone();
    assert_eq!(copy.id, "55");
    assert_eq!(copy.name, "Studio");
    assert_eq!(copy.icon, None);
}
