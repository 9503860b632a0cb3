//! What is shown of the servers and channels of the remote service, and
//! what is told when they cannot be read.

use crate::message::clone_optional;
use crate::text::{chars_of, decimal, decimal_string, starts_with};
use std::collections::HashMap;
use vstd::prelude::*;
use vstd::string::StringExecFns;

verus! {

/// A server as it is shown.
#[derive(Debug, Clone)]
pub struct SerializableGuild {
    pub id: String,
    pub name: String,
    pub icon: Option<String>,
}

/// A text channel as it is shown, with the category it belongs to.
#[derive(Debug, Clone)]
pub struct SerializableChannel {
    pub id: String,
    pub name: String,
    pub topic: Option<String>,
    pub position: u16,
    pub parent_id: Option<String>,
    pub parent_name: Option<String>,
}

/// The mathematical value of a [`SerializableChannel`].
#[verifier::ext_equal]
pub struct ShownChannel {
    pub id: Seq<char>,
    pub name: Seq<char>,
    pub topic: Option<Seq<char>>,
    pub position: u16,
    pub parent_id: Option<Seq<char>>,
    pub parent_name: Option<Seq<char>>,
}

impl View for SerializableChannel {
    type V = ShownChannel;

    open spec fn view(&self) -> ShownChannel {
        ShownChannel {
            id: self.id@,
            name: self.name@,
            topic: self.topic.deep_view(),
            position: self.position,
            parent_id: self.parent_id.deep_view(),
            parent_name: self.parent_name.deep_view(),
        }
    }
}

impl DeepView for SerializableChannel {
    type V = ShownChannel;

    open spec fn deep_view(&self) -> ShownChannel {
        self@
    }
}

/// What kind of channel a channel of a server is.
#[derive(Debug, Clone, Copy, PartialEq, Eq, Structural)]
pub enum ChannelKind {
    Text,
    Category,
    Other,
}

/// A channel of a server as the remote service reports it.
pub struct GuildChannel {
    pub id: u64,
    pub kind: ChannelKind,
    pub name: String,
    pub topic: Option<String>,
    pub position: u16,
    pub parent_id: Option<u64>,
}

/// The mathematical value of a [`GuildChannel`].
#[verifier::ext_equal]
pub struct GuildChannelView {
    pub id: u64,
    pub kind: ChannelKind,
    pub name: Seq<char>,
    pub topic: Option<Seq<char>>,
    pub position: u16,
    pub parent_id: Option<u64>,
}

impl View for GuildChannel {
    type V = GuildChannelView;

    open spec fn view(&self) -> GuildChannelView {
        GuildChannelView {
            id: self.id,
            kind: self.kind,
            name: self.name@,
            topic: self.topic.deep_view(),
            position: self.position,
            parent_id: self.parent_id,
        }
    }
}

impl DeepView for GuildChannel {
    type V = GuildChannelView;

    open spec fn deep_view(&self) -> GuildChannelView {
        self@
    }
}

/// The name of the category with the identifier `id`: that of the last such
/// category among `channels`.
pub open spec fn category_name(channels: Seq<GuildChannelView>, id: u64) -> Option<Seq<char>>
    decreases channels.len(),
{
    if channels.len() == 0 {
        None
    } else if channels.last().kind == ChannelKind::Category && channels.last().id == id {
        Some(channels.last().name)
    } else {
        category_name(channels.drop_last(), id)
    }
}

/// A channel as it is shown among the channels of its server.
pub open spec fn shown(channels: Seq<GuildChannelView>, c: GuildChannelView) -> ShownChannel {
    ShownChannel {
        id: decimal(c.id as nat),
        name: c.name,
        topic: c.topic,
        position: c.position,
        parent_id: match c.parent_id {
            Some(p) => Some(decimal(p as nat)),
            None => None,
        },
        parent_name: match c.parent_id {
            Some(p) => category_name(channels, p),
            None => None,
        },
    }
}

/// What one channel adds to the list: itself as it is shown, if it is a text
/// channel.
pub open spec fn listed(channels: Seq<GuildChannelView>, c: GuildChannelView) -> Option<
    ShownChannel,
> {
    if c.kind == ChannelKind::Text {
        Some(shown(channels, c))
    } else {
        None
    }
}

/// `sorted` with `c` put behind every channel whose position is not higher.
pub open spec fn insert_by_position(sorted: Seq<ShownChannel>, c: ShownChannel) -> Seq<
    ShownChannel,
>
    decreases sorted.len(),
{
    if sorted.len() == 0 || sorted.last().position <= c.position {
        sorted.push(c)
    } else {
        insert_by_position(sorted.drop_last(), c).push(sorted.last())
    }
}

/// Channels in the order of their positions; channels of one position keep
/// their order.
pub open spec fn sort_by_position(channels: Seq<ShownChannel>) -> Seq<ShownChannel>
    decreases channels.len(),
{
    if channels.len() == 0 {
        channels
    } else {
        insert_by_position(sort_by_position(channels.drop_last()), channels.last())
    }
}

/// The text channels of a server as they are shown, in the order of their
/// positions.
pub open spec fn channel_list(channels: Seq<GuildChannelView>) -> Seq<ShownChannel> {
    sort_by_position(channels.filter_map(|c: GuildChannelView| listed(channels, c)))
}

/// Inserting a channel at the place where the higher positions begin is
/// `insert_by_position`.
proof fn lemma_insert_place(sorted: Seq<ShownChannel>, c: ShownChannel, k: int)
    requires
        0 <= k <= sorted.len(),
        forall|j: int| k <= j < sorted.len() ==> sorted[j].position > c.position,
        k > 0 ==> sorted[k - 1].position <= c.position,
    ensures
        insert_by_position(sorted, c) == sorted.insert(k, c),
    decreases sorted.len() - k,
{
    if k == sorted.len() {
        assert(sorted.insert(k, c) == sorted.push(c));
    } else {
        let shorter = sorted.drop_last();
        lemma_insert_place(shorter, c, k);
        assert(shorter.insert(k, c).push(sorted.last()) == sorted.insert(k, c));
    }
}

/// Whether `names` holds the names of the categories among `channels`, each
/// under its identifier.
pub open spec fn names_of(names: Map<u64, String>, channels: Seq<GuildChannelView>) -> bool {
    forall|id: u64|
        match #[trigger] category_name(channels, id) {
            Some(name) => names.contains_key(id) && names[id]@ == name,
            None => !names.contains_key(id),
        }
}

/// The names of the categories among `channels`, each under its identifier;
/// of two categories with one identifier the later one gives the name.
pub fn category_names(channels: &Vec<GuildChannel>) -> (names: HashMap<u64, String>)
    ensures
        names_of(names@, channels.deep_view()),
{
    let ghost all = channels.deep_view();
    let mut names: HashMap<u64, String> = HashMap::new();
    let mut i: usize = 0;
    while i < channels.len()
        invariant
            i <= channels.len(),
            all == channels.deep_view(),
            names_of(names@, all.take(i as int)),
        decreases channels.len() - i,
    {
        let c = &channels[i];
        proof {
            assert(all.take(i + 1).drop_last() == all.take(i as int));
            assert(all.take(i + 1).last() == c@);
        }
        if matches!(c.kind, ChannelKind::Category) {
            names.insert(c.id, c.name.clone());
        }
        assert(names_of(names@, all.take(i + 1))) by {
            assert forall|id: u64|
                match #[trigger] category_name(all.take(i + 1), id) {
                    Some(name) => names@.contains_key(id) && names@[id]@ == name,
                    None => !names@.contains_key(id),
                } by {
                let before = category_name(all.take(i as int), id);
            }
        }
        i += 1;
    }
    assert(all.take(all.len() as int) == all);
    names
}

/// The channel `c` as it is shown among `channels`, whose categories are
/// named in `names`.
pub fn show_channel(
    channels: &Vec<GuildChannel>,
    names: &HashMap<u64, String>,
    c: &GuildChannel,
) -> (r: SerializableChannel)
    requires
        names_of(names@, channels.deep_view()),
    ensures
        r@ == shown(channels.deep_view(), c@),
{
    let (parent_id, parent_name) = match c.parent_id {
        Some(p) => {
            let name = match names.get(&p) {
                Some(n) => Some(n.clone()),
                None => None,
            };
            assert(name.deep_view() == category_name(channels.deep_view(), p));
            (Some(decimal_string(p)), name)
        },
        None => (None, None),
    };
    SerializableChannel {
        id: decimal_string(c.id),
        name: c.name.clone(),
        topic: clone_optional(&c.topic),
        position: c.position,
        parent_id,
        parent_name,
    }
}

/// Puts channels in the order of their positions; channels of one position
/// keep their order.
pub fn sort_channels(channels: Vec<SerializableChannel>) -> (sorted: Vec<SerializableChannel>)
    ensures
        sorted.deep_view() == sort_by_position(channels.deep_view()),
{
    let mut sorted: Vec<SerializableChannel> = Vec::new();
    let ghost whole = channels.deep_view();
    for c in it: channels
        invariant
            it.seq().len() == whole.len(),
            forall|i: int| 0 <= i < whole.len() ==> (#[trigger] it.seq()[i])@ == whole[i],
            sorted.deep_view() == sort_by_position(whole.take(it.index() as int)),
    {
        let mut k: usize = sorted.len();
        while k > 0 && sorted[k - 1].position > c.position
            invariant
                k <= sorted.len(),
                forall|j: int| k <= j < sorted.len() ==> sorted@[j].position > c.position,
            decreases k,
        {
            k -= 1;
        }
        proof {
            let before = sorted.deep_view();
            assert forall|j: int| k <= j < before.len() implies before[j].position
                > c@.position by {
                assert(before[j] == sorted@[j]@);
            }
            if k > 0 {
                assert(before[k - 1] == sorted@[k - 1]@);
            }
            lemma_insert_place(before, c@, k as int);
            let next = whole.take(it.index() + 1);
            assert(next.drop_last() == whole.take(it.index() as int));
            assert(next.last() == c@);
        }
        let ghost before = sorted.deep_view();
        sorted.insert(k, c);
        assert(sorted.deep_view() == before.insert(k as int, c@));
    }
    assert(whole.take(whole.len() as int) == whole);
    sorted
}

/// The text channels of a server as they are shown: each with the name of
/// its category, in the order of their positions.
pub fn text_channels(channels: &Vec<GuildChannel>) -> (list: Vec<SerializableChannel>)
    ensures
        list.deep_view() == channel_list(channels.deep_view()),
{
    let ghost all = channels.deep_view();
    let ghost pick = |c: GuildChannelView| listed(all, c);
    let names = category_names(channels);
    let mut found: Vec<SerializableChannel> = Vec::new();
    let mut i: usize = 0;
    while i < channels.len()
        invariant
            i <= channels.len(),
            all == channels.deep_view(),
            names_of(names@, all),
            pick == |c: GuildChannelView| listed(all, c),
            found.deep_view() == all.take(i as int).filter_map(pick),
        decreases channels.len() - i,
    {
        let c = &channels[i];
        proof {
            all.lemma_filter_map_take_succ(pick, i as int);
            assert(all[i as int] == c@);
        }
        if matches!(c.kind, ChannelKind::Text) {
            let ghost before = found.deep_view();
            let one = show_channel(channels, &names, c);
            found.push(one);
            assert(found.deep_view() == before + seq![one@]);
        }
        i += 1;
    }
    assert(all.take(all.len() as int) == all);
    sort_channels(found)
}

/// What is told when the channels of a server cannot be read: a message for
/// the statuses that say why, and the error itself for any other.
pub open spec fn channels_failure(status: Option<u16>, guild: Seq<char>, detail: Seq<char>)
    -> Seq<char> {
    if status == Some(401u16) {
        "Discord API Error: Invalid Token (Unauthorized)."@
    } else if status == Some(403u16) {
        "Discord API Error: Missing permissions to view channels in guild "@ + guild + "."@
    } else if status == Some(404u16) {
        "Discord API Error: Guild not found (ID: "@ + guild + ")."@
    } else {
        "Failed to fetch channels for guild "@ + guild + ". Error: "@ + detail
    }
}

/// What is told when the servers cannot be read.
pub open spec fn guilds_failure(status: Option<u16>, detail: Seq<char>) -> Seq<char> {
    if status == Some(401u16) {
        "Discord API Error: Invalid Token (Unauthorized). Please check the saved token."@
    } else {
        "Failed to fetch guilds from Discord API. Check network connection and token permissions. Error: "@
            + detail
    }
}

/// What is told when the channels of server `guild_id` cannot be read; the
/// remote service answered with `status`, if it answered, and the error
/// reads `detail`.
pub fn channels_error_message(status: Option<u16>, guild_id: &str, detail: &str) -> (text: String)
    ensures
        text@ == channels_failure(status, guild_id@, detail@),
{
    let code: u16 = match status {
        Some(code) => code,
        None => 0,
    };
    let known = status.is_some();
    if known && code == 401 {
        String::from_str("Discord API Error: Invalid Token (Unauthorized).")
    } else if known && code == 403 {
        let mut text = String::from_str(
            "Discord API Error: Missing permissions to view channels in guild ",
        );
        text.append(guild_id);
        text.append(".");
        text
    } else if known && code == 404 {
        let mut text = String::from_str("Discord API Error: Guild not found (ID: ");
        text.append(guild_id);
        text.append(").");
        text
    } else {
        let mut text = String::from_str("Failed to fetch channels for guild ");
        text.append(guild_id);
        text.append(". Error: ");
        text.append(detail);
        text
    }
}

/// What is told when the servers cannot be read.
pub fn guilds_error_message(status: Option<u16>, detail: &str) -> (text: String)
    ensures
        text@ == guilds_failure(status, detail@),
{
    let unauthorized = match status {
        Some(code) => code == 401,
        None => false,
    };
    if unauthorized {
        String::from_str(
            "Discord API Error: Invalid Token (Unauthorized). Please check the saved token.",
        )
    } else {
        let mut text = String::from_str(
            "Failed to fetch guilds from Discord API. Check network connection and token permissions. Error: ",
        );
        text.append(detail);
        text
    }
}

/// The identifier that a text writes, or what is told where it writes none.
pub open spec fn guild_id_of(text: Seq<char>) -> Result<u64, Seq<char>> {
    match crate::message::identifier_of(text) {
        Some(id) => Ok(id),
        None => Err("Invalid Guild ID format provided: '"@ + text + "'"@),
    }
}

/// Reads the identifier of a server.
pub fn parse_guild_id(guild_id: &str) -> (r: Result<u64, String>)
    ensures
        match r {
            Ok(id) => guild_id_of(guild_id@) == Ok::<u64, Seq<char>>(id),
            Err(why) => guild_id_of(guild_id@) == Err::<u64, Seq<char>>(why@),
        },
{
    match crate::message::parse_identifier(guild_id) {
        Some(id) => Ok(id),
        None => {
            let mut why = String::from_str("Invalid Guild ID format provided: '");
            why.append(guild_id);
            why.append("'");
            Err(why)
        },
    }
}

/// The token as it is sent to the remote service: with `Bot ` in front of
/// it, unless it begins so already.
pub open spec fn authorization_of(token: Seq<char>) -> Seq<char> {
    if "Bot "@.is_prefix_of(token) {
        token
    } else {
        "Bot "@ + token
    }
}

/// The token as it is sent to the remote service.
pub fn bot_authorization(token: &str) -> (r: String)
    ensures
        r@ == authorization_of(token@),
{
    if starts_with(&chars_of(token), &chars_of("Bot ")) {
        String::from_str(token)
    } else {
        let mut r = String::from_str("Bot ");
        r.append(token);
        r
    }
}

/// What is told where the stored token is empty.
pub const EMPTY_TOKEN: &'static str = "Stored Discord Bot Token is empty.";

/// What is told where no token is stored.
pub const MISSING_TOKEN: &'static str = "Discord Bot Token not found. Please save it first.";

/// A stored token that can be used, or what is told of one that cannot:
/// an empty token is none.
pub fn usable_token(token: String) -> (r: Result<String, String>)
    ensures
        match r {
            Ok(t) => token@.len() > 0 && t@ == token@,
            Err(why) => token@.len() == 0 && why@ == EMPTY_TOKEN@,
        },
{
    if token.as_str().is_empty() {
        Err(String::from_str(EMPTY_TOKEN))
    } else {
        Ok(token)
    }
}

} // verus!
