//! The configuration of the application as rows of the store.

use crate::models::AppConfig;
use crate::persist::{json_of_strings, strings_to_json};
use crate::sqlite_manager::{json_to_strings, strings_of_json};
use crate::text::{chars_of, same_chars};
use vstd::prelude::*;
use vstd::string::StringExecFns;

verus! {

/// The statement that writes one row of the configuration.
pub const SAVE_CONFIG_ROW: &'static str =
    "INSERT OR REPLACE INTO config (key, value) VALUES (?1, ?2);";

/// The statement that removes one row of the configuration.
pub const REMOVE_CONFIG_ROW: &'static str = "DELETE FROM config WHERE key = ?1;";

/// The statement that reads the configuration.
pub const READ_CONFIG: &'static str = "SELECT key, value FROM config;";

/// One change to the rows of the configuration.
#[derive(Debug)]
pub enum ConfigWrite {
    Put { key: String, value: String },
    Remove { key: String },
}

/// The mathematical value of a [`ConfigWrite`].
#[verifier::ext_equal]
pub enum ConfigWriteView {
    Put { key: Seq<char>, value: Seq<char> },
    Remove { key: Seq<char> },
}

impl View for ConfigWrite {
    type V = ConfigWriteView;

    open spec fn view(&self) -> ConfigWriteView {
        match self {
            ConfigWrite::Put { key, value } => ConfigWriteView::Put { key: key@, value: value@ },
            ConfigWrite::Remove { key } => ConfigWriteView::Remove { key: key@ },
        }
    }
}

impl DeepView for ConfigWrite {
    type V = ConfigWriteView;

    open spec fn deep_view(&self) -> ConfigWriteView {
        self@
    }
}

/// How a truth value is stored.
pub open spec fn flag_text(flag: bool) -> Seq<char> {
    if flag {
        "true"@
    } else {
        "false"@
    }
}

/// The changes that store a configuration whose channels are written as the
/// JSON text `channels_json`: the server is written or, where none is
/// selected, removed; then the channels; then the end of the setup as `true`
/// or `false`.
pub open spec fn written(server: Option<Seq<char>>, channels_json: Seq<char>, complete: bool)
    -> Seq<ConfigWriteView> {
    seq![
        match server {
            Some(id) => ConfigWriteView::Put { key: "selected_server_id"@, value: id },
            None => ConfigWriteView::Remove { key: "selected_server_id"@ },
        },
        ConfigWriteView::Put { key: "selected_channel_ids"@, value: channels_json },
        ConfigWriteView::Put { key: "is_setup_complete"@, value: flag_text(complete) },
    ]
}

/// The changes that store a configuration, its channels written as JSON.
pub open spec fn writes_of(
    server: Option<Seq<char>>,
    channels: Seq<Seq<char>>,
    complete: bool,
) -> Seq<ConfigWriteView> {
    written(server, json_of_strings(channels), complete)
}

/// The changes that store `config`, given the channels as JSON text.
pub fn writes_with(config: &AppConfig, channels_json: String) -> (writes: Vec<ConfigWrite>)
    ensures
        writes.deep_view() == written(
            config.selected_server_id.deep_view(),
            channels_json@,
            config.is_setup_complete,
        ),
{
    let mut writes: Vec<ConfigWrite> = Vec::new();
    let server = match &config.selected_server_id {
        Some(id) => ConfigWrite::Put {
            key: String::from_str("selected_server_id"),
            value: id.clone(),
        },
        None => ConfigWrite::Remove { key: String::from_str("selected_server_id") },
    };
    writes.push(server);
    writes.push(
        ConfigWrite::Put { key: String::from_str("selected_channel_ids"), value: channels_json },
    );
    let flag = if config.is_setup_complete {
        "true"
    } else {
        "false"
    };
    writes.push(
        ConfigWrite::Put {
            key: String::from_str("is_setup_complete"),
            value: String::from_str(flag),
        },
    );
    writes
}

/// The changes that store `config`. There are always such changes.
pub fn config_writes(config: &AppConfig) -> (r: Result<Vec<ConfigWrite>, String>)
    ensures
        r matches Ok(writes) && writes.deep_view() == writes_of(
            config.selected_server_id.deep_view(),
            config.selected_channel_ids.deep_view(),
            config.is_setup_complete,
        ),
{
    match strings_to_json(&config.selected_channel_ids) {
        Ok(json) => Ok(writes_with(config, json)),
        Err(e) => {
            let mut why = String::from_str("Failed to serialize selected_channel_ids: ");
            why.append(e.as_str());
            Err(why)
        },
    }
}

/// The channels that a stored text selects: what it holds as JSON, or none
/// where it cannot be read.
pub open spec fn channels_in(value: Seq<char>) -> Seq<Seq<char>> {
    match strings_of_json(value) {
        Ok(ids) => ids,
        Err(_) => Seq::empty(),
    }
}

/// Takes one stored row into `config`. Rows under other keys change
/// nothing.
pub fn apply_config_row(config: &mut AppConfig, key: &str, value: String)
    ensures
        final(config).selected_server_id.deep_view() == (if key@ == "selected_server_id"@ {
            Some(value@)
        } else {
            old(config).selected_server_id.deep_view()
        }),
        final(config).selected_channel_ids.deep_view() == (if key@ != "selected_server_id"@
            && key@ == "selected_channel_ids"@ {
            channels_in(value@)
        } else {
            old(config).selected_channel_ids.deep_view()
        }),
        final(config).is_setup_complete == (if key@ != "selected_server_id"@ && key@
            != "selected_channel_ids"@ && key@ == "is_setup_complete"@ {
            value@ == "true"@
        } else {
            old(config).is_setup_complete
        }),
{
    let name = chars_of(key);
    if same_chars(&name, &chars_of("selected_server_id")) {
        config.selected_server_id = Some(value);
    } else if same_chars(&name, &chars_of("selected_channel_ids")) {
        match json_to_strings(value.as_str()) {
            Ok(ids) => {
                config.selected_channel_ids = ids;
            },
            Err(_) => {
                config.selected_channel_ids = Vec::new();
                assert(config.selected_channel_ids.deep_view() == Seq::<Seq<char>>::empty());
            },
        }
    } else if same_chars(&name, &chars_of("is_setup_complete")) {
        config.is_setup_complete = same_chars(&chars_of(value.as_str()), &chars_of("true"));
    }
}

/// How a truth value is stored.
pub fn flag_value(flag: bool) -> (text: &'static str)
    ensures
        text@ == flag_text(flag),
{
    if flag {
        "true"
    } else {
        "false"
    }
}

/// The change that stores a setting under `key`, or removes it where the
/// setting has no value.
pub fn setting_write(key: &str, value: Option<String>) -> (write: ConfigWrite)
    ensures
        write@ == (match value {
            Some(v) => ConfigWriteView::Put { key: key@, value: v@ },
            None => ConfigWriteView::Remove { key: key@ },
        }),
{
    match value {
        Some(v) => ConfigWrite::Put { key: String::from_str(key), value: v },
        None => ConfigWrite::Remove { key: String::from_str(key) },
    }
}

} // verus!
