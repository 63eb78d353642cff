//! The settings under which guilds are mirrored.
use crate::blacklist::Blacklist;
use crate::text::ends_with;
use vstd::prelude::*;

verus! {

/// The value of a switch that is on unless it is turned off.
pub fn default_bool_true() -> (value: bool)
    ensures
        value,
{
    true
}

/// The name of a webhook where none is configured.
pub fn default_webhook_username() -> (name: String)
    ensures
        name@ == "Captain Hook"@,
{
    "Captain Hook".to_string()
}

/// How to reach the database and the service.
#[derive(Clone, Debug)]
pub struct SystemSettings {
    pub database_url: String,
    pub discord_token: String,
    pub user_agent: String,
}

impl Default for SystemSettings {
    fn default() -> (settings: Self)
        ensures
            settings.database_url@.len() == 0,
            settings.discord_token@.len() == 0,
            settings.user_agent@.len() == 0,
    {
        SystemSettings {
            database_url: String::new(),
            discord_token: String::new(),
            user_agent: String::new(),
        }
    }
}

/// How one guild is mirrored into another.
#[derive(Clone, Debug)]
pub struct GuildSettings {
    pub src_guild_id: u64,
    pub dest_guild_id: u64,
    pub webhook_username: String,
    pub relay_deletes: bool,
    pub relay_updates: bool,
    pub clone_roles: bool,
    pub message_requirements: MessageRequirements,
    pub message_settings: MessageSettings,
    pub blacklists: Vec<Blacklist>,
}

/// How messages are mirrored.
#[derive(Clone, Copy, Debug, PartialEq, Eq, Structural)]
pub struct MessageSettings {
    pub use_webhook_profile: bool,
    pub remove_attachments: bool,
    pub mirror_messages_from_bots: bool,
    pub mirror_reply_messages: bool,
}

impl Default for MessageSettings {
    fn default() -> (settings: Self)
        ensures
            !settings.use_webhook_profile,
            !settings.remove_attachments,
            settings.mirror_messages_from_bots,
            settings.mirror_reply_messages,
    {
        MessageSettings {
            use_webhook_profile: false,
            remove_attachments: false,
            mirror_messages_from_bots: true,
            mirror_reply_messages: true,
        }
    }
}

/// What a message has to hold before it is mirrored.
#[derive(Clone, Copy, Debug, PartialEq, Eq, Structural)]
pub struct MessageRequirements {
    pub min_embeds_amount: u32,
    pub min_content_length: u32,
    pub min_attachments_amount: u32,
}

impl Default for MessageRequirements {
    fn default() -> (requirements: Self)
        ensures
            requirements.min_embeds_amount == 0,
            requirements.min_content_length == 0,
            requirements.min_attachments_amount == 0,
    {
        MessageRequirements {
            min_embeds_amount: 0,
            min_content_length: 0,
            min_attachments_amount: 0,
        }
    }
}

/// All settings.
#[derive(Clone, Debug)]
pub struct Config {
    pub system: SystemSettings,
    pub guilds: Vec<GuildSettings>,
}

impl Default for Config {
    fn default() -> (config: Self)
        ensures
            config.system.database_url@.len() == 0,
            config.system.discord_token@.len() == 0,
            config.system.user_agent@.len() == 0,
            config.guilds@.len() == 0,
    {
        Config { system: SystemSettings::default(), guilds: Vec::new() }
    }
}

/// The file that holds the settings: the last argument where that names a TOML file,
/// and `config.toml` otherwise.
pub fn config_filename(last_argument: Option<String>) -> (filename: String)
    ensures
        match last_argument {
            Some(argument) => if crate::text::has_suffix(argument@, ".toml"@) {
                filename == argument
            } else {
                filename@ == "config.toml"@
            },
            None => filename@ == "config.toml"@,
        },
{
    match last_argument {
        Some(argument) => {
            if ends_with(argument.as_str(), ".toml") {
                argument
            } else {
                "config.toml".to_string()
            }
        },
        None => "config.toml".to_string(),
    }
}

} // verus!
