use guild_mirror::blacklist::{
    copy_blacklists, holds_entry, is_blacklisted, sort_blacklists, Blacklist,
};
use guild_mirror::config::{
    config_filename, default_bool_true, default_webhook_username, Config, MessageRequirements,
    MessageSettings, SystemSettings,
};

#[test]
fn defaults_mirror_everything() {
    assert!(default_bool_true());
    assert_eq!(default_webhook_username(), "Captain Hook");
    let settings = MessageSettings::default();
    assert!(!settings.use_webhook_profile);
    assert!(!settings.remove_attachments);
    assert!(settings.mirror_messages_from_bots);
    assert!(settings.mirror_reply_messages);
    let requirements = MessageRequirements::default();
    assert_eq!(requirements.min_embeds_amount, 0);
    assert_eq!(requirements.min_content_length, 0);
    assert_eq!(requirements.min_attachments_amount, 0);
    assert_eq!(SystemSettings::default().user_agent, "");
    assert!(Config::default().guilds.is_empty());
}

#[test]
fn last_argument_names_the_file_if_it_is_toml() {
    assert_eq!(config_filename(Some("other.toml".to_string())), "other.toml");
    assert_eq!(config_filename(Some(".toml".to_string())), ".toml");
    assert_eq!(config_filename(Some("toml".to_string())), "config.toml");
    assert_eq!(config_filename(Some("a.toml.bak".to_string())), "config.toml");
    assert_eq!(config_filename(None), "config.toml");
}

#[test]
fn blacklists_are_sorted_by_kind_and_number() {
    let entries = vec![
        Blacklist::Role(1),
        Blacklist::User(9),
        Blacklist::Channel(5),
        Blacklist::User(2),
        Blacklist::Channel(3),
        Blacklist::Channel(5),
    ];
    let sorted = sort_blacklists(&entries);
    let mut expected = entries.clone();
    expected.sort();
    assert_eq!(sorted, expected);
    assert_eq!(
        sorted,
        vec![
            Blacklist::Channel(3),
            Blacklist::Channel(5),
            Blacklist::Channel(5),
            Blacklist::User(2),
            Blacklist::User(9),
            Blacklist::Role(1),
        ]
    );
    assert_eq!(copy_blacklists(&sorted), sorted);
}

#[test]
fn sorted_entries_are_found() {
    let sorted = sort_blacklists(&vec![
        Blacklist::Role(1),
        Blacklist::Channel(1),
        Blacklist::Channel(7),
    ]);
    assert!(is_blacklisted(&sorted, Blacklist::Channel(1)));
    assert!(is_blacklisted(&sorted, Blacklist::Channel(7)));
    assert!(is_blacklisted(&sorted, Blacklist::Role(1)));
    assert!(!is_blacklisted(&sorted, Blacklist::User(1)));
    assert!(!is_blacklisted(&sorted, Blacklist::Channel(2)));
    assert!(!is_blacklisted(&Vec::new(), Blacklist::Channel(2)));
}

#[test]
fn entries_are_found_in_any_order() {
    let entries = vec![Blacklist::Role(4), Blacklist::Channel(2)];
    assert!(holds_entry(&entries, Blacklist::Channel(2)));
    assert!(!holds_entry(&entries, Blacklist::Channel(4)));
}
