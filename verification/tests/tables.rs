use guild_mirror::blacklist::Blacklist;
use guild_mirror::config::{GuildSettings, MessageRequirements, MessageSettings};
use guild_mirror::keys::id_key;
use guild_mirror::model::{Channel, ChannelType, Guild, IdMapping, Role};
use guild_mirror::operation::{Action, Progress, Reply, Task};
use guild_mirror::util::channel_map::build_channel_map;
use guild_mirror::util::cleanup::{
    cleanup_unused_mappings, unregister_blacklisted_channels, unregister_guild_pair,
};
use guild_mirror::util::create::create_channels;
use guild_mirror::util::filter::{filter_bar_channels, filter_bar_roles};
use guild_mirror::util::register::register_channels;
use guild_mirror::util::roles::create_roles;
use guild_mirror::util::setup::register_guild_settings;

fn settings(src_guild_id: u64, dest_guild_id: u64) -> GuildSettings {
    GuildSettings {
        src_guild_id,
        dest_guild_id,
        webhook_username: "Captain Hook".to_string(),
        relay_deletes: false,
        relay_updates: false,
        clone_roles: true,
        message_requirements: MessageRequirements::default(),
        message_settings: MessageSettings::default(),
        blacklists: Vec::new(),
    }
}

fn channel(id: u64, kind: ChannelType) -> Channel {
    Channel {
        id,
        kind,
        parent_id: None,
        name: Some(format!("c{id}")),
        topic: None,
        nsfw: None,
        position: None,
        permission_overwrites: None,
        invitable: None,
        default_auto_archive_duration: None,
        archived: None,
        encoded: Ok(format!("channel {id}")),
    }
}

fn text(id: u64) -> Channel {
    channel(id, ChannelType::GuildText)
}

fn role(id: u64, name: &str) -> Role {
    Role {
        id,
        name: name.to_string(),
        color: 0,
        hoist: false,
        mentionable: false,
        permissions: 0,
        position: 0,
        encoded: Ok(format!("role {id}")),
    }
}

/// A table of mappings, and a service that makes what it is asked for.
struct World {
    rows: Vec<IdMapping>,
    channels: Vec<Channel>,
    roles: Vec<Role>,
    made: Vec<Channel>,
    asked: Vec<String>,
    next_id: u64,
}

impl World {
    fn new(rows: Vec<IdMapping>) -> World {
        World {
            rows,
            channels: Vec::new(),
            roles: Vec::new(),
            made: Vec::new(),
            asked: Vec::new(),
            next_id: 1000,
        }
    }

    fn find(&self, orig_id: u64) -> Option<IdMapping> {
        self.rows.iter().find(|row| row.orig_id == id_key(orig_id)).cloned()
    }

    fn origins(&self) -> Vec<u64> {
        self.rows.iter().map(|row| row.orig_id()).collect()
    }

    fn answer(&mut self, action: &Action) -> Reply {
        let told = format!("{action:?}");
        self.asked.push(told.split([' ', '(']).next().unwrap().to_string());
        match action {
            Action::GetMapping { orig_id } | Action::FindMapping { orig_id } => {
                Reply::Mapping(self.find(*orig_id))
            }
            Action::RegisterMapping(mapping) => {
                self.rows.push(mapping.clone());
                Reply::Done
            }
            Action::UnregisterMapping(mapping) => {
                self.rows.retain(|row| {
                    (&row.orig_id, &row.ref_id) != (&mapping.orig_id, &mapping.ref_id)
                });
                Reply::Done
            }
            Action::GetMappings { orig_guild_id, ref_guild_id } => {
                let keys = (id_key(*orig_guild_id), id_key(*ref_guild_id));
                Reply::Mappings(
                    self.rows
                        .iter()
                        .filter(|row| row.orig_guild_id == keys.0 && row.ref_guild_id == keys.1)
                        .cloned()
                        .collect(),
                )
            }
            Action::GetMappingsInto { ref_guild_id } => {
                let key = id_key(*ref_guild_id);
                Reply::Mappings(
                    self.rows.iter().filter(|row| row.ref_guild_id == key).cloned().collect(),
                )
            }
            Action::GetRegisteredGuilds => {
                let mut rows = Vec::new();
                for row in &self.rows {
                    let guilds = (row.orig_guild_id.clone(), row.ref_guild_id.clone());
                    if !rows.contains(&guilds) {
                        rows.push(guilds);
                    }
                }
                Reply::GuildRows(rows)
            }
            Action::GetGuild(id) => Reply::Guild(Guild { id: *id, features: Vec::new() }),
            Action::GetGuildChannels(1) => Reply::Channels(self.channels.clone()),
            Action::GetGuildChannels(_) => Reply::Channels(self.made.clone()),
            Action::GetRoles(_) => Reply::Roles(self.roles.clone()),
            Action::CreateChannel(request) => {
                self.next_id += 1;
                let made = channel(self.next_id, request.kind);
                self.made.push(made.clone());
                Reply::Channel(made)
            }
            Action::CreateRole { shape, .. } => {
                self.next_id += 1;
                Reply::Role(role(self.next_id, &shape.name))
            }
            _ => Reply::Done,
        }
    }

    /// Runs a task to its end.
    fn run<T: Task>(&mut self, task: T) -> T::Output {
        let (mut task, mut progress) = task.resume(Reply::Begin);
        loop {
            match progress {
                Progress::Done(output) => return output,
                Progress::Failed(_) => panic!("the task has failed"),
                Progress::Perform(action) => {
                    let reply = self.answer(&action);
                    assert!(reply.is_answer_to(action.reply_kind()));
                    (task, progress) = task.resume(reply);
                }
            }
        }
    }
}

fn rows() -> Vec<IdMapping> {
    vec![
        IdMapping::new(&5, &50, &1, &2),
        IdMapping::new(&6, &60, &9, &2),
        IdMapping::new(&7, &70, &1, &3),
        IdMapping::new(&8, &80, &1, &2),
    ]
}

#[test]
fn no_mapping_into_an_unregistered_guild_is_left() {
    let mut world = World::new(rows());
    world.run(unregister_guild_pair(1, 2));
    assert_eq!(world.origins(), vec![7]);
}

#[test]
fn cleaning_up_keeps_what_is_configured_alone() {
    let mut world = World::new(rows());
    world.run(cleanup_unused_mappings(&vec![settings(1, 2)]));
    // The mapping from another guild into the same one goes.
    assert_eq!(world.origins(), vec![5, 8]);
    assert!(!world.asked.contains(&"GetMappingsInto".to_string()));
}

#[test]
fn cleaning_up_for_no_guilds_leaves_nothing() {
    let mut world = World::new(rows());
    world.run(cleanup_unused_mappings(&Vec::new()));
    assert!(world.rows.is_empty());
}

#[test]
fn mappings_of_blacklisted_channels_alone_are_gone() {
    let mut world = World::new(rows());
    let entries = vec![
        Blacklist::Channel(5),
        Blacklist::Channel(7),
        Blacklist::Channel(99),
        Blacklist::Role(6),
    ];
    world.run(unregister_blacklisted_channels(entries));
    assert_eq!(world.origins(), vec![6, 8]);
}

#[test]
fn filtering_keeps_the_new_channels_in_order() {
    let mut world = World::new(rows());
    let channels = vec![text(9), text(5), text(4), text(3), text(8)];
    let kept = world.run(filter_bar_channels(channels, vec![Blacklist::Channel(4)]));
    assert_eq!(kept.iter().map(|channel| channel.id).collect::<Vec<u64>>(), vec![9, 3]);
    assert_eq!(world.origins(), vec![5, 6, 7, 8]);
}

#[test]
fn filtering_keeps_the_new_roles_in_order() {
    let mut world = World::new(rows());
    let roles = vec![role(9, "a"), role(5, "b"), role(4, "c"), role(3, "d")];
    let kept = world.run(filter_bar_roles(roles, vec![Blacklist::Role(4)]));
    assert_eq!(kept.iter().map(|role| role.id).collect::<Vec<u64>>(), vec![9, 3]);
}

#[test]
fn every_channel_that_can_be_held_gets_a_mirror() {
    let mut world = World::new(Vec::new());
    let guild = Guild { id: 2, features: Vec::new() };
    let channels = vec![
        text(5),
        channel(6, ChannelType::GuildDirectory),
        channel(7, ChannelType::GuildStageVoice),
        channel(8, ChannelType::PublicThread),
        channel(9, ChannelType::GuildCategory),
    ];
    let map = world.run(create_channels(channels, &guild));
    let pairs: Vec<(u64, u64, ChannelType)> =
        map.iter().map(|(src, dest)| (src.id, dest.id, dest.kind)).collect();
    assert_eq!(
        pairs,
        vec![
            (5, 1001, ChannelType::GuildText),
            (7, 1002, ChannelType::GuildVoice),
            (9, 1003, ChannelType::GuildCategory),
        ]
    );
    assert_eq!(
        world.asked,
        vec!["CreateChannel", "Sleep", "CreateChannel", "Sleep", "CreateChannel", "Sleep"]
    );
}

#[test]
fn every_role_but_that_of_everyone_gets_a_mirror() {
    let mut world = World::new(Vec::new());
    let roles = vec![role(1, "@everyone"), role(5, "mods"), role(6, "bots")];
    let map = world.run(create_roles(roles, 2));
    let pairs: Vec<(u64, u64)> = map.iter().map(|(src, dest)| (src.id, dest.id)).collect();
    assert_eq!(pairs, vec![(5, 1001), (6, 1002)]);
    assert_eq!(world.asked, vec!["CreateRole", "Sleep", "CreateRole", "Sleep"]);
}

#[test]
fn map_that_was_registered_is_found_again() {
    let mut world = World::new(rows());
    let map = vec![(text(10), text(100)), (text(11), text(110)), (text(12), text(120))];
    world.run(register_channels(&map, (1, 2)));
    assert_eq!(world.origins(), vec![5, 6, 7, 8, 10, 11, 12]);
    let src_channels = vec![text(12), text(10), text(11)];
    let dest_channels = vec![text(110), text(120), text(100)];
    let found = world.run(build_channel_map(src_channels, dest_channels));
    let pairs: Vec<(u64, u64)> = found.iter().map(|(src, dest)| (src.id, dest.id)).collect();
    assert_eq!(pairs, vec![(12, 120), (10, 100), (11, 110)]);
    assert_eq!(world.rows.len(), 7);
}

fn setup() -> GuildSettings {
    let mut settings = settings(1, 2);
    settings.blacklists = vec![Blacklist::Role(22), Blacklist::Channel(12), Blacklist::Channel(6)];
    settings
}

fn populated() -> World {
    let mut rows = rows();
    rows.push(IdMapping::new(&12, &120, &1, &2));
    let mut world = World::new(rows);
    world.channels = vec![
        text(5),
        text(10),
        channel(11, ChannelType::GuildDirectory),
        text(12),
        channel(13, ChannelType::GuildCategory),
    ];
    world.roles = vec![role(1, "@everyone"), role(20, "mods"), role(22, "barred")];
    world
}

#[test]
fn first_setup_settles_everything() {
    let mut world = populated();
    world.run(register_guild_settings(vec![setup()]));
    assert_eq!(world.origins(), vec![5, 8, 10, 13, 20]);
    assert!(world.rows.iter().all(|row| row.orig_guild_id() == 1 && row.ref_guild_id() == 2));
}

#[test]
fn second_setup_changes_nothing() {
    let mut world = populated();
    world.run(register_guild_settings(vec![setup()]));
    assert!(world.asked.contains(&"CreateChannel".to_string()));
    assert!(world.asked.contains(&"CreateRole".to_string()));
    let keys = |rows: &Vec<IdMapping>| {
        rows.iter()
            .map(|row| (row.orig_id.clone(), row.ref_id.clone()))
            .collect::<Vec<(Vec<u8>, Vec<u8>)>>()
    };
    let before = keys(&world.rows);
    world.asked.clear();
    world.run(register_guild_settings(vec![setup()]));
    for change in ["CreateChannel", "CreateRole", "RegisterMapping", "UnregisterMapping"] {
        assert!(!world.asked.contains(&change.to_string()));
    }
    assert_eq!(keys(&world.rows), before);
}

#[test]
fn role_with_the_identifier_of_a_blacklisted_channel_is_made_anew() {
    let mut world = populated();
    world.roles.push(role(6, "unlucky"));
    world.run(register_guild_settings(vec![setup()]));
    world.asked.clear();
    world.run(register_guild_settings(vec![setup()]));
    assert!(world.asked.contains(&"UnregisterMapping".to_string()));
    assert!(world.asked.contains(&"CreateRole".to_string()));
}
