use guild_mirror::blacklist::Blacklist;
use guild_mirror::config::{GuildSettings, MessageRequirements, MessageSettings};
use guild_mirror::errors::{DatabaseError, Failure, MappingsError};
use guild_mirror::keys::id_key;
use guild_mirror::model::{Channel, ChannelType, Guild, IdMapping, Role};
use guild_mirror::operation::{Action, Progress, Reply, ReplyKind, Task};
use guild_mirror::util::cleanup::{
    cleanup_unused_mappings, forget_pair, unregister_blacklisted_channels, unregister_guild_pair,
};
use guild_mirror::util::filter::{
    filter_bar_channels, filter_bar_roles, filter_blacklisted_threads, join_threads,
};
use guild_mirror::util::setup::register_guild_settings;

fn settings(src_guild_id: u64, dest_guild_id: u64) -> GuildSettings {
    GuildSettings {
        src_guild_id,
        dest_guild_id,
        webhook_username: "Captain Hook".to_string(),
        relay_deletes: false,
        relay_updates: false,
        clone_roles: true,
        message_requirements: MessageRequirements::default(),
        message_settings: MessageSettings::default(),
        blacklists: Vec::new(),
    }
}

fn channel(id: u64) -> Channel {
    Channel {
        id,
        kind: ChannelType::GuildText,
        parent_id: None,
        name: Some(format!("c{id}")),
        topic: None,
        nsfw: None,
        position: None,
        permission_overwrites: None,
        invitable: None,
        default_auto_archive_duration: None,
        archived: None,
        encoded: Ok(format!("channel {id}")),
    }
}

fn role(id: u64) -> Role {
    Role {
        id,
        name: format!("r{id}"),
        color: 0,
        hoist: false,
        mentionable: false,
        permissions: 0,
        position: 0,
        encoded: Ok(format!("role {id}")),
    }
}

fn guild(id: u64) -> Reply {
    Reply::Guild(Guild { id, features: Vec::new() })
}

fn found(orig: u64, reference: u64) -> Reply {
    Reply::Mapping(Some(IdMapping::new(&orig, &reference, &1, &2)))
}

fn query_failure() -> Reply {
    Reply::Failed(Failure::Database(DatabaseError::Query("locked".to_string())))
}

fn ids(progress: Progress<Vec<Channel>, MappingsError>) -> Vec<u64> {
    match progress {
        Progress::Done(channels) => channels.iter().map(|channel| channel.id).collect(),
        _ => panic!("the task has not ended"),
    }
}

#[test]
fn all_mappings_of_a_pair_are_unregistered() {
    let (task, progress) = unregister_guild_pair(1, 2).resume(Reply::Begin);
    assert!(matches!(
        progress,
        Progress::Perform(Action::GetMappingsInto { ref_guild_id: 2 })
    ));
    // Whatever guild they lead from.
    let mappings = vec![IdMapping::new(&5, &50, &1, &2), IdMapping::new(&6, &60, &9, &2)];
    let (task, progress) = task.resume(Reply::Mappings(mappings));
    assert!(matches!(
        progress,
        Progress::Perform(Action::UnregisterMapping(mapping)) if mapping.orig_id() == 5
    ));
    let (task, progress) = task.resume(Reply::Done);
    assert!(matches!(
        progress,
        Progress::Perform(Action::UnregisterMapping(mapping)) if mapping.orig_id() == 6
    ));
    let (_, progress) = task.resume(Reply::Done);
    assert!(matches!(progress, Progress::Done(())));
}

#[test]
fn one_pair_can_be_forgotten_alone() {
    let (_, progress) = forget_pair(1, 2).resume(Reply::Begin);
    assert!(matches!(
        progress,
        Progress::Perform(Action::GetMappings { orig_guild_id: 1, ref_guild_id: 2 })
    ));
}

#[test]
fn pair_without_mappings_is_done_at_once() {
    let (task, _) = unregister_guild_pair(1, 2).resume(Reply::Begin);
    let (_, progress) = task.resume(Reply::Mappings(Vec::new()));
    assert!(matches!(progress, Progress::Done(())));
}

#[test]
fn only_guilds_that_are_not_configured_are_forgotten() {
    let task = cleanup_unused_mappings(&vec![settings(1, 2)]);
    let (task, progress) = task.resume(Reply::Begin);
    assert!(matches!(progress, Progress::Perform(Action::GetRegisteredGuilds)));
    let rows = vec![
        (id_key(1), id_key(2)),
        (id_key(1), id_key(3)),
        (id_key(1), id_key(2)),
        (id_key(1), id_key(3)),
    ];
    let (task, progress) = task.resume(Reply::GuildRows(rows));
    assert!(matches!(
        progress,
        Progress::Perform(Action::GetMappings { orig_guild_id: 1, ref_guild_id: 3 })
    ));
    let (task, progress) = task.resume(Reply::Mappings(vec![IdMapping::new(&5, &50, &1, &3)]));
    assert!(matches!(progress, Progress::Perform(Action::UnregisterMapping(_))));
    let (task, progress) = task.resume(Reply::Done);
    assert!(matches!(
        progress,
        Progress::Perform(Action::GetMappings { orig_guild_id: 1, ref_guild_id: 3 })
    ));
    let (_, progress) = task.resume(Reply::Mappings(Vec::new()));
    assert!(matches!(progress, Progress::Done(())));
}

#[test]
fn blacklisted_channels_are_forgotten() {
    let entries = vec![Blacklist::Channel(5), Blacklist::Channel(6), Blacklist::User(7)];
    let (task, progress) = unregister_blacklisted_channels(entries).resume(Reply::Begin);
    assert!(matches!(progress, Progress::Perform(Action::FindMapping { orig_id: 5 })));
    let (task, progress) = task.resume(Reply::Mapping(None));
    assert!(matches!(progress, Progress::Perform(Action::FindMapping { orig_id: 6 })));
    let (task, progress) = task.resume(found(6, 60));
    assert!(matches!(
        progress,
        Progress::Perform(Action::UnregisterMapping(mapping)) if mapping.ref_id() == 60
    ));
    let (_, progress) = task.resume(Reply::Done);
    assert!(matches!(progress, Progress::Done(())));
}

#[test]
fn blacklisted_and_registered_channels_are_left_out() {
    let channels = vec![channel(1), channel(2), channel(3), channel(4)];
    let blacklists = vec![Blacklist::Channel(2), Blacklist::Role(1)];
    let (task, progress) = filter_bar_channels(channels, blacklists).resume(Reply::Begin);
    assert!(matches!(progress, Progress::Perform(Action::FindMapping { orig_id: 1 })));
    let (task, _) = task.resume(Reply::Mapping(None));
    let (task, _) = task.resume(Reply::Mapping(None));
    let (task, _) = task.resume(found(3, 30));
    // A table that cannot be read registers nothing.
    let (_, progress) = task.resume(query_failure());
    assert_eq!(ids(progress), vec![1, 4]);
}

#[test]
fn mapping_that_leads_nowhere_still_registers() {
    let nowhere = IdMapping::new(&1, &0, &1, &2);
    let (task, _) = filter_bar_channels(vec![channel(1)], Vec::new()).resume(Reply::Begin);
    let (_, progress) = task.resume(Reply::Mapping(Some(nowhere)));
    assert!(ids(progress).is_empty());
}

#[test]
fn lost_connection_ends_the_filtering() {
    let (task, _) = filter_bar_channels(vec![channel(1)], Vec::new()).resume(Reply::Begin);
    let (_, progress) = task.resume(Reply::Failed(Failure::Interact("gone".to_string())));
    assert!(matches!(progress, Progress::Failed(MappingsError::Interact(_))));
}

#[test]
fn blacklisted_and_registered_roles_are_left_out() {
    let roles = vec![role(1), role(2), role(3)];
    let blacklists = vec![Blacklist::Channel(1), Blacklist::Role(2)];
    let (task, _) = filter_bar_roles(roles, blacklists).resume(Reply::Begin);
    let (task, _) = task.resume(Reply::Mapping(None));
    let (task, _) = task.resume(query_failure());
    let (_, progress) = task.resume(found(3, 30));
    match progress {
        Progress::Done(kept) => {
            assert_eq!(kept.iter().map(|role| role.id).collect::<Vec<u64>>(), vec![1]);
        }
        _ => panic!("the filtering has not ended"),
    }
}

#[test]
fn threads_below_blacklisted_channels_are_left_out() {
    let mut below = channel(1);
    below.parent_id = Some(5);
    let mut barred = channel(2);
    barred.parent_id = Some(6);
    let threads = vec![below, barred, channel(3)];
    let kept = filter_blacklisted_threads(&vec![Blacklist::Channel(6)], threads);
    assert_eq!(kept.iter().map(|thread| thread.id).collect::<Vec<u64>>(), vec![1]);
}

#[test]
fn threads_are_joined_one_by_one() {
    let (task, progress) = join_threads(vec![channel(1), channel(2)]).resume(Reply::Begin);
    assert!(matches!(progress, Progress::Perform(Action::JoinThread(1))));
    let (task, progress) = task.resume(Reply::Done);
    assert!(matches!(progress, Progress::Perform(Action::Sleep(1))));
    let (task, progress) = task.resume(Reply::Done);
    assert!(matches!(progress, Progress::Perform(Action::JoinThread(2))));
    let (task, _) = task.resume(Reply::Done);
    let (_, progress) = task.resume(Reply::Done);
    assert_eq!(ids(progress), vec![1, 2]);
}

/// Runs a whole setup against canned answers, and tells the operations that were asked for.
fn run(
    guilds: Vec<GuildSettings>,
    mut answer: impl FnMut(&Action) -> Reply,
) -> (Vec<String>, Option<MappingsError>) {
    let mut asked = Vec::new();
    let (mut task, mut progress) = register_guild_settings(guilds).resume(Reply::Begin);
    loop {
        match progress {
            Progress::Done(()) => return (asked, None),
            Progress::Failed(error) => return (asked, Some(error)),
            Progress::Perform(action) => {
                let told = format!("{action:?}");
                asked.push(told.split([' ', '(']).next().unwrap().to_string());
                let reply = answer(&action);
                assert!(reply.is_answer_to(action.reply_kind()));
                (task, progress) = task.resume(reply);
            }
        }
    }
}

fn answer(action: &Action) -> Reply {
    match action {
        Action::GetGuild(id) => guild(*id),
        Action::GetGuildChannels(1) => Reply::Channels(vec![channel(10), channel(11)]),
        Action::GetGuildChannels(_) => Reply::Channels(vec![channel(100)]),
        Action::GetRoles(_) => Reply::Roles(vec![role(20)]),
        Action::GetRegisteredGuilds => Reply::GuildRows(Vec::new()),
        Action::GetMapping { orig_id: 11 } | Action::FindMapping { orig_id: 11 } => found(11, 110),
        Action::GetMapping { .. } | Action::FindMapping { .. } => Reply::Mapping(None),
        Action::CreateChannel(_) => Reply::Channel(channel(100)),
        Action::CreateRole { .. } => Reply::Role(role(200)),
        _ => Reply::Done,
    }
}

#[test]
fn mirror_is_set_up() {
    let (asked, error) = run(vec![settings(1, 2)], answer);
    assert!(error.is_none());
    assert_eq!(
        asked,
        vec![
            "Connect",
            "GetRegisteredGuilds",
            "Connect",
            "GetGuild",
            "GetGuild",
            "Sleep",
            "GetGuildChannels",
            "GetRoles",
            "Sleep",
            "FindMapping",
            "FindMapping",
            "FindMapping",
            "CreateChannel",
            "Sleep",
            "RegisterMapping",
            "GetGuildChannels",
            "GetMapping",
            "GetMapping",
            "CreateRole",
            "Sleep",
            "RegisterMapping",
        ]
    );
}

#[test]
fn guild_is_not_set_up_as_its_own_mirror() {
    let (asked, error) = run(vec![settings(1, 1)], answer);
    assert!(error.is_none());
    assert_eq!(asked.last().unwrap(), "Sleep");
    assert!(!asked.contains(&"CreateChannel".to_string()));
}

#[test]
fn roles_can_be_left_out_of_the_setup() {
    let mut settings = settings(1, 2);
    settings.clone_roles = false;
    let (asked, error) = run(vec![settings], answer);
    assert!(error.is_none());
    assert!(asked.contains(&"CreateChannel".to_string()));
    assert!(!asked.contains(&"CreateRole".to_string()));
}

#[test]
fn failure_ends_the_whole_setup() {
    let (asked, error) = run(vec![settings(1, 2), settings(1, 3)], |action| match action {
        Action::CreateChannel(_) => Reply::Failed(Failure::ClientSerde("d".to_string())),
        _ => answer(action),
    });
    assert!(matches!(error, Some(MappingsError::ClientSerde(_))));
    assert_eq!(asked.last().unwrap(), "CreateChannel");
}

#[test]
fn failed_listing_is_told_as_it_is() {
    let (_, error) = run(vec![settings(1, 2)], |action| match action {
        Action::GetGuildChannels(2) => Reply::Failed(Failure::ClientSerde("d".to_string())),
        _ => answer(action),
    });
    assert!(matches!(error, Some(MappingsError::ClientSerde(_))));
}

#[test]
fn answers_belong_to_their_operations() {
    assert!(Reply::Done.is_answer_to(ReplyKind::Done));
    assert!(!Reply::Done.is_answer_to(ReplyKind::Mapping));
    assert!(Reply::Failed(Failure::Pool("d".to_string())).is_answer_to(ReplyKind::Done));
    assert!(!Reply::Failed(Failure::Pool("d".to_string())).is_answer_to(ReplyKind::Begin));
    let download = Failure::ReqwestError("d".to_string());
    assert!(Reply::Failed(download).is_answer_to(ReplyKind::Bytes));
    let download = Failure::ReqwestError("d".to_string());
    assert!(!Reply::Failed(download).is_answer_to(ReplyKind::Mapping));
    // Only where it is read need a mapping lead anywhere.
    assert!(Reply::Mapping(Some(IdMapping::new(&0, &5, &1, &2))).is_answer_to(ReplyKind::Mapping));
    let nowhere = Reply::Mapping(Some(IdMapping::new(&5, &0, &1, &2)));
    assert!(!nowhere.is_answer_to(ReplyKind::Mapping));
    assert!(nowhere.is_answer_to(ReplyKind::Record));
    assert!(!nowhere.is_answer_to(ReplyKind::Done));
    assert!(Reply::Mapping(None).is_answer_to(ReplyKind::Record));
    assert!(!Reply::GuildRows(vec![(Vec::new(), id_key(1))]).is_answer_to(ReplyKind::GuildRows));
    assert!(!Reply::Time { secs: u64::MAX, subsec_nanos: 0 }.is_answer_to(ReplyKind::Time));
    assert!(Reply::Time { secs: 1, subsec_nanos: 999_999_999 }.is_answer_to(ReplyKind::Time));
}
