use guild_mirror::config::{GuildSettings, MessageRequirements, MessageSettings};
use guild_mirror::errors::{DatabaseError, Failure, HandlerError, MappingsError};
use guild_mirror::handlers::channel::{mirror_new_channel, relay_channel_update};
use guild_mirror::model::{
    Channel, ChannelType, Guild, GuildFeature, IdMapping, PermissionOverwrite,
};
use guild_mirror::operation::{Action, Progress, Reply, Task};
use guild_mirror::util::channel_map::build_channel_map;
use guild_mirror::util::create::{add_channel, create_channels, mirror_kind};
use guild_mirror::util::filter::is_guild_pair_discrepant;
use guild_mirror::util::mirror::placed_channels;
use guild_mirror::util::register::register_channels;
use guild_mirror::util::remove::delete_everything_guild;
use guild_mirror::util::reposition::reposition_channels;

fn settings() -> GuildSettings {
    GuildSettings {
        src_guild_id: 1,
        dest_guild_id: 2,
        webhook_username: "Captain Hook".to_string(),
        relay_deletes: false,
        relay_updates: true,
        clone_roles: true,
        message_requirements: MessageRequirements::default(),
        message_settings: MessageSettings::default(),
        blacklists: Vec::new(),
    }
}

fn guild(id: u64, community: bool) -> Guild {
    let features = if community {
        vec![GuildFeature::Other, GuildFeature::Community]
    } else {
        vec![GuildFeature::Other]
    };
    Guild { id, features }
}

fn channel(id: u64, kind: ChannelType) -> Channel {
    Channel {
        id,
        kind,
        parent_id: None,
        name: Some(format!("c{id}")),
        topic: None,
        nsfw: None,
        position: None,
        permission_overwrites: None,
        invitable: None,
        default_auto_archive_duration: None,
        archived: None,
        encoded: Ok(format!("channel {id}")),
    }
}

fn found(orig: u64, reference: u64) -> Reply {
    Reply::Mapping(Some(IdMapping::new(&orig, &reference, &1, &2)))
}

fn query_failure() -> Reply {
    Reply::Failed(Failure::Database(DatabaseError::Query("locked".to_string())))
}

#[test]
fn community_holds_every_kind_that_is_mirrored() {
    let kinds = [
        ChannelType::GuildText,
        ChannelType::GuildVoice,
        ChannelType::GuildCategory,
        ChannelType::GuildAnnouncement,
        ChannelType::GuildDirectory,
        ChannelType::GuildForum,
        ChannelType::GuildStageVoice,
    ];
    for kind in kinds {
        assert_eq!(mirror_kind(kind, true), Some(kind));
    }
}

#[test]
fn other_guilds_get_the_closest_kind() {
    assert_eq!(mirror_kind(ChannelType::GuildText, false), Some(ChannelType::GuildText));
    assert_eq!(mirror_kind(ChannelType::GuildForum, false), Some(ChannelType::GuildText));
    assert_eq!(mirror_kind(ChannelType::GuildAnnouncement, false), Some(ChannelType::GuildText));
    assert_eq!(mirror_kind(ChannelType::GuildStageVoice, false), Some(ChannelType::GuildVoice));
    assert_eq!(mirror_kind(ChannelType::GuildDirectory, false), None);
}

#[test]
fn threads_and_private_channels_are_not_created() {
    let kinds = [
        ChannelType::PublicThread,
        ChannelType::PrivateThread,
        ChannelType::AnnouncementThread,
        ChannelType::Private,
        ChannelType::Group,
        ChannelType::Unknown(99),
    ];
    for kind in kinds {
        assert_eq!(mirror_kind(kind, true), None);
        assert_eq!(mirror_kind(kind, false), None);
    }
}

#[test]
fn only_a_lost_community_is_discrepant() {
    assert!(is_guild_pair_discrepant(&guild(1, true), &guild(2, false)));
    assert!(!is_guild_pair_discrepant(&guild(1, false), &guild(2, true)));
    assert!(!is_guild_pair_discrepant(&guild(1, true), &guild(2, true)));
    assert!(!is_guild_pair_discrepant(&guild(1, false), &guild(2, false)));
}

#[test]
fn channels_are_created_one_by_one() {
    let mut first = channel(10, ChannelType::GuildForum);
    first.topic = Some("topic".to_string());
    first.nsfw = Some(true);
    let overwrite = PermissionOverwrite { id: 3, kind: 0, allow: 1, deny: 2 };
    first.permission_overwrites = Some(vec![overwrite]);
    let mut nameless = channel(12, ChannelType::GuildText);
    nameless.name = None;
    let sources = vec![first, channel(11, ChannelType::PublicThread), nameless];
    let (task, progress) = create_channels(sources, &guild(2, false)).resume(Reply::Begin);
    match progress {
        Progress::Perform(Action::CreateChannel(new)) => {
            assert_eq!(new.guild_id, 2);
            assert_eq!(new.name, "c10");
            assert_eq!(new.kind, ChannelType::GuildText);
            assert_eq!(new.nsfw, Some(true));
            assert_eq!(new.topic, Some("topic".to_string()));
            assert_eq!(new.permission_overwrites, Some(vec![overwrite]));
        }
        _ => panic!("nothing is created"),
    }
    let (task, progress) = task.resume(Reply::Channel(channel(100, ChannelType::GuildText)));
    assert!(matches!(progress, Progress::Perform(Action::Sleep(1))));
    let (task, progress) = task.resume(Reply::Done);
    assert!(matches!(
        progress,
        Progress::Perform(Action::CreateChannel(new)) if new.name == "no-name"
    ));
    let (task, _) = task.resume(Reply::Channel(channel(120, ChannelType::GuildText)));
    let (_, progress) = task.resume(Reply::Done);
    match progress {
        Progress::Done(map) => {
            let pairs: Vec<(u64, u64)> = map.iter().map(|pair| (pair.0.id, pair.1.id)).collect();
            assert_eq!(pairs, vec![(10, 100), (12, 120)]);
        }
        _ => panic!("the creation has not ended"),
    }
}

#[test]
fn names_out_of_bounds_are_refused() {
    for length in [0, 101] {
        // The name is looked at first, even where nothing would be created.
        let mut source = channel(10, ChannelType::PublicThread);
        source.name = Some("\u{e9}".repeat(length));
        let (_, progress) = create_channels(vec![source], &guild(2, true)).resume(Reply::Begin);
        match progress {
            Progress::Failed(error) => assert_eq!(
                error.to_string(),
                "Could not validate channel when creating. the length of the name is invalid"
            ),
            _ => panic!("the name is accepted"),
        }
    }
    let mut source = channel(10, ChannelType::GuildText);
    source.name = Some("\u{e9}".repeat(100));
    let (_, progress) = create_channels(vec![source], &guild(2, true)).resume(Reply::Begin);
    assert!(matches!(progress, Progress::Perform(Action::CreateChannel(_))));
}

#[test]
fn topics_out_of_bounds_are_refused() {
    let mut source = channel(10, ChannelType::GuildText);
    source.topic = Some("\u{e9}".repeat(1024));
    let (_, progress) = create_channels(vec![source], &guild(2, true)).resume(Reply::Begin);
    assert!(matches!(progress, Progress::Perform(Action::CreateChannel(_))));
    let mut source = channel(10, ChannelType::GuildText);
    source.topic = Some("x".repeat(1025));
    // A channel that is not mirrored is passed over, whatever its topic.
    let mut passed_over = channel(11, ChannelType::PublicThread);
    passed_over.topic = Some("x".repeat(1025));
    let channels = vec![passed_over, source];
    let (_, progress) = create_channels(channels, &guild(2, true)).resume(Reply::Begin);
    match progress {
        Progress::Failed(error) => assert_eq!(
            error.to_string(),
            "Could not validate channel when creating. the topic is invalid"
        ),
        _ => panic!("the topic is accepted"),
    }
}

#[test]
fn later_mirror_replaces_the_earlier_one() {
    let mut map = Vec::new();
    add_channel(&mut map, channel(1, ChannelType::GuildText), channel(10, ChannelType::GuildText));
    add_channel(&mut map, channel(2, ChannelType::GuildText), channel(20, ChannelType::GuildText));
    add_channel(&mut map, channel(1, ChannelType::GuildText), channel(11, ChannelType::GuildText));
    let mut changed = channel(2, ChannelType::GuildText);
    changed.encoded = Ok("something else".to_string());
    add_channel(&mut map, changed, channel(21, ChannelType::GuildText));
    let pairs: Vec<(u64, u64)> = map.iter().map(|pair| (pair.0.id, pair.1.id)).collect();
    assert_eq!(pairs, vec![(1, 11), (2, 20), (2, 21)]);
}

#[test]
fn pairs_are_registered_in_order() {
    let map = vec![
        (channel(1, ChannelType::GuildText), channel(10, ChannelType::GuildText)),
        (channel(2, ChannelType::GuildText), channel(20, ChannelType::GuildText)),
    ];
    let (task, progress) = register_channels(&map, (5, 6)).resume(Reply::Begin);
    match progress {
        Progress::Perform(Action::RegisterMapping(mapping)) => {
            assert_eq!((mapping.orig_id(), mapping.ref_id()), (1, 10));
            assert_eq!((mapping.orig_guild_id(), mapping.ref_guild_id()), (5, 6));
            assert_eq!(mapping.src_mapping_data, Some(b"channel 1".to_vec()));
            assert_eq!(mapping.dest_mapping_data, Some(b"channel 10".to_vec()));
        }
        _ => panic!("nothing is registered"),
    }
    let (task, progress) = task.resume(Reply::Done);
    assert!(matches!(
        progress,
        Progress::Perform(Action::RegisterMapping(mapping)) if mapping.ref_id() == 20
    ));
    let (_, progress) = task.resume(Reply::Done);
    assert!(matches!(progress, Progress::Done(())));
}

#[test]
fn registration_stops_where_an_object_has_no_text() {
    let mut broken = channel(2, ChannelType::GuildText);
    broken.encoded = Err("no text".to_string());
    let map = vec![
        (channel(1, ChannelType::GuildText), channel(10, ChannelType::GuildText)),
        (broken, channel(20, ChannelType::GuildText)),
    ];
    let (task, _) = register_channels(&map, (5, 6)).resume(Reply::Begin);
    let (_, progress) = task.resume(Reply::Done);
    assert!(matches!(
        progress,
        Progress::Failed(MappingsError::Database(DatabaseError::Serialize(d))) if d == "no text"
    ));
}

#[test]
fn map_holds_what_is_mirrored_among_the_given_channels() {
    let sources = vec![
        channel(1, ChannelType::GuildText),
        channel(2, ChannelType::GuildText),
        channel(3, ChannelType::GuildText),
    ];
    let mut twin = channel(10, ChannelType::GuildText);
    twin.name = Some("twin".to_string());
    let dests = vec![channel(10, ChannelType::GuildText), twin];
    let (task, progress) = build_channel_map(sources, dests).resume(Reply::Begin);
    assert!(matches!(progress, Progress::Perform(Action::GetMapping { orig_id: 1 })));
    let (task, _) = task.resume(found(1, 10));
    let (task, _) = task.resume(Reply::Mapping(None));
    let (_, progress) = task.resume(found(3, 30));
    match progress {
        Progress::Done(map) => {
            assert_eq!(map.len(), 1);
            assert_eq!(map[0].0.id, 1);
            assert_eq!(map[0].1.name, Some("twin".to_string()));
        }
        _ => panic!("the map is not ready"),
    }
}

#[test]
fn first_failed_lookup_is_told_after_the_others() {
    let sources = vec![
        channel(1, ChannelType::GuildText),
        channel(2, ChannelType::GuildText),
        channel(3, ChannelType::GuildText),
    ];
    let dests = vec![channel(30, ChannelType::GuildText)];
    let (task, _) = build_channel_map(sources, dests).resume(Reply::Begin);
    let (task, progress) = task.resume(query_failure());
    assert!(matches!(progress, Progress::Perform(Action::GetMapping { orig_id: 2 })));
    let other = DatabaseError::Query("other".to_string());
    let (task, progress) = task.resume(Reply::Failed(Failure::Database(other)));
    assert!(matches!(progress, Progress::Perform(Action::GetMapping { orig_id: 3 })));
    let (_, progress) = task.resume(found(3, 30));
    assert!(matches!(
        progress,
        Progress::Failed(MappingsError::Database(DatabaseError::Query(d))) if d == "locked"
    ));
}

#[test]
fn lost_connection_ends_the_map_at_once() {
    let sources = vec![channel(1, ChannelType::GuildText), channel(2, ChannelType::GuildText)];
    let (task, _) = build_channel_map(sources, Vec::new()).resume(Reply::Begin);
    let (_, progress) = task.resume(Reply::Failed(Failure::Interact("gone".to_string())));
    assert!(matches!(progress, Progress::Failed(MappingsError::Interact(d)) if d == "gone"));
}

#[test]
fn new_channels_and_categories_are_placed() {
    let made = vec![(channel(1, ChannelType::GuildText), channel(10, ChannelType::GuildText))];
    let mut renamed = channel(10, ChannelType::GuildText);
    renamed.encoded = Ok("channel 10, renamed".to_string());
    let listed = vec![
        channel(9, ChannelType::GuildCategory),
        channel(10, ChannelType::GuildText),
        channel(11, ChannelType::GuildText),
        renamed,
    ];
    let placed = placed_channels(listed, &made);
    let ids: Vec<u64> = placed.iter().map(|channel| channel.id).collect();
    assert_eq!(ids, vec![9, 10]);
}

#[test]
fn channels_move_into_categories_and_into_order() {
    let mut inside = channel(2, ChannelType::GuildText);
    inside.parent_id = Some(1);
    inside.position = Some(4);
    let mut elsewhere = channel(3, ChannelType::GuildText);
    elsewhere.parent_id = Some(99);
    let mut category = channel(1, ChannelType::GuildCategory);
    category.position = Some(-1);
    let map = vec![
        (inside, channel(20, ChannelType::GuildText)),
        (category, channel(10, ChannelType::GuildCategory)),
        (elsewhere, channel(30, ChannelType::GuildText)),
    ];
    let (task, progress) = reposition_channels(2, &map).resume(Reply::Begin);
    assert!(matches!(
        progress,
        Progress::Perform(Action::MoveChannel { channel_id: 20, parent_id: 10 })
    ));
    let (task, progress) = task.resume(Reply::Done);
    assert!(matches!(progress, Progress::Perform(Action::Sleep(1))));
    let (task, progress) = task.resume(Reply::Done);
    match progress {
        Progress::Perform(Action::PositionChannels { guild_id, positions }) => {
            assert_eq!(guild_id, 2);
            assert_eq!(positions, vec![(20, 4), (10, u64::MAX)]);
        }
        _ => panic!("no positions are set"),
    }
    let (_, progress) = task.resume(Reply::Done);
    assert!(matches!(progress, Progress::Done(())));
}

#[test]
fn nothing_to_place_is_done_at_once() {
    let (_, progress) = reposition_channels(2, &Vec::new()).resume(Reply::Begin);
    assert!(matches!(progress, Progress::Done(())));
}

#[test]
fn category_that_became_something_else_takes_nothing_in() {
    let mut inside = channel(2, ChannelType::GuildText);
    inside.parent_id = Some(1);
    let map = vec![
        (channel(1, ChannelType::GuildCategory), channel(10, ChannelType::GuildText)),
        (inside, channel(20, ChannelType::GuildText)),
    ];
    let (_, progress) = reposition_channels(2, &map).resume(Reply::Begin);
    assert!(matches!(
        progress,
        Progress::Perform(Action::PositionChannels { positions, .. }) if positions.is_empty()
    ));
}

#[test]
fn new_channel_is_mirrored_registered_and_placed() {
    let task = mirror_new_channel(channel(10, ChannelType::GuildText), &settings());
    let (task, progress) = task.resume(Reply::Begin);
    assert!(matches!(progress, Progress::Perform(Action::GetGuild(2))));
    let (task, progress) = task.resume(Reply::Guild(guild(2, false)));
    assert!(matches!(progress, Progress::Perform(Action::GetGuildChannels(1))));
    let listed = vec![channel(10, ChannelType::GuildText)];
    let (task, progress) = task.resume(Reply::Channels(listed));
    assert!(matches!(progress, Progress::Perform(Action::CreateChannel(_))));
    let (task, progress) = task.resume(Reply::Channel(channel(100, ChannelType::GuildText)));
    assert!(matches!(progress, Progress::Perform(Action::Sleep(1))));
    let (task, progress) = task.resume(Reply::Done);
    assert!(matches!(progress, Progress::Perform(Action::RegisterMapping(_))));
    let (task, progress) = task.resume(Reply::Done);
    assert!(matches!(progress, Progress::Perform(Action::GetGuildChannels(2))));
    let listed = vec![channel(100, ChannelType::GuildText)];
    let (task, progress) = task.resume(Reply::Channels(listed));
    assert!(matches!(progress, Progress::Perform(Action::GetMapping { orig_id: 10 })));
    let (task, progress) = task.resume(found(10, 100));
    assert!(matches!(
        progress,
        Progress::Perform(Action::PositionChannels { guild_id: 2, .. })
    ));
    let (_, progress) = task.resume(Reply::Done);
    assert!(matches!(progress, Progress::Done(())));
}

#[test]
fn failures_of_the_mirroring_are_told_apart() {
    let task = mirror_new_channel(channel(10, ChannelType::GuildText), &settings());
    let (task, _) = task.resume(Reply::Begin);
    let (task, _) = task.resume(Reply::Guild(guild(2, false)));
    let (task, _) = task.resume(Reply::Channels(Vec::new()));
    let failure = Failure::ClientSerde("d".to_string());
    let (_, progress) = task.resume(Reply::Failed(failure));
    assert!(matches!(
        progress,
        Progress::Failed(HandlerError::Mapping(MappingsError::ClientSerde(_)))
    ));

    let task = mirror_new_channel(channel(10, ChannelType::PublicThread), &settings());
    let (task, _) = task.resume(Reply::Begin);
    let (task, _) = task.resume(Reply::Guild(guild(2, false)));
    let (task, progress) = task.resume(Reply::Channels(Vec::new()));
    assert!(matches!(progress, Progress::Perform(Action::GetGuildChannels(2))));
    let failure = Failure::ClientSerde("d".to_string());
    let (_, progress) = task.resume(Reply::Failed(failure));
    assert!(matches!(progress, Progress::Failed(HandlerError::ClientSerde(_))));
}

#[test]
fn changed_channel_changes_its_mirror() {
    let mut changed = channel(10, ChannelType::GuildText);
    changed.parent_id = Some(5);
    changed.position = Some(3);
    let (task, progress) = relay_channel_update(changed, &settings()).resume(Reply::Begin);
    assert!(matches!(progress, Progress::Perform(Action::GetMapping { orig_id: 10 })));
    let (task, progress) = task.resume(found(10, 100));
    assert!(matches!(progress, Progress::Perform(Action::GetMapping { orig_id: 5 })));
    let (task, progress) = task.resume(found(5, 50));
    match progress {
        Progress::Perform(Action::ChangeChannel(change)) => {
            assert_eq!(change.channel_id, 100);
            assert_eq!(change.name, Some("c10".to_string()));
            assert_eq!(change.position, Some(3));
            assert_eq!(change.kind, ChannelType::GuildText);
            assert_eq!(change.parent_id, Some(50));
        }
        _ => panic!("nothing is changed"),
    }
    let (task, progress) = task.resume(Reply::Channel(channel(100, ChannelType::GuildText)));
    assert!(matches!(progress, Progress::Perform(Action::FindMapping { orig_id: 10 })));
    let (task, progress) = task.resume(found(10, 100));
    match progress {
        Progress::Perform(Action::UpdateMapping { mapping, new_mapping }) => {
            assert_eq!(mapping.orig_id(), new_mapping.orig_id());
            assert_eq!(mapping.ref_id(), new_mapping.ref_id());
            assert_eq!(mapping.src_mapping_data, None);
            assert_eq!(new_mapping.src_mapping_data, Some(b"channel 10".to_vec()));
            assert_eq!(new_mapping.dest_mapping_data, Some(b"channel 100".to_vec()));
        }
        _ => panic!("the mapping is not replaced"),
    }
    let (_, progress) = task.resume(Reply::Done);
    assert!(matches!(progress, Progress::Done(())));
}

#[test]
fn channel_without_a_parent_leaves_its_category() {
    let changed = channel(10, ChannelType::GuildText);
    let (task, _) = relay_channel_update(changed, &settings()).resume(Reply::Begin);
    let (_, progress) = task.resume(found(10, 100));
    assert!(matches!(
        progress,
        Progress::Perform(Action::ChangeChannel(change)) if change.parent_id.is_none()
    ));
}

#[test]
fn unrelayed_changes_of_channels_lead_to_nothing() {
    let mut settings = settings();
    settings.relay_updates = false;
    let changed = channel(10, ChannelType::GuildText);
    let (_, progress) = relay_channel_update(changed, &settings).resume(Reply::Begin);
    assert!(matches!(progress, Progress::Done(())));
}

#[test]
fn guild_is_emptied_channels_first() {
    let (task, progress) = delete_everything_guild(7).resume(Reply::Begin);
    assert!(matches!(progress, Progress::Perform(Action::GetGuildChannels(7))));
    let listed = vec![channel(1, ChannelType::GuildText), channel(2, ChannelType::GuildText)];
    let (task, progress) = task.resume(Reply::Channels(listed));
    assert!(matches!(progress, Progress::Perform(Action::GetRoles(7))));
    let (task, progress) = task.resume(Reply::Roles(Vec::new()));
    assert!(matches!(progress, Progress::Perform(Action::DeleteChannel(1))));
    let (task, progress) = task.resume(Reply::Done);
    assert!(matches!(progress, Progress::Perform(Action::Sleep(1))));
    let (task, progress) = task.resume(Reply::Done);
    assert!(matches!(progress, Progress::Perform(Action::DeleteChannel(2))));
    let (task, _) = task.resume(Reply::Done);
    let (_, progress) = task.resume(Reply::Done);
    assert!(matches!(progress, Progress::Done(())));
}

#[test]
fn mirror_cannot_follow_out_of_bounds() {
    let mut long_topic = channel(10, ChannelType::GuildText);
    long_topic.topic = Some("x".repeat(1025));
    let mut both = channel(10, ChannelType::GuildText);
    both.topic = Some("x".repeat(1025));
    both.name = Some("x".repeat(101));
    for (changed, reason) in [
        (long_topic, "the topic is invalid"),
        (both, "the length of the name is invalid"),
    ] {
        let (task, _) = relay_channel_update(changed, &settings()).resume(Reply::Begin);
        let (_, progress) = task.resume(found(10, 100));
        assert!(matches!(
            progress,
            Progress::Failed(HandlerError::ClientChannelValidation(d)) if d == reason
        ));
    }
}
