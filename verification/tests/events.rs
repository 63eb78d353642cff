use guild_mirror::blacklist::Blacklist;
use guild_mirror::config::{GuildSettings, MessageRequirements, MessageSettings};
use guild_mirror::errors::{Failure, HandlerError, MappingsError};
use guild_mirror::handlers::event::{handle_event, handle_single_event, Event};
use guild_mirror::model::{Channel, ChannelType, IdMapping, Role};
use guild_mirror::operation::{Action, Progress, Reply, Task};
use guild_mirror::util::roles::{add_role, create_roles, reposition_roles};

fn settings(src_guild_id: u64, dest_guild_id: u64) -> GuildSettings {
    GuildSettings {
        src_guild_id,
        dest_guild_id,
        webhook_username: "Captain Hook".to_string(),
        relay_deletes: true,
        relay_updates: true,
        clone_roles: true,
        message_requirements: MessageRequirements::default(),
        message_settings: MessageSettings::default(),
        blacklists: vec![Blacklist::Channel(77)],
    }
}

fn role(id: u64, name: &str) -> Role {
    Role {
        id,
        name: name.to_string(),
        color: 255,
        hoist: true,
        mentionable: false,
        permissions: 8,
        position: 3,
        encoded: Ok(format!("role {id}")),
    }
}

fn thread(id: u64, parent_id: Option<u64>) -> Channel {
    Channel {
        id,
        kind: ChannelType::PublicThread,
        parent_id,
        name: Some("talk".to_string()),
        topic: None,
        nsfw: None,
        position: None,
        permission_overwrites: None,
        invitable: Some(true),
        default_auto_archive_duration: Some(1440),
        archived: Some(false),
        encoded: Ok(format!("thread {id}")),
    }
}

fn found(orig: u64, reference: u64) -> Reply {
    Reply::Mapping(Some(IdMapping::new(&orig, &reference, &1, &2)))
}

fn begin(event: Event) -> (impl Task<Output = (), Error = HandlerError>, Progress<(), HandlerError>) {
    begin_with(event, settings(1, 2))
}

fn begin_with(
    event: Event,
    settings: GuildSettings,
) -> (impl Task<Output = (), Error = HandlerError>, Progress<(), HandlerError>) {
    let (task, progress) = handle_single_event(event, &settings).resume(Reply::Begin);
    assert!(matches!(progress, Progress::Perform(Action::Connect)));
    task.resume(Reply::Done)
}

#[test]
fn nothing_is_done_about_other_events() {
    let (_, progress) = begin(Event::Other);
    assert!(matches!(progress, Progress::Done(())));
}

#[test]
fn lost_pool_ends_the_handling() {
    let task = handle_single_event(Event::Other, &settings(1, 2));
    let (task, _) = task.resume(Reply::Begin);
    let (_, progress) = task.resume(Reply::Failed(Failure::Pool("closed".to_string())));
    assert!(matches!(progress, Progress::Failed(HandlerError::Pool(d)) if d == "closed"));
}

#[test]
fn deleted_channel_is_forgotten_and_its_mirror_deleted() {
    let (task, progress) = begin(Event::ChannelDelete(10));
    assert!(matches!(progress, Progress::Perform(Action::GetMapping { orig_id: 10 })));
    let (task, progress) = task.resume(found(10, 100));
    assert!(matches!(
        progress,
        Progress::Perform(Action::UnregisterMapping(mapping)) if mapping.ref_id() == 100
    ));
    let (task, progress) = task.resume(Reply::Done);
    assert!(matches!(progress, Progress::Perform(Action::DeleteChannel(100))));
    let (_, progress) = task.resume(Reply::Done);
    assert!(matches!(progress, Progress::Done(())));
}

#[test]
fn mirrors_stay_where_deletions_are_not_relayed() {
    let mut settings = settings(1, 2);
    settings.relay_deletes = false;
    let (task, _) = begin_with(Event::ThreadDelete(10), settings);
    let (task, progress) = task.resume(found(10, 100));
    assert!(matches!(progress, Progress::Perform(Action::UnregisterMapping(_))));
    let (_, progress) = task.resume(Reply::Done);
    assert!(matches!(progress, Progress::Done(())));
}

#[test]
fn deleted_role_is_deleted_from_its_guild() {
    let (task, _) = begin(Event::RoleDelete(10));
    let (task, _) = task.resume(found(10, 100));
    let (_, progress) = task.resume(Reply::Done);
    assert!(matches!(
        progress,
        Progress::Perform(Action::DeleteRole { guild_id: 2, role_id: 100 })
    ));
}

#[test]
fn deletion_of_something_unmirrored_leads_to_nothing() {
    let (task, _) = begin(Event::RoleDelete(10));
    let (_, progress) = task.resume(Reply::Mapping(None));
    assert!(matches!(progress, Progress::Done(())));
}

#[test]
fn new_role_is_created_and_registered() {
    let (task, progress) = begin(Event::RoleCreate(role(10, "mods")));
    match progress {
        Progress::Perform(Action::CreateRole { guild_id, shape }) => {
            assert_eq!(guild_id, 2);
            assert_eq!(shape.color, 255);
            assert!(shape.hoist && !shape.mentionable);
            assert_eq!(shape.name, "mods");
            assert_eq!(shape.permissions, 8);
        }
        _ => panic!("no role is created"),
    }
    let (task, progress) = task.resume(Reply::Role(role(100, "mods")));
    assert!(matches!(progress, Progress::Perform(Action::Sleep(1))));
    let (task, progress) = task.resume(Reply::Done);
    match progress {
        Progress::Perform(Action::RegisterMapping(mapping)) => {
            assert_eq!((mapping.orig_id(), mapping.ref_id()), (10, 100));
            assert_eq!(mapping.src_mapping_data, Some(b"role 10".to_vec()));
        }
        _ => panic!("the role is not registered"),
    }
    let failure = Failure::Interact("gone".to_string());
    let (_, progress) = task.resume(Reply::Failed(failure));
    assert!(matches!(
        progress,
        Progress::Failed(HandlerError::Mapping(MappingsError::Interact(_)))
    ));
}

#[test]
fn new_roles_can_be_left_out() {
    let mut settings = settings(1, 2);
    settings.clone_roles = false;
    let (_, progress) = begin_with(Event::RoleCreate(role(10, "mods")), settings);
    assert!(matches!(progress, Progress::Done(())));
}

#[test]
fn everyone_is_not_created() {
    let roles = vec![role(1, "@everyone"), role(2, "everyone")];
    let (task, progress) = create_roles(roles, 2).resume(Reply::Begin);
    assert!(matches!(
        progress,
        Progress::Perform(Action::CreateRole { shape, .. }) if shape.name == "everyone"
    ));
    let (task, _) = task.resume(Reply::Role(role(20, "everyone")));
    let (_, progress) = task.resume(Reply::Done);
    match progress {
        Progress::Done(map) => {
            assert_eq!(map.len(), 1);
            assert_eq!((map[0].0.id, map[0].1.id), (2, 20));
        }
        _ => panic!("the creation has not ended"),
    }
}

#[test]
fn roles_take_the_positions_of_what_they_mirror() {
    let mut low = role(1, "low");
    low.position = -2;
    let mut map = Vec::new();
    add_role(&mut map, role(5, "high"), role(50, "high"));
    add_role(&mut map, low, role(10, "low"));
    add_role(&mut map, role(5, "high"), role(51, "high"));
    let (task, progress) = reposition_roles(2, &map).resume(Reply::Begin);
    match progress {
        Progress::Perform(Action::PositionRoles { guild_id, positions }) => {
            assert_eq!(guild_id, 2);
            assert_eq!(positions, vec![(51, 3), (10, u64::MAX - 1)]);
        }
        _ => panic!("no positions are set"),
    }
    let (_, progress) = task.resume(Reply::Done);
    assert!(matches!(progress, Progress::Done(())));
    let (_, progress) = reposition_roles(2, &Vec::new()).resume(Reply::Begin);
    assert!(matches!(progress, Progress::Done(())));
}

#[test]
fn changed_role_changes_its_mirror() {
    let (task, _) = begin(Event::RoleUpdate(role(10, "mods")));
    let (task, progress) = task.resume(found(10, 100));
    assert!(matches!(
        progress,
        Progress::Perform(Action::ChangeRole { guild_id: 2, role_id: 100, .. })
    ));
    let (task, progress) = task.resume(Reply::Role(role(100, "mods")));
    assert!(matches!(progress, Progress::Perform(Action::FindMapping { orig_id: 10 })));
    let (task, progress) = task.resume(found(10, 100));
    assert!(matches!(
        progress,
        Progress::Perform(Action::UpdateMapping { new_mapping, .. })
            if new_mapping.dest_mapping_data == Some(b"role 100".to_vec())
    ));
    let (_, progress) = task.resume(Reply::Done);
    assert!(matches!(progress, Progress::Done(())));
}

#[test]
fn unrelayed_changes_of_roles_lead_to_nothing() {
    let mut settings = settings(1, 2);
    settings.relay_updates = false;
    let (_, progress) = begin_with(Event::RoleUpdate(role(10, "mods")), settings);
    assert!(matches!(progress, Progress::Done(())));
}

#[test]
fn new_thread_is_joined_mirrored_and_registered() {
    let (task, progress) = begin(Event::ThreadCreate(thread(10, Some(5))));
    assert!(matches!(progress, Progress::Perform(Action::FindMapping { orig_id: 10 })));
    let (task, progress) = task.resume(Reply::Mapping(None));
    assert!(matches!(progress, Progress::Perform(Action::JoinThread(10))));
    let (task, progress) = task.resume(Reply::Done);
    assert!(matches!(progress, Progress::Perform(Action::GetMapping { orig_id: 5 })));
    let (task, progress) = task.resume(found(5, 50));
    assert!(matches!(progress, Progress::Perform(Action::GetChannel(50))));
    let mut forum = thread(50, None);
    forum.kind = ChannelType::GuildForum;
    let (task, progress) = task.resume(Reply::Channel(forum));
    match progress {
        Progress::Perform(Action::CreateForumPost(post)) => {
            assert_eq!(post.parent_id, 50);
            assert_eq!(post.name, "talk");
            assert_eq!(post.content, "_ _");
            assert_eq!(post.auto_archive_duration, Some(1440));
            assert!(post.embeds.is_none() && post.attachments.is_none());
        }
        _ => panic!("no post is created"),
    }
    let (task, progress) = task.resume(Reply::Thread(thread(100, Some(50))));
    assert!(matches!(
        progress,
        Progress::Perform(Action::RegisterMapping(mapping)) if mapping.ref_id() == 100
    ));
    let (_, progress) = task.resume(Reply::Done);
    assert!(matches!(progress, Progress::Done(())));
}

#[test]
fn barred_or_known_threads_are_left_alone() {
    let (_, progress) = begin(Event::ThreadCreate(thread(10, Some(77))));
    assert!(matches!(progress, Progress::Done(())));
    let (_, progress) = begin(Event::ThreadCreate(thread(10, None)));
    assert!(matches!(progress, Progress::Done(())));
    let (task, _) = begin(Event::ThreadCreate(thread(10, Some(5))));
    let (_, progress) = task.resume(found(10, 100));
    assert!(matches!(progress, Progress::Done(())));
}

#[test]
fn changed_thread_is_joined_and_followed() {
    let (task, progress) = begin(Event::ThreadUpdate(thread(10, Some(5))));
    assert!(matches!(progress, Progress::Perform(Action::JoinThread(10))));
    let (task, progress) = task.resume(Reply::Done);
    assert!(matches!(progress, Progress::Perform(Action::GetMapping { orig_id: 10 })));
    let (task, progress) = task.resume(found(10, 100));
    match progress {
        Progress::Perform(Action::ChangeThread(change)) => {
            assert_eq!(change.thread_id, 100);
            assert_eq!(change.name, Some("talk".to_string()));
            assert_eq!(change.invitable, Some(true));
            assert_eq!(change.auto_archive_duration, Some(1440));
        }
        _ => panic!("nothing is changed"),
    }
    let (_, progress) = task.resume(Reply::Done);
    assert!(matches!(progress, Progress::Done(())));
}

#[test]
fn archived_thread_is_not_joined() {
    let mut archived = thread(10, Some(5));
    archived.archived = Some(true);
    let (_, progress) = begin(Event::ThreadUpdate(archived));
    assert!(matches!(progress, Progress::Perform(Action::GetMapping { orig_id: 10 })));
}

#[test]
fn thread_below_a_blacklisted_channel_is_only_joined() {
    let (task, progress) = begin(Event::ThreadUpdate(thread(10, Some(77))));
    assert!(matches!(progress, Progress::Perform(Action::JoinThread(10))));
    let (_, progress) = task.resume(Reply::Done);
    assert!(matches!(progress, Progress::Done(())));
}

#[test]
fn event_reaches_every_mirror_of_its_guild_in_order() {
    let config = vec![settings(1, 2), settings(3, 4), settings(1, 5)];
    let event = Event::RoleDelete(10);
    let (task, progress) = handle_event(Some(1), &event, &config).resume(Reply::Begin);
    assert!(matches!(progress, Progress::Perform(Action::Connect)));
    let (task, _) = task.resume(Reply::Done);
    let (task, _) = task.resume(found(10, 100));
    let (task, progress) = task.resume(Reply::Done);
    assert!(matches!(
        progress,
        Progress::Perform(Action::DeleteRole { guild_id: 2, role_id: 100 })
    ));
    let (task, progress) = task.resume(Reply::Done);
    assert!(matches!(progress, Progress::Perform(Action::Connect)));
    let (task, _) = task.resume(Reply::Done);
    let (task, _) = task.resume(found(10, 101));
    let (task, progress) = task.resume(Reply::Done);
    assert!(matches!(
        progress,
        Progress::Perform(Action::DeleteRole { guild_id: 5, role_id: 101 })
    ));
    let (_, progress) = task.resume(Reply::Done);
    assert!(matches!(progress, Progress::Done(())));
}

#[test]
fn failure_for_one_mirror_ends_the_event() {
    let config = vec![settings(1, 2), settings(1, 5)];
    let (task, _) = handle_event(Some(1), &Event::RoleDelete(10), &config).resume(Reply::Begin);
    let (_, progress) = task.resume(Reply::Failed(Failure::Pool("closed".to_string())));
    assert!(matches!(progress, Progress::Failed(HandlerError::Pool(_))));
}

#[test]
fn events_of_other_guilds_are_not_handled() {
    let config = vec![settings(1, 2)];
    let (_, progress) = handle_event(Some(9), &Event::RoleDelete(10), &config).resume(Reply::Begin);
    assert!(matches!(progress, Progress::Done(())));
    let (_, progress) = handle_event(None, &Event::RoleDelete(10), &config).resume(Reply::Begin);
    assert!(matches!(progress, Progress::Done(())));
}

#[test]
fn mirror_that_is_not_deleted_need_not_be_readable() {
    let mut settings = settings(1, 2);
    settings.relay_deletes = false;
    let (task, progress) = begin_with(Event::ChannelDelete(10), settings);
    assert!(matches!(progress, Progress::Perform(Action::FindMapping { orig_id: 10 })));
    let (task, progress) = task.resume(found(10, 0));
    assert!(matches!(progress, Progress::Perform(Action::UnregisterMapping(_))));
    let (_, progress) = task.resume(Reply::Done);
    assert!(matches!(progress, Progress::Done(())));
}

fn new_thread_below_text(thread: Channel) -> Progress<(), HandlerError> {
    let (task, _) = begin(Event::ThreadCreate(thread));
    let (task, _) = task.resume(Reply::Mapping(None));
    let (task, _) = task.resume(Reply::Done);
    let (task, _) = task.resume(found(5, 50));
    let mut parent = self::thread(50, None);
    parent.kind = ChannelType::GuildText;
    task.resume(Reply::Channel(parent)).1
}

#[test]
fn threads_out_of_bounds_are_refused() {
    assert!(matches!(
        new_thread_below_text(thread(10, Some(5))),
        Progress::Perform(Action::CreateThread(new)) if new.name == "talk"
    ));
    let mut nameless = thread(10, Some(5));
    nameless.name = Some(String::new());
    assert!(matches!(
        new_thread_below_text(nameless),
        Progress::Failed(HandlerError::ClientChannelValidation(d))
            if d == "the length of the name is invalid"
    ));
    let mut other = thread(10, Some(5));
    other.kind = ChannelType::GuildVoice;
    assert!(matches!(
        new_thread_below_text(other),
        Progress::Failed(HandlerError::ClientChannelValidation(d))
            if d == "GuildVoice is not a thread"
    ));
}

#[test]
fn thread_cannot_be_followed_out_of_bounds() {
    let mut changed = thread(10, Some(5));
    changed.name = Some("x".repeat(101));
    let (task, _) = begin(Event::ThreadUpdate(changed));
    let (task, _) = task.resume(Reply::Done);
    let (_, progress) = task.resume(found(10, 100));
    assert!(matches!(
        progress,
        Progress::Failed(HandlerError::ClientChannelValidation(d))
            if d == "the length of the name is invalid"
    ));
}
