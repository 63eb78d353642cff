//! What becomes of channels, roles and threads when something happens to them.
use super::{begins, keeps, leads, mirror_id, same_overwrites};
use crate::blacklist::Blacklist;
use crate::config::GuildSettings;
use crate::errors::HandlerError;
use crate::handlers::event::{Event, HandleSingleEvent};
use crate::model::{Channel, IdMapping, Role};
use crate::operation::{is_run, runs_end, Action, Progress, Reply, RoleShape, Task};
use vstd::prelude::*;

verus! {

/// Whether a channel has a name and a topic that a channel can have, as far as it has them.
pub open spec fn is_within_limits(channel: Channel) -> bool {
    &&& channel.name matches Some(name) ==> 1 <= name@.len() <= 100
    &&& channel.topic matches Some(topic) ==> topic@.len() <= 1024
}

/// Where changes are relayed, the mirror of a channel that changed is found, and the request to
/// change it tells everything that the channel tells: its name, its topic, whether it is not
/// safe for work, its permissions in their order, its position and its kind. It is put below the
/// mirror of the channel's parent, where there is one.
pub proof fn changed_channel_is_followed(
    tasks: Seq<HandleSingleEvent>,
    replies: Seq<Reply>,
    progress: Seq<Progress<(), HandlerError>>,
    settings: GuildSettings,
    channel: Channel,
    found: IdMapping,
    parent: Option<IdMapping>,
    k: int,
)
    requires
        is_run(tasks, replies, progress),
        begins(tasks[0], Event::ChannelUpdate(channel), settings),
        settings.relay_updates,
        replies.len() > k,
        replies[1] is Done,
        replies[2] == Reply::Mapping(Some(found)),
        match channel.parent_id {
            Some(_) => k == 3 && replies[3] == Reply::Mapping(parent),
            None => k == 2 && parent is None,
        },
        is_within_limits(channel),
    ensures
        progress[1].performs(Action::GetMapping { orig_id: channel.id }),
        channel.parent_id matches Some(parent_id) ==> progress[2].performs(
            Action::GetMapping { orig_id: parent_id },
        ),
        progress[k] matches Progress::Perform(Action::ChangeChannel(change)) && {
            &&& change.channel_id == mirror_id(found)
            &&& change.name == channel.name
            &&& change.topic == channel.topic
            &&& change.nsfw == channel.nsfw
            &&& same_overwrites(change.permission_overwrites, channel.permission_overwrites)
            &&& match channel.position {
                Some(position) => change.position == Some(position as u64),
                None => change.position is None,
            }
            &&& change.kind == channel.kind
            &&& match parent {
                Some(parent) => change.parent_id == Some(mirror_id(parent)),
                None => change.parent_id is None,
            }
        },
{
    let first = replies[0];
    let second = replies[1];
    let third = replies[2];
    let last = replies[k];
}

/// After the mirror of a channel was changed, the mapping of the channel keeps both as they are
/// now, and leads where it led.
pub proof fn changed_channel_is_kept(
    tasks: Seq<HandleSingleEvent>,
    replies: Seq<Reply>,
    progress: Seq<Progress<(), HandlerError>>,
    settings: GuildSettings,
    channel: Channel,
    dest_channel: Channel,
    found: IdMapping,
    k: int,
)
    requires
        is_run(tasks, replies, progress),
        begins(tasks[0], Event::ChannelUpdate(channel), settings),
        k == 2 || k == 3,
        replies.len() == k + 4,
        progress[k] is Perform,
        progress[k]->Perform_0 is ChangeChannel,
        replies[k + 1] == Reply::Channel(dest_channel),
        replies[k + 2] == Reply::Mapping(Some(found)),
        replies[k + 3] is Done,
        channel.encoded is Ok,
        dest_channel.encoded is Ok,
    ensures
        progress[k + 1].performs(Action::FindMapping { orig_id: channel.id }),
        progress[k + 2] matches Progress::Perform(Action::UpdateMapping { mapping, new_mapping })
            && {
            &&& mapping@ == found@
            &&& new_mapping@.orig_id == found@.orig_id
            &&& new_mapping@.ref_id == found@.ref_id
            &&& new_mapping@.orig_guild_id == found@.orig_guild_id
            &&& new_mapping@.ref_guild_id == found@.ref_guild_id
            &&& keeps(new_mapping@, channel.encoded, dest_channel.encoded)
        },
        progress[k + 3].yields(()),
{
    let a = replies[0];
    let b = replies[1];
    let c = replies[2];
    let d = replies[3];
    let e = replies[4];
    let f = replies[5];
    let g = replies[k + 3];
}

/// Whether an event tells that something was deleted, and what.
pub open spec fn deletes(event: Event, id: u64) -> bool {
    event == Event::ChannelDelete(id) || event == Event::ThreadDelete(id) || event
        == Event::RoleDelete(id)
}

/// What was deleted is looked up and its mapping, where there is one, unregistered. Where
/// deletions are relayed, its mirror, and nothing else, is then deleted: a role from the
/// mirroring guild, a channel or a thread by itself. Where they are not, nothing more is done.
pub proof fn deletion_is_relayed(
    tasks: Seq<HandleSingleEvent>,
    replies: Seq<Reply>,
    progress: Seq<Progress<(), HandlerError>>,
    settings: GuildSettings,
    event: Event,
    id: u64,
    found: IdMapping,
)
    requires
        is_run(tasks, replies, progress),
        begins(tasks[0], event, settings),
        deletes(event, id),
        replies.len() == (if settings.relay_deletes {
            5int
        } else {
            4int
        }),
        replies[1] is Done,
        replies[2] == Reply::Mapping(Some(found)),
        replies[3] is Done,
        settings.relay_deletes ==> replies[4] is Done,
    ensures
        progress[1] == Progress::<(), HandlerError>::Perform(
            if settings.relay_deletes {
                Action::GetMapping { orig_id: id }
            } else {
                Action::FindMapping { orig_id: id }
            },
        ),
        progress[2] matches Progress::Perform(Action::UnregisterMapping(mapping)) && mapping@
            == found@,
        if settings.relay_deletes {
            &&& progress[3].performs(
                if event is RoleDelete {
                    Action::DeleteRole {
                        guild_id: settings.dest_guild_id,
                        role_id: mirror_id(found),
                    }
                } else {
                    Action::DeleteChannel(mirror_id(found))
                },
            )
            &&& progress[4].yields(())
        } else {
            progress[3].yields(())
        },
{
    let a = replies[0];
    let b = replies[1];
    let c = replies[2];
    let d = replies[3];
    if settings.relay_deletes {
        let e = replies[4];
    }
}

/// Nothing is deleted or unregistered for something that is not mirrored.
pub proof fn unmirrored_deletion_does_nothing(
    tasks: Seq<HandleSingleEvent>,
    replies: Seq<Reply>,
    progress: Seq<Progress<(), HandlerError>>,
    settings: GuildSettings,
    event: Event,
    id: u64,
)
    requires
        is_run(tasks, replies, progress),
        begins(tasks[0], event, settings),
        deletes(event, id),
        replies.len() > 2,
        replies[1] is Done,
        replies[2] == Reply::Mapping(None),
    ensures
        replies.len() == 3,
        progress[2].yields(()),
{
    let a = replies[0];
    let b = replies[1];
    let c = replies[2];
    runs_end(tasks, replies, progress, 2);
}

/// Whether a shape is that of a role.
pub open spec fn is_shape_of(shape: RoleShape, role: Role) -> bool {
    &&& shape.color == role.color
    &&& shape.hoist == role.hoist
    &&& shape.mentionable == role.mentionable
    &&& shape.name@ == role.name@
    &&& shape.permissions == role.permissions
}

/// Where roles are mirrored, a new role, other than the one of every member, is created in the
/// mirroring guild as it is, and registered as mirrored by what was created.
pub proof fn new_role_is_mirrored(
    tasks: Seq<HandleSingleEvent>,
    replies: Seq<Reply>,
    progress: Seq<Progress<(), HandlerError>>,
    settings: GuildSettings,
    role: Role,
    dest_role: Role,
)
    requires
        is_run(tasks, replies, progress),
        begins(tasks[0], Event::RoleCreate(role), settings),
        settings.clone_roles,
        role.name@ != "@everyone"@,
        role.encoded is Ok,
        dest_role.encoded is Ok,
        replies.len() == 5,
        replies[1] is Done,
        replies[2] == Reply::Role(dest_role),
        replies[3] is Done,
        replies[4] is Done,
    ensures
        progress[1] matches Progress::Perform(Action::CreateRole { guild_id, shape }) && guild_id
            == settings.dest_guild_id && is_shape_of(shape, role),
        progress[2].performs(Action::Sleep(1)),
        progress[3] matches Progress::Perform(Action::RegisterMapping(mapping)) && leads(
            mapping@,
            role.id,
            dest_role.id,
            settings.src_guild_id,
            settings.dest_guild_id,
        ) && keeps(mapping@, role.encoded, dest_role.encoded),
        progress[4].yields(()),
{
    let a = replies[0];
    let b = replies[1];
    let c = replies[2];
    let d = replies[3];
    let e = replies[4];
    crate::util::roles::role_index_found(Seq::empty(), role);
}

/// Where changes are relayed, the mirror of a role that changed becomes as the role is now, and
/// the mapping of the role keeps both as they are now.
pub proof fn changed_role_is_followed(
    tasks: Seq<HandleSingleEvent>,
    replies: Seq<Reply>,
    progress: Seq<Progress<(), HandlerError>>,
    settings: GuildSettings,
    role: Role,
    dest_role: Role,
    found: IdMapping,
    again: IdMapping,
)
    requires
        is_run(tasks, replies, progress),
        begins(tasks[0], Event::RoleUpdate(role), settings),
        settings.relay_updates,
        role.encoded is Ok,
        dest_role.encoded is Ok,
        replies.len() == 6,
        replies[1] is Done,
        replies[2] == Reply::Mapping(Some(found)),
        replies[3] == Reply::Role(dest_role),
        replies[4] == Reply::Mapping(Some(again)),
        replies[5] is Done,
    ensures
        progress[1].performs(Action::GetMapping { orig_id: role.id }),
        progress[2] matches Progress::Perform(Action::ChangeRole { guild_id, role_id, shape })
            && guild_id == settings.dest_guild_id && role_id == mirror_id(found) && is_shape_of(
            shape,
            role,
        ),
        progress[3].performs(Action::FindMapping { orig_id: role.id }),
        progress[4] matches Progress::Perform(Action::UpdateMapping { mapping, new_mapping }) && {
            &&& mapping@ == again@
            &&& new_mapping@.orig_id == again@.orig_id
            &&& new_mapping@.ref_id == again@.ref_id
            &&& new_mapping@.orig_guild_id == again@.orig_guild_id
            &&& new_mapping@.ref_guild_id == again@.ref_guild_id
            &&& keeps(new_mapping@, role.encoded, dest_role.encoded)
        },
        progress[5].yields(()),
{
    let a = replies[0];
    let b = replies[1];
    let c = replies[2];
    let d = replies[3];
    let e = replies[4];
    let f = replies[5];
}

/// A new thread is joined, unless it is registered already, and its mirror is created below the
/// mirror of its parent: in a forum a post that begins with an empty line, elsewhere a thread of
/// the same kind. The mapping that is registered leads from the thread to the one that was
/// created, and keeps both.
pub proof fn new_thread_is_mirrored(
    tasks: Seq<HandleSingleEvent>,
    replies: Seq<Reply>,
    progress: Seq<Progress<(), HandlerError>>,
    settings: GuildSettings,
    thread: Channel,
    parent: IdMapping,
    dest_parent: Channel,
    dest_thread: Channel,
)
    requires
        is_run(tasks, replies, progress),
        begins(tasks[0], Event::ThreadCreate(thread), settings),
        thread.parent_id is Some,
        !settings.blacklists@.contains(Blacklist::Channel(thread.parent_id->0)),
        thread.name is Some,
        dest_parent.kind is GuildForum || (1 <= thread.name->0@.len() <= 100 && (
        thread.kind is AnnouncementThread || thread.kind is PublicThread
            || thread.kind is PrivateThread)),
        thread.encoded is Ok,
        dest_thread.encoded is Ok,
        replies.len() == 8,
        replies[1] is Done,
        replies[2] == Reply::Mapping(None),
        replies[3] is Done,
        replies[4] == Reply::Mapping(Some(parent)),
        replies[5] == Reply::Channel(dest_parent),
        replies[6] == Reply::Thread(dest_thread),
        replies[7] is Done,
    ensures
        progress[1].performs(Action::FindMapping { orig_id: thread.id }),
        progress[2].performs(Action::JoinThread(thread.id)),
        progress[3].performs(Action::GetMapping { orig_id: thread.parent_id->0 }),
        progress[4].performs(Action::GetChannel(mirror_id(parent))),
        if dest_parent.kind is GuildForum {
            progress[5] matches Progress::Perform(Action::CreateForumPost(post)) && {
                &&& post.parent_id == dest_parent.id
                &&& post.name == thread.name->0
                &&& post.auto_archive_duration == thread.default_auto_archive_duration
                &&& post.content@ == "_ _"@
                &&& post.embeds is None
                &&& post.attachments is None
            }
        } else {
            progress[5] matches Progress::Perform(Action::CreateThread(new)) && {
                &&& new.parent_id == dest_parent.id
                &&& new.name == thread.name->0
                &&& new.kind == thread.kind
                &&& new.invitable == thread.invitable
                &&& new.auto_archive_duration == thread.default_auto_archive_duration
            }
        },
        progress[6] matches Progress::Perform(Action::RegisterMapping(mapping)) && leads(
            mapping@,
            thread.id,
            dest_thread.id,
            settings.src_guild_id,
            settings.dest_guild_id,
        ) && keeps(mapping@, thread.encoded, dest_thread.encoded),
        progress[7].yields(()),
{
    let a = replies[0];
    let b = replies[1];
    let c = replies[2];
    let d = replies[3];
    let e = replies[4];
    let f = replies[5];
    let g = replies[6];
    let h = replies[7];
}

/// A thread that changed and is not archived is joined. Where changes are relayed, its mirror,
/// unless its parent is blacklisted, then gets its name, whether others can be invited and when
/// it is archived.
pub proof fn changed_thread_is_followed(
    tasks: Seq<HandleSingleEvent>,
    replies: Seq<Reply>,
    progress: Seq<Progress<(), HandlerError>>,
    settings: GuildSettings,
    thread: Channel,
    found: IdMapping,
    k: int,
)
    requires
        is_run(tasks, replies, progress),
        begins(tasks[0], Event::ThreadUpdate(thread), settings),
        settings.relay_updates,
        thread.parent_id is Some,
        !settings.blacklists@.contains(Blacklist::Channel(thread.parent_id->0)),
        is_within_limits(thread),
        k == (if thread.archived == Some(false) {
            3int
        } else {
            2int
        }),
        replies.len() == k + 2,
        replies[1] is Done,
        k == 3 ==> replies[2] is Done,
        replies[k] == Reply::Mapping(Some(found)),
        replies[k + 1] is Done,
    ensures
        k == 3 ==> progress[1].performs(Action::JoinThread(thread.id)),
        progress[k - 1].performs(Action::GetMapping { orig_id: thread.id }),
        progress[k] matches Progress::Perform(Action::ChangeThread(change)) && {
            &&& change.thread_id == mirror_id(found)
            &&& change.name == thread.name
            &&& change.invitable == thread.invitable
            &&& change.auto_archive_duration == thread.default_auto_archive_duration
        },
        progress[k + 1].yields(()),
{
    let a = replies[0];
    let b = replies[1];
    let c = replies[2];
    let d = replies[3];
    let e = replies[k + 1];
}

/// A thread below a blacklisted channel, or below none, is not mirrored, and its changes are not
/// followed: of a new one nothing is asked, and a changed one is at most joined.
pub proof fn barred_thread_is_left_alone(
    tasks: Seq<HandleSingleEvent>,
    replies: Seq<Reply>,
    progress: Seq<Progress<(), HandlerError>>,
    settings: GuildSettings,
    thread: Channel,
    k: int,
)
    requires
        is_run(tasks, replies, progress),
        begins(tasks[0], Event::ThreadCreate(thread), settings) || begins(
            tasks[0],
            Event::ThreadUpdate(thread),
            settings,
        ),
        thread.parent_id matches Some(parent_id) ==> settings.blacklists@.contains(
            Blacklist::Channel(parent_id),
        ),
        0 < k < replies.len(),
    ensures
        progress[k] is Perform ==> {
            &&& begins(tasks[0], Event::ThreadUpdate(thread), settings)
            &&& progress[k].performs(Action::JoinThread(thread.id))
        },
{
    let a = replies[0];
    let b = replies[1];
    if !(progress[1] is Perform) {
        runs_end(tasks, replies, progress, 1);
    }
    if replies.len() > 2 {
        let c = replies[2];
        runs_end(tasks, replies, progress, 2);
    }
}

/// Where changes are not relayed, those of channels and roles lead to nothing, and a thread that
/// changed is at most joined.
pub proof fn changes_stay_unrelayed(
    tasks: Seq<HandleSingleEvent>,
    replies: Seq<Reply>,
    progress: Seq<Progress<(), HandlerError>>,
    settings: GuildSettings,
    event: Event,
    k: int,
)
    requires
        is_run(tasks, replies, progress),
        begins(tasks[0], event, settings),
        event is ChannelUpdate || event is RoleUpdate || event is ThreadUpdate,
        !settings.relay_updates,
        0 < k < replies.len(),
    ensures
        progress[k] matches Progress::Perform(action) ==> event matches Event::ThreadUpdate(thread)
            && action == Action::JoinThread(thread.id),
{
    let a = replies[0];
    let b = replies[1];
    if !(progress[1] is Perform) {
        runs_end(tasks, replies, progress, 1);
    }
    if replies.len() > 2 {
        let c = replies[2];
        runs_end(tasks, replies, progress, 2);
    }
}

/// Where roles are not mirrored, a new role leads to nothing, and so does an event of any other
/// kind than those that are mirrored.
pub proof fn roles_stay_unmirrored(
    tasks: Seq<HandleSingleEvent>,
    replies: Seq<Reply>,
    progress: Seq<Progress<(), HandlerError>>,
    settings: GuildSettings,
    event: Event,
)
    requires
        is_run(tasks, replies, progress),
        begins(tasks[0], event, settings),
        event is RoleCreate && !settings.clone_roles || event is Other,
        replies.len() > 1,
        replies[1] is Done,
    ensures
        replies.len() == 2,
        progress[1].yields(()),
{
    let a = replies[0];
    let b = replies[1];
    runs_end(tasks, replies, progress, 1);
}

/// Every event is handled over a connection to the database, and that is taken first. Without
/// one nothing is done.
pub proof fn connection_comes_first(
    tasks: Seq<HandleSingleEvent>,
    replies: Seq<Reply>,
    progress: Seq<Progress<(), HandlerError>>,
    settings: GuildSettings,
    event: Event,
)
    requires
        is_run(tasks, replies, progress),
        begins(tasks[0], event, settings),
        replies.len() > 0,
    ensures
        progress[0].performs(Action::Connect),
        replies.len() > 1 && replies[1] is Failed ==> replies.len() == 2 && progress[1] is Failed,
{
    let a = replies[0];
    if replies.len() > 1 {
        let b = replies[1];
        if replies[1] is Failed {
            runs_end(tasks, replies, progress, 1);
        }
    }
}

} // verus!
